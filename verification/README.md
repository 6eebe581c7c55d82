# msedit

Settings and menubar logic of a terminal text editor, verified with Verus.

- `src/settings.rs`: `MenuBarVisibility`, `Settings`, loading settings.json (given as a
  parsed `JsonValue`), and the in-place rewrite of `window.menuBarVisibility`, with the
  laws that a stored value reads back and that reloading forgets an earlier load.
- `src/menubar.rs`: when the menubar is drawn or revealed, the entries of each menu and
  what activating an entry does.
- `src/text.rs`, `src/json.rs`, `src/buffer.rs`, `src/input.rs`: text search, the JSON
  object model, the text buffer model and key presses these use.
- `app/main.rs`: configuration directory, file access and JSON parsing.
