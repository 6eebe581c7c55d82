use std::ops::Range;
use vstd::prelude::*;
use vstd::string::StringSliceAdditionalSpecFns;

use crate::apperr::{Error, Invalid};
use crate::buffer::{TextBuffer, TextBufferView};
use crate::json::{
    get_object, get_str, spec_get_object, spec_get_str, JsonValue,
};
use crate::text::{
    all_ws, find_char, find_char_from, find_str, find_str_from, is_all_ws, matches_at, skip_ws,
    str_eq, to_chars, trim_start, is_string_body, is_ws, byte_pos, byte_pos_of, utf8_width,
    lemma_byte_pos_end, lemma_byte_pos_increasing, lemma_byte_pos_step, lemma_char_boundary_pos,
};

verus! {

/// Controls whether the menubar occupies the top row of the screen.
#[derive(Clone, Copy, Debug, PartialEq, Eq, Structural)]
pub enum MenuBarVisibility {
    /// The menubar is always visible.
    Classic,
    /// The menubar is hidden, but Alt+<accelerator> and F10 bring it back
    /// until it loses focus again.
    Toggle,
    /// The menubar is never visible.
    Hidden,
}

impl MenuBarVisibility {
    /// The `window.menuBarVisibility` value that names this variant.
    pub open spec fn spec_as_str(self) -> Seq<char> {
        match self {
            MenuBarVisibility::Classic => seq!['c', 'l', 'a', 's', 's', 'i', 'c'],
            MenuBarVisibility::Toggle => seq!['t', 'o', 'g', 'g', 'l', 'e'],
            MenuBarVisibility::Hidden => seq!['h', 'i', 'd', 'd', 'e', 'n'],
        }
    }

    /// The `window.menuBarVisibility` value that maps onto this variant.
    pub fn as_str(self) -> (r: &'static str)
        ensures
            r@ == self.spec_as_str(),
    {
        match self {
            MenuBarVisibility::Classic => {
                let s = "classic";
                proof { reveal_strlit("classic"); }
                s
            },
            MenuBarVisibility::Toggle => {
                let s = "toggle";
                proof { reveal_strlit("toggle"); }
                s
            },
            MenuBarVisibility::Hidden => {
                let s = "hidden";
                proof { reveal_strlit("hidden"); }
                s
            },
        }
    }
}

impl MenuBarVisibility {
    /// The variant that a `window.menuBarVisibility` value names, if any.
    pub open spec fn spec_from_setting(s: Seq<char>) -> Option<MenuBarVisibility> {
        if s == MenuBarVisibility::Classic.spec_as_str() {
            Some(MenuBarVisibility::Classic)
        } else if s == MenuBarVisibility::Toggle.spec_as_str() {
            Some(MenuBarVisibility::Toggle)
        } else if s == MenuBarVisibility::Hidden.spec_as_str() {
            Some(MenuBarVisibility::Hidden)
        } else {
            None
        }
    }

    /// The variant that a `window.menuBarVisibility` value names, if any.
    pub fn from_setting(s: &str) -> (r: Option<MenuBarVisibility>)
        ensures
            r == MenuBarVisibility::spec_from_setting(s@),
    {
        if str_eq(s, MenuBarVisibility::Classic.as_str()) {
            Some(MenuBarVisibility::Classic)
        } else if str_eq(s, MenuBarVisibility::Toggle.as_str()) {
            Some(MenuBarVisibility::Toggle)
        } else if str_eq(s, MenuBarVisibility::Hidden.as_str()) {
            Some(MenuBarVisibility::Hidden)
        } else {
            None
        }
    }
}

impl Default for MenuBarVisibility {
    fn default() -> (r: Self)
        ensures
            r == MenuBarVisibility::Classic,
    {
        MenuBarVisibility::Classic
    }
}

/// The editor's settings, as read from settings.json.
pub struct Settings {
    /// Where settings.json lives; empty when there is no configuration directory
    /// or the settings were never loaded.
    pub path: String,
    /// Glob patterns and the language that files matching them are shown as, by
    /// position in the language table that loading was given.
    pub file_associations: Vec<(String, usize)>,
    pub menu_bar_visibility: MenuBarVisibility,
}

/// The settings as plain values.
pub struct SettingsView {
    pub path: Seq<char>,
    pub file_associations: Seq<(Seq<char>, usize)>,
    pub menu_bar_visibility: MenuBarVisibility,
}

impl View for Settings {
    type V = SettingsView;

    open spec fn view(&self) -> SettingsView {
        SettingsView {
            path: self.path@,
            file_associations: self.file_associations@.map_values(|e: (String, usize)| (e.0@, e.1)),
            menu_bar_visibility: self.menu_bar_visibility,
        }
    }
}

/// The settings before anything was loaded.
pub open spec fn default_settings() -> SettingsView {
    SettingsView {
        path: Seq::empty(),
        file_associations: Seq::empty(),
        menu_bar_visibility: MenuBarVisibility::Classic,
    }
}

/// The editor's one set of settings, which everything reads through [`Settings::borrow`].
pub struct SettingsCell {
    pub settings: Settings,
}

impl SettingsCell {
    pub fn new() -> (r: SettingsCell)
        ensures
            r.settings@ == default_settings(),
    {
        SettingsCell { settings: Settings::new() }
    }
}

/// What became of reading and parsing settings.json.
pub enum SettingsFile {
    /// There is no such file.
    NotFound,
    /// Reading it failed otherwise; the text describes how.
    Failed(String),
    /// It is not valid JSON.
    Malformed,
    /// It parsed as this JSON value.
    Parsed(JsonValue),
}

/// What became of reading settings.json before writing it back.
pub enum ExistingSettings {
    /// The file holds this text.
    Contents(String),
    /// There is no such file yet.
    NotFound,
    /// Reading it failed otherwise; the text describes how.
    Failed(String),
}

/// The glob pattern that a `files.associations` key stands for: a key without a `/`
/// matches the file name in any directory.
pub open spec fn association_pattern(key: Seq<char>) -> Seq<char> {
    if key.contains('/') {
        key
    } else {
        "**/"@ + key
    }
}

/// The position of the first language at or after `i` whose id is `id`.
pub open spec fn language_index_from(languages: Seq<String>, id: Seq<char>, i: int) -> Option<int>
    decreases languages.len() - i,
{
    if i < 0 || i >= languages.len() {
        None
    } else if languages[i]@ == id {
        Some(i)
    } else {
        language_index_from(languages, id, i + 1)
    }
}

/// The association that one `files.associations` member stands for.
pub open spec fn spec_association(entry: (String, JsonValue), languages: Seq<String>) -> Result<
    (Seq<char>, usize),
    Invalid,
> {
    match entry.1 {
        JsonValue::String(id) => match language_index_from(languages, id@, 0) {
            Some(i) => Ok((association_pattern(entry.0@), i as usize)),
            None => Err(Invalid::LanguageId),
        },
        _ => Err(Invalid::FileAssociations),
    }
}

/// The associations that the members of `files.associations` stand for, in order, up to
/// the first member that is not acceptable, and what is wrong with that one.
pub open spec fn spec_associations(entries: Seq<(String, JsonValue)>, languages: Seq<String>) -> (
    Seq<(Seq<char>, usize)>,
    Option<Invalid>,
)
    decreases entries.len(),
{
    if entries.len() == 0 {
        (Seq::empty(), None)
    } else {
        let (done, err) = spec_associations(entries.drop_last(), languages);
        if err is Some {
            (done, err)
        } else {
            match spec_association(entries.last(), languages) {
                Ok(a) => (done.push(a), None),
                Err(e) => (done, Some(e)),
            }
        }
    }
}

/// The settings `s` after applying the parsed settings.json `root`, and whether that
/// succeeded. Members are applied in order and applying stops at the first problem.
pub open spec fn spec_apply_json(s: SettingsView, root: JsonValue, languages: Seq<String>) -> (
    SettingsView,
    Result<(), Invalid>,
) {
    match root {
        JsonValue::Object(members) => {
            let (added, err) = match spec_get_object(members@, "files.associations"@) {
                Some(entries) => spec_associations(entries, languages),
                None => (Seq::empty(), None),
            };
            let s1 = SettingsView {
                path: s.path,
                file_associations: s.file_associations + added,
                menu_bar_visibility: s.menu_bar_visibility,
            };
            match err {
                Some(e) => (s1, Err(e)),
                None => match spec_get_str(members@, "window.menuBarVisibility"@) {
                    None => (s1, Ok(())),
                    Some(v) => match MenuBarVisibility::spec_from_setting(v) {
                        Some(vis) => (
                            SettingsView {
                                path: s1.path,
                                file_associations: s1.file_associations,
                                menu_bar_visibility: vis,
                            },
                            Ok(()),
                        ),
                        None => (s1, Err(Invalid::MenuBarVisibility)),
                    },
                },
            }
        },
        _ => (s, Err(Invalid::NonObjectRoot)),
    }
}

/// Once a member of `files.associations` is refused, later members change nothing.
proof fn lemma_associations_stop(entries: Seq<(String, JsonValue)>, languages: Seq<String>, i: int, j: int)
    requires
        0 <= i <= j <= entries.len(),
        spec_associations(entries.take(i), languages).1 is Some,
    ensures
        spec_associations(entries.take(j), languages) == spec_associations(entries.take(i), languages),
    decreases j - i,
{
    if j > i {
        lemma_associations_stop(entries, languages, i, j - 1);
        assert(entries.take(j).drop_last() =~= entries.take(j - 1));
    }
}

/// `s` with its path replaced.
pub open spec fn with_path(s: SettingsView, path: Seq<char>) -> SettingsView {
    SettingsView {
        path: path,
        file_associations: s.file_associations,
        menu_bar_visibility: s.menu_bar_visibility,
    }
}

/// What [`Settings::reload`] starts from: the settings are reset if they had been
/// loaded from a settings.json path before.
pub open spec fn spec_reload_start(prev: SettingsView) -> SettingsView {
    if prev.path.len() != 0 {
        default_settings()
    } else {
        prev
    }
}

/// The settings after [`Settings::reload`] from `prev`.
pub open spec fn spec_reload(
    prev: SettingsView,
    path: Option<String>,
    file: SettingsFile,
    languages: Seq<String>,
) -> SettingsView {
    let start = spec_reload_start(prev);
    match path {
        None => start,
        Some(p) => match file {
            SettingsFile::Parsed(root) => spec_apply_json(with_path(start, p@), root, languages).0,
            _ => with_path(start, p@),
        },
    }
}

/// The position of the first language whose id is `id`.
fn language_index(languages: &Vec<String>, id: &str) -> (r: Option<usize>)
    ensures
        match r {
            Some(i) => language_index_from(languages@, id@, 0) == Some(i as int),
            None => language_index_from(languages@, id@, 0) is None,
        },
{
    let mut i: usize = 0;
    while i < languages.len()
        invariant
            language_index_from(languages@, id@, 0) == language_index_from(
                languages@,
                id@,
                i as int,
            ),
        decreases languages.len() - i,
    {
        if str_eq(languages[i].as_str(), id) {
            return Some(i);
        }
        i = i + 1;
    }
    None
}

/// The glob pattern that a `files.associations` key stands for.
fn association_pattern_of(key: &str) -> (r: String)
    ensures
        r@ == association_pattern(key@),
{
    let chars = to_chars(key);
    match find_char(&chars, '/', 0) {
        Some(_) => {
            proof {
                crate::text::lemma_find_char_from(chars@, '/', 0);
            }
            key.to_owned()
        },
        None => {
            proof {
                crate::text::lemma_find_char_from(chars@, '/', 0);
            }
            let mut r = "**/".to_owned();
            r.append(key);
            r
        },
    }
}

impl Settings {
    fn new() -> (r: Settings)
        ensures
            r@ == default_settings(),
    {
        let r = Settings {
            path: String::new(),
            file_associations: Vec::new(),
            menu_bar_visibility: MenuBarVisibility::Classic,
        };
        assert(r@.file_associations =~= Seq::<(Seq<char>, usize)>::empty());
        r
    }

    /// What a new settings.json buffer is filled with.
    pub open spec fn bootstrap_bytes() -> Seq<u8> {
        seq![0x7bu8, 0x0au8, 0x7du8, 0x0au8]
    }

    /// Fills the given settings.json text buffer with some initial contents for convenience:
    /// an empty JSON object, LF line breaks, the cursor at the start and nothing to save.
    pub fn bootstrap(tb: &mut TextBuffer)
        requires
            old(tb)@.text.len() + 4 <= usize::MAX,
        ensures
            old(tb)@.cursor <= old(tb)@.text.len(),
            final(tb)@ == (TextBufferView {
                text: old(tb)@.text.take(old(tb)@.cursor as int) + Settings::bootstrap_bytes()
                    + old(tb)@.text.skip(old(tb)@.cursor as int),
                cursor: 0,
                crlf: false,
                dirty: false,
            }),
    {
        tb.set_crlf(false);
        let contents: [u8; 4] = [0x7b, 0x0a, 0x7d, 0x0a];
        assert(contents@ =~= Settings::bootstrap_bytes());
        tb.write_raw(&contents);
        tb.cursor_move_to_start();
        tb.mark_as_clean();
    }

    /// Read access to the settings.
    pub fn borrow(cell: &SettingsCell) -> (r: &Settings)
        ensures
            r == &cell.settings,
    {
        &cell.settings
    }

    /// Loads the settings again: forgets what an earlier load brought and applies
    /// settings.json anew. `path` is where settings.json lives, if there is a
    /// configuration directory (a path is never empty); `file` is what reading and parsing it gave, and is not
    /// looked at without a `path`. `languages` are the ids of the known languages.
    pub fn reload(
        cell: &mut SettingsCell,
        path: Option<String>,
        file: SettingsFile,
        languages: &Vec<String>,
    ) -> (r: Result<(), Error>)
        requires
            path matches Some(p) ==> p@.len() != 0,
        ensures
            final(cell).settings@ == spec_reload(old(cell).settings@, path, file, languages@),
            match path {
                None => r is Ok,
                Some(p) => match file {
                    SettingsFile::NotFound => r is Ok,
                    SettingsFile::Failed(m) => r matches Err(Error::Io(m2)) && m2@ == m@,
                    SettingsFile::Malformed => r matches Err(Error::SettingsInvalid(Invalid::Json)),
                    SettingsFile::Parsed(root) => match spec_apply_json(
                        with_path(spec_reload_start(old(cell).settings@), p@),
                        root,
                        languages@,
                    ).1 {
                        Ok(()) => r is Ok,
                        Err(e) => r matches Err(Error::SettingsInvalid(e2)) && e2 == e,
                    },
                },
            },
    {
        if cell.settings.path.as_str().unicode_len() != 0 {
            cell.settings = Settings::new();
        }
        cell.settings.load(path, file, languages)
    }

    /// Records the menubar visibility and tells whether it is to be written back to
    /// settings.json, which is so when there is a settings.json path to write to.
    /// The contents to write come from [`menu_bar_visibility_contents`].
    pub fn store_menu_bar_visibility(cell: &mut SettingsCell, visibility: MenuBarVisibility) -> (persist: bool)
        ensures
            final(cell).settings@ == (SettingsView {
                path: old(cell).settings@.path,
                file_associations: old(cell).settings@.file_associations,
                menu_bar_visibility: visibility,
            }),
            persist == (old(cell).settings@.path.len() != 0),
    {
        cell.settings.menu_bar_visibility = visibility;
        // No config directory means there's nowhere to persist to.
        cell.settings.path.as_str().unicode_len() != 0
    }

    fn load(&mut self, path: Option<String>, file: SettingsFile, languages: &Vec<String>) -> (r:
        Result<(), Error>)
        ensures
            match path {
                None => r is Ok && final(self)@ == old(self)@,
                Some(p) => {
                    let s0 = with_path(old(self)@, p@);
                    match file {
                        SettingsFile::NotFound => r is Ok && final(self)@ == s0,
                        SettingsFile::Failed(m) => (r matches Err(Error::Io(m2)) && m2@ == m@)
                            && final(self)@ == s0,
                        SettingsFile::Malformed => r matches Err(
                            Error::SettingsInvalid(Invalid::Json),
                        ) && final(self)@ == s0,
                        SettingsFile::Parsed(root) => {
                            let (s1, res) = spec_apply_json(s0, root, languages@);
                            &&& final(self)@ == s1
                            &&& match res {
                                Ok(()) => r is Ok,
                                Err(e) => r matches Err(Error::SettingsInvalid(e2)) && e2 == e,
                            }
                        },
                    }
                },
            },
    {
        self.path = match path {
            Some(p) => p,
            None => return Ok(()),
        };
        let root = match file {
            SettingsFile::NotFound => return Ok(()),
            SettingsFile::Failed(m) => return Err(Error::Io(m)),
            SettingsFile::Malformed => return Err(Error::SettingsInvalid(Invalid::Json)),
            SettingsFile::Parsed(root) => root,
        };
        self.apply_json(&root, languages)
    }

    #[verifier::loop_isolation(false)]
    fn apply_json(&mut self, root: &JsonValue, languages: &Vec<String>) -> (r: Result<(), Error>)
        ensures
            ({
                let (s1, res) = spec_apply_json(old(self)@, *root, languages@);
                &&& final(self)@ == s1
                &&& match res {
                    Ok(()) => r is Ok,
                    Err(e) => r matches Err(Error::SettingsInvalid(e2)) && e2 == e,
                }
            }),
    {
        let members = match root {
            JsonValue::Object(m) => m,
            _ => return Err(Error::SettingsInvalid(Invalid::NonObjectRoot)),
        };
        let ghost base = self@;
        if let Some(entries) = get_object(members, "files.associations") {
            let mut i: usize = 0;
            while i < entries.len()
                invariant
                    i <= entries.len(),
                    self@.path == base.path,
                    self@.menu_bar_visibility == base.menu_bar_visibility,
                    spec_associations(entries@.take(i as int), languages@).1 is None,
                    self@.file_associations == base.file_associations + spec_associations(
                        entries@.take(i as int),
                        languages@,
                    ).0,
                decreases entries.len() - i,
            {
                assert(entries@.take(i + 1).drop_last() =~= entries@.take(i as int));
                assert(entries@.take(i + 1).last() == entries@[i as int]);
                let entry = &entries[i];
                let key = association_pattern_of(entry.0.as_str());
                let id = match &entry.1 {
                    JsonValue::String(id) => id,
                    _ => {
                        proof {
                            lemma_associations_stop(entries@, languages@, i + 1, entries@.len() as int);
                            assert(entries@.take(entries@.len() as int) =~= entries@);
                        }
                        return Err(Error::SettingsInvalid(Invalid::FileAssociations));
                    },
                };
                let language = match language_index(languages, id.as_str()) {
                    Some(l) => l,
                    None => {
                        proof {
                            lemma_associations_stop(entries@, languages@, i + 1, entries@.len() as int);
                            assert(entries@.take(entries@.len() as int) =~= entries@);
                        }
                        return Err(Error::SettingsInvalid(Invalid::LanguageId));
                    },
                };
                let ghost old_view = self@.file_associations;
                self.file_associations.push((key, language));
                assert(self@.file_associations =~= old_view.push(
                    (association_pattern(entry.0@), language),
                ));
                i = i + 1;
            }
            assert(entries@.take(entries.len() as int) =~= entries@);
        } else {
            assert(self@.file_associations =~= base.file_associations + Seq::<
                (Seq<char>, usize),
            >::empty());
        }
        if let Some(v) = get_str(members, "window.menuBarVisibility") {
            self.menu_bar_visibility = match MenuBarVisibility::from_setting(v.as_str()) {
                Some(vis) => vis,
                None => return Err(Error::SettingsInvalid(Invalid::MenuBarVisibility)),
            };
        }
        Ok(())
    }
}

/// What settings.json holds when there is none yet.
pub open spec fn empty_settings_text() -> Seq<char> {
    seq!['{', '\n', '}', '\n']
}

/// The contents that settings.json is to hold after storing `visibility`, given what
/// reading it gave: the file with just `window.menuBarVisibility` replaced, and the rest
/// of it -- other settings, key order, formatting -- left as it was.
pub fn menu_bar_visibility_contents(existing: ExistingSettings, visibility: MenuBarVisibility) -> (r: Result<String, Error>)
    ensures
        match existing {
            ExistingSettings::Failed(m) => r matches Err(Error::Io(m2)) && m2@ == m@,
            ExistingSettings::Contents(text) => match spec_replace_menu_bar_visibility(text@, visibility.spec_as_str()) {
                Ok(out) => r matches Ok(s) && s@ == out,
                Err(e) => r matches Err(Error::SettingsInvalid(e2)) && e2 == e,
            },
            ExistingSettings::NotFound => match spec_replace_menu_bar_visibility(empty_settings_text(), visibility.spec_as_str()) {
                Ok(out) => r matches Ok(s) && s@ == out,
                Err(e) => r matches Err(Error::SettingsInvalid(e2)) && e2 == e,
            },
        },
{
    let existing = match existing {
        ExistingSettings::Contents(text) => text,
        // A missing settings.json is business as usual: we're the ones creating it.
        ExistingSettings::NotFound => {
            let text = "{\n}\n".to_owned();
            proof { reveal_strlit("{\n}\n"); }
            assert(text@ =~= empty_settings_text());
            text
        },
        ExistingSettings::Failed(m) => return Err(Error::Io(m)),
    };
    replace_menu_bar_visibility(existing.as_str(), visibility.as_str())
}

/// The key, quotes included, under which settings.json stores the menubar visibility.
pub open spec fn visibility_key() -> Seq<char> {
    "\"window.menuBarVisibility\""@
}

/// The layout of a string value assigned at `from`: whitespace up to the `:` at
/// `colon`, whitespace up to the opening quote at `open`, a JSON string body (in which
/// `\"` and the other escapes stand for themselves), and the closing quote at `close`.
pub open spec fn is_string_value_at(s: Seq<char>, from: int, colon: int, open: int, close: int) -> bool {
    &&& 0 <= from <= colon
    &&& colon < open
    &&& open < close < s.len()
    &&& all_ws(s.subrange(from, colon))
    &&& s[colon] == ':'
    &&& all_ws(s.subrange(colon + 1, open))
    &&& s[open] == '"'
    &&& is_string_body(s.subrange(open + 1, close))
    &&& s[close] == '"'
}

/// Where the string value assigned at `from` lies, quotes excluded, if what follows
/// `from` is `: "..."`.
pub open spec fn spec_string_value_span(s: Seq<char>, from: int) -> Option<(int, int)> {
    if exists|colon: int, open: int, close: int| is_string_value_at(s, from, colon, open, close) {
        let (colon, open, close) = choose|colon: int, open: int, close: int|
            is_string_value_at(s, from, colon, open, close);
        Some((open + 1, close))
    } else {
        None
    }
}

/// The character `ch`, which is not whitespace, after a whitespace run is the first `ch`.
proof fn lemma_first_after_ws(s: Seq<char>, from: int, ch: char, c: int)
    requires
        0 <= from <= c < s.len(),
        all_ws(s.subrange(from, c)),
        s[c] == ch,
        !is_ws(ch),
    ensures
        find_char_from(s, ch, from) == Some(c),
{
    assert forall|j: int| from <= j < c implies s[j] != ch by {
        assert(s.subrange(from, c)[j - from] == s[j]);
    }
    crate::text::lemma_find_char_first(s, ch, from, c);
}

/// A string value has one layout only.
proof fn lemma_string_value_unique(
    s: Seq<char>,
    from: int,
    c1: int,
    o1: int,
    e1: int,
    c2: int,
    o2: int,
    e2: int,
)
    requires
        is_string_value_at(s, from, c1, o1, e1),
        is_string_value_at(s, from, c2, o2, e2),
    ensures
        c1 == c2 && o1 == o2 && e1 == e2,
{
    lemma_first_after_ws(s, from, ':', c1);
    lemma_first_after_ws(s, from, ':', c2);
    lemma_first_after_ws(s, c1 + 1, '"', o1);
    lemma_first_after_ws(s, c1 + 1, '"', o2);
    crate::text::lemma_string_end_unique(s, o1 + 1, e1, e2);
}

/// A layout of a string value fixes its span.
pub proof fn lemma_string_value_span_is(s: Seq<char>, from: int, colon: int, open: int, close: int)
    requires
        is_string_value_at(s, from, colon, open, close),
    ensures
        spec_string_value_span(s, from) == Some((open + 1, close)),
{
    let (c, o, e) = choose|c: int, o: int, e: int| is_string_value_at(s, from, c, o, e);
    lemma_string_value_unique(s, from, colon, open, close, c, o, e);
}

/// The string body that starts at `start` closes at `e`.
pub open spec fn closes_at(s: Seq<char>, start: int, e: int) -> bool {
    s[e] == '"' && is_string_body(s.subrange(start, e))
}

/// The separator that goes after an inserted first member, given what follows `{`.
pub open spec fn member_separator(rest: Seq<char>) -> Seq<char> {
    let trimmed = trim_start(rest);
    if trimmed.len() == 0 || trimmed[0] == '}' {
        Seq::empty()
    } else {
        seq![',']
    }
}

/// What `replace_menu_bar_visibility(json, value)` gives.
pub open spec fn spec_replace_menu_bar_visibility(json: Seq<char>, value: Seq<char>) -> Result<
    Seq<char>,
    Invalid,
> {
    match find_str_from(json, visibility_key(), 0) {
        Some(key_at) => match spec_string_value_span(json, key_at + visibility_key().len()) {
            Some((start, end)) => Ok(json.take(start) + value + json.skip(end)),
            None => Err(Invalid::MenuBarVisibility),
        },
        None => match find_char_from(json, '{', 0) {
            None => Err(Invalid::NonObjectRoot),
            Some(brace) => Ok(
                json.take(brace + 1) + "\n    "@ + visibility_key() + ": \""@ + value + "\""@
                    + member_separator(json.skip(brace + 1)) + json.skip(brace + 1),
            ),
        },
    }
}

/// Returns the range of the string value that `json[from..]` assigns, quotes excluded,
/// as byte offsets into `json`. [`None`] if what follows isn't `: "..."`.
pub fn string_value_span(json: &str, from: usize) -> (r: Option<Range<usize>>)
    requires
        json.is_char_boundary(from),
        json.spec_bytes().len() <= usize::MAX,
    ensures
        forall|i: int|
            0 <= i <= json@.len() && #[trigger] byte_pos(json@, i) == from ==> match spec_string_value_span(json@, i) {
                Some((a, b)) => r matches Some(span) && span.start == byte_pos(json@, a) && span.end
                    == byte_pos(json@, b),
                None => r is None,
            },
{
    let v = to_chars(json);
    let total = json.len();
    proof {
        lemma_byte_pos_end(v@);
        lemma_char_boundary_pos(v@, from as int);
        assert(json.spec_bytes() == vstd::utf8::encode_utf8(json@));
        assert(total == json.spec_bytes().len() as usize);
    }
    let ghost target = choose|i: int| 0 <= i <= v@.len() && #[trigger] byte_pos(v@, i) == from;
    let mut i: usize = 0;
    let mut pos: usize = 0;
    proof {
        assert(v@.take(0) =~= Seq::<char>::empty());
    }
    while pos < from
        invariant
            i <= target <= v@.len(),
            pos == byte_pos(v@, i as int),
            from == byte_pos(v@, target),
            total == byte_pos(v@, v@.len() as int),
        decreases from - pos,
    {
        proof {
            lemma_byte_pos_increasing(v@, i as int, target);
            lemma_byte_pos_step(v@, i as int);
            lemma_byte_pos_increasing(v@, i + 1, target);
        }
        pos = pos + utf8_width(v[i]);
        i = i + 1;
    }
    proof {
        lemma_byte_pos_increasing(v@, i as int, target);
        assert forall|j: int| 0 <= j <= v@.len() && #[trigger] byte_pos(v@, j) == from implies j == i by {
            if j < i {
                lemma_byte_pos_increasing(v@, j, i as int);
            } else {
                lemma_byte_pos_increasing(v@, i as int, j);
            }
        }
    }
    match value_span(&v, i) {
        Some((a, b)) => Some(byte_pos_of(&v, a, total)..byte_pos_of(&v, b, total)),
        None => None,
    }
}

/// The string value that `v[from..]` assigns, quotes excluded, as character indices.
#[verifier::loop_isolation(false)]
fn value_span(v: &Vec<char>, from: usize) -> (r: Option<(usize, usize)>)
    requires
        from <= v@.len(),
    ensures
        match r {
            Some((a, b)) => a <= b < v@.len() && spec_string_value_span(v@, from as int) == Some(
                (a as int, b as int),
            ),
            None => spec_string_value_span(v@, from as int) is None,
        },
{
    let n = v.len();
    let ghost s = v@;
    let colon = match find_char(&v, ':', from) {
        Some(c) => c,
        None => {
            proof {
                assert forall|c: int, o: int, e: int| !is_string_value_at(s, from as int, c, o, e) by {
                    if is_string_value_at(s, from as int, c, o, e) {
                        lemma_first_after_ws(s, from as int, ':', c);
                    }
                }
            }
            return None;
        },
    };
    proof { crate::text::lemma_find_char_from(s, ':', from as int); }
    if !is_all_ws(&v, from, colon) {
        proof {
            assert forall|c: int, o: int, e: int| !is_string_value_at(s, from as int, c, o, e) by {
                if is_string_value_at(s, from as int, c, o, e) {
                    lemma_first_after_ws(s, from as int, ':', c);
                }
            }
        }
        return None;
    }
    let open = match find_char(&v, '"', colon + 1) {
        Some(o) => o,
        None => {
            proof {
                assert forall|c: int, o: int, e: int| !is_string_value_at(s, from as int, c, o, e) by {
                    if is_string_value_at(s, from as int, c, o, e) {
                        lemma_first_after_ws(s, from as int, ':', c);
                        lemma_first_after_ws(s, c + 1, '"', o);
                    }
                }
            }
            return None;
        },
    };
    proof { crate::text::lemma_find_char_from(s, '"', colon + 1); }
    if !is_all_ws(&v, colon + 1, open) {
        proof {
            assert forall|c: int, o: int, e: int| !is_string_value_at(s, from as int, c, o, e) by {
                if is_string_value_at(s, from as int, c, o, e) {
                    lemma_first_after_ws(s, from as int, ':', c);
                    lemma_first_after_ws(s, c + 1, '"', o);
                }
            }
        }
        return None;
    }
    let start = open + 1;
    let mut j = start;
    proof {
        assert(s.subrange(start as int, start as int) =~= Seq::<char>::empty());
    }
    while j < n
        invariant
            start <= j <= n,
            n == s.len(),
            is_string_body(s.subrange(start as int, j as int)),
            forall|e: int| start <= e < j ==> !#[trigger] closes_at(s, start as int, e),
        decreases n - j,
    {
        let x = v[j];
        if x == '"' {
            proof {
                lemma_string_value_span_is(s, from as int, colon as int, open as int, j as int);
            }
            return Some((start, j));
        }
        proof {
            assert(!closes_at(s, start as int, j as int));
        }
        if x == '\\' {
            if j + 1 >= n {
                proof {
                    assert forall|c: int, o: int, e: int| !is_string_value_at(s, from as int, c, o, e) by {
                        if is_string_value_at(s, from as int, c, o, e) {
                            lemma_first_after_ws(s, from as int, ':', c);
                            lemma_first_after_ws(s, c + 1, '"', o);
                            assert(closes_at(s, start as int, e));
                        }
                    }
                }
                return None;
            }
            proof {
                let body = s.subrange(start as int, j as int);
                let y = s[j + 1];
                crate::text::lemma_string_body_append(body, seq!['\\']);
                assert(body + seq!['\\'] =~= s.subrange(start as int, j + 1));
                assert(!is_string_body(seq!['\\']));
                assert(!closes_at(s, start as int, j + 1));
                crate::text::lemma_string_body_append(body, seq!['\\', y]);
                assert(body + seq!['\\', y] =~= s.subrange(start as int, j + 2));
                assert(seq!['\\', y].skip(2) =~= Seq::<char>::empty());
                assert(is_string_body(Seq::<char>::empty()));
                assert(is_string_body(seq!['\\', y]));
            }
            j = j + 2;
        } else {
            proof {
                let body = s.subrange(start as int, j as int);
                crate::text::lemma_string_body_append(body, seq![x]);
                assert(body + seq![x] =~= s.subrange(start as int, j + 1));
                assert(seq![x].skip(1) =~= Seq::<char>::empty());
                assert(is_string_body(Seq::<char>::empty()));
                assert(is_string_body(seq![x]));
            }
            j = j + 1;
        }
    }
    proof {
        assert forall|c: int, o: int, e: int| !is_string_value_at(s, from as int, c, o, e) by {
            if is_string_value_at(s, from as int, c, o, e) {
                lemma_first_after_ws(s, from as int, ':', c);
                lemma_first_after_ws(s, c + 1, '"', o);
                assert(closes_at(s, start as int, e));
            }
        }
    }
    None
}

/// Returns `json` with `window.menuBarVisibility` set to `value`, adding the key as the
/// first member of the root object if it isn't there yet.
///
/// This is a targeted text edit rather than a parse-and-reserialize, because the latter
/// would lose everything about the file we don't model. It bails instead of guessing if
/// the key is there but doesn't hold a plain string.
pub fn replace_menu_bar_visibility(json: &str, value: &str) -> (r: Result<String, Error>)
    ensures
        match spec_replace_menu_bar_visibility(json@, value@) {
            Ok(out) => r matches Ok(s) && s@ == out,
            Err(e) => r matches Err(Error::SettingsInvalid(e2)) && e2 == e,
        },
{
    // A plain substring search could in principle match inside some other string
    // in the file. Nothing we ship reads back what it matched, so the worst case is
    // an edit in a place the user can see and undo.
    let key: &str = "\"window.menuBarVisibility\"";
    let v = to_chars(json);
    let key_chars = to_chars(key);
    let n = v.len();
    if let Some(key_at) = find_str(&v, &key_chars) {
        proof { crate::text::lemma_find_str_from(v@, key_chars@, 0); }
        let (start, end) = match value_span(&v, key_at + key_chars.len()) {
            Some(span) => span,
            None => return Err(Error::SettingsInvalid(Invalid::MenuBarVisibility)),
        };
        let mut out = String::new();
        out.append(json.substring_char(0, start));
        out.append(value);
        out.append(json.substring_char(end, n));
        assert(out@ =~= json@.take(start as int) + value@ + json@.skip(end as int));
        return Ok(out);
    }
    let brace = match find_char(&v, '{', 0) {
        Some(b) => b,
        None => return Err(Error::SettingsInvalid(Invalid::NonObjectRoot)),
    };
    proof { crate::text::lemma_find_char_from(v@, '{', 0); }
    let first = skip_ws(&v, brace + 1);
    let separator: &str = if first == n || v[first] == '}' {
        ""
    } else {
        ","
    };
    proof {
        crate::text::lemma_trim_start(json@.skip(brace + 1), first - brace - 1);
    }
    let mut out = String::new();
    out.append(json.substring_char(0, brace + 1));
    out.append("\n    ");
    out.append(key);
    out.append(": \"");
    out.append(value);
    out.append("\"");
    out.append(separator);
    out.append(json.substring_char(brace + 1, n));
    proof {
        reveal_strlit("");
        reveal_strlit(",");
    }
    Ok(out)
}

/// The string value that `text` assigns to `window.menuBarVisibility`, read the way
/// `replace_menu_bar_visibility` finds it: at the first occurrence of the key.
pub open spec fn spec_stored_menu_bar_visibility(text: Seq<char>) -> Option<Seq<char>> {
    match find_str_from(text, visibility_key(), 0) {
        Some(key_at) => match spec_string_value_span(text, key_at + visibility_key().len()) {
            Some((start, end)) => Some(text.subrange(start, end)),
            None => None,
        },
        None => None,
    }
}

/// Two texts that agree on `[0, upto)` find the same first occurrence of the key there.
proof fn lemma_same_prefix_find_key(a: Seq<char>, b: Seq<char>, k: int, upto: int)
    requires
        find_str_from(a, visibility_key(), 0) == Some(k),
        k + visibility_key().len() <= upto <= a.len(),
        upto <= b.len(),
        forall|i: int| 0 <= i < upto ==> a[i] == b[i],
    ensures
        find_str_from(b, visibility_key(), 0) == Some(k),
{
    let key = visibility_key();
    crate::text::lemma_find_str_from(a, key, 0);
    assert(b.subrange(k, k + key.len()) =~= a.subrange(k, k + key.len()));
    assert forall|j: int| 0 <= j < k implies !matches_at(b, key, j) by {
        assert(!matches_at(a, key, j));
        assert(b.subrange(j, j + key.len()) =~= a.subrange(j, j + key.len()));
    }
    crate::text::lemma_find_str_first(b, key, 0, k);
}

/// After the value of an existing key was replaced: reading back gives the value, and
/// replacing again is replacing in the original text.
proof fn lemma_after_replace(json: Seq<char>, value: Seq<char>, other: Seq<char>, k: int)
    requires
        is_string_body(value),
        find_str_from(json, visibility_key(), 0) == Some(k),
        spec_string_value_span(json, k + visibility_key().len()) is Some,
    ensures
        spec_stored_menu_bar_visibility(spec_replace_menu_bar_visibility(json, value)->Ok_0)
            == Some(value),
        spec_replace_menu_bar_visibility(spec_replace_menu_bar_visibility(json, value)->Ok_0, other)
            == spec_replace_menu_bar_visibility(json, other),
{
    let key = visibility_key();
    crate::text::lemma_find_str_from(json, key, 0);
    let from = k + key.len();
    let (c, o, e) = choose|c: int, o: int, e: int| is_string_value_at(json, from, c, o, e);
    let start = o + 1;
    let out = json.take(start) + value + json.skip(e);
    assert(spec_replace_menu_bar_visibility(json, value)->Ok_0 == out);
    assert forall|i: int| 0 <= i < start implies json[i] == out[i] by {}
    lemma_same_prefix_find_key(json, out, k, start);
    assert(out.subrange(from, c) =~= json.subrange(from, c));
    assert(out.subrange(c + 1, o) =~= json.subrange(c + 1, o));
    let close = start + value.len();
    assert(out.subrange(start, close) =~= value);
    assert(out[close] == json[e]);
    assert(out[c] == json[c]);
    assert(out[o] == json[o]);
    lemma_string_value_span_is(out, from, c, o, close);
    assert(out.take(start) =~= json.take(start));
    assert(out.skip(close) =~= json.skip(e));
}

/// The key starts with a double quote and holds no `{`.
proof fn lemma_key_chars()
    ensures
        visibility_key().len() == 26,
        visibility_key()[0] == '"',
        forall|i: int| 0 <= i < 26 ==> #[trigger] visibility_key()[i] != '{',
{
    reveal_strlit("\"window.menuBarVisibility\"");
}

/// After the key was inserted as the first member: reading back gives the value, and
/// replacing again is replacing in the original text.
#[verifier::rlimit(60)]
proof fn lemma_after_insert(json: Seq<char>, value: Seq<char>, other: Seq<char>, b: int)
    requires
        is_string_body(value),
        find_str_from(json, visibility_key(), 0) is None,
        find_char_from(json, '{', 0) == Some(b),
    ensures
        spec_stored_menu_bar_visibility(spec_replace_menu_bar_visibility(json, value)->Ok_0)
            == Some(value),
        spec_replace_menu_bar_visibility(spec_replace_menu_bar_visibility(json, value)->Ok_0, other)
            == spec_replace_menu_bar_visibility(json, other),
{
    reveal_strlit("\n    ");
    reveal_strlit(": \"");
    reveal_strlit("\"");
    lemma_key_chars();
    let key = visibility_key();
    crate::text::lemma_find_str_from(json, key, 0);
    crate::text::lemma_find_char_from(json, '{', 0);
    let rest = json.skip(b + 1);
    let sep = member_separator(rest);
    let pre = json.take(b + 1);
    let mid = "\n    "@ + key + ": \""@ + value + "\""@;
    let out = pre + mid + sep + rest;
    assert(spec_replace_menu_bar_visibility(json, value)->Ok_0 == out);
    let k = b + 1 + 5;
    let kl: int = 26;
    assert(mid.len() == 5 + kl + 3 + value.len() + 1);
    assert forall|i: int| 0 <= i < mid.len() implies out[b + 1 + i] == #[trigger] mid[i] by {}
    assert(out[b] == '{');
    assert forall|i: int| 0 <= i < kl implies mid[5 + i] == #[trigger] key[i] by {}
    assert(matches_at(out, key, k)) by {
        assert forall|i: int| 0 <= i < kl implies #[trigger] out.subrange(k, k + kl)[i] == key[i] by {
            assert(out[k + i] == mid[5 + i]);
        }
        assert(out.subrange(k, k + kl) =~= key);
    }
    assert forall|j: int| 0 <= j < k implies !matches_at(out, key, j) by {
        if j + kl <= b + 1 {
            assert(!matches_at(json, key, j));
            assert(out.subrange(j, j + kl) =~= json.subrange(j, j + kl));
        } else if j <= b {
            if matches_at(out, key, j) {
                assert(out.subrange(j, j + kl)[b - j] == key[b - j]);
            }
        } else {
            if matches_at(out, key, j) {
                assert(out.subrange(j, j + kl)[0] == key[0]);
                assert(out[j] == mid[j - b - 1]);
            }
        }
    }
    crate::text::lemma_find_str_first(out, key, 0, k);
    let from = k + kl;
    assert(out[from] == mid[5 + kl]);
    assert(out[from + 1] == mid[5 + kl + 1]);
    assert(out[from + 2] == mid[5 + kl + 2]);
    let close = from + 3 + value.len();
    assert(out[close] == mid[5 + kl + 3 + value.len()]);
    assert(out.subrange(from, from) =~= Seq::<char>::empty());
    assert(out.subrange(from + 1, from + 2) =~= seq![' ']);
    assert(out.subrange(from + 3, close) =~= value) by {
        assert forall|i: int| 0 <= i < value.len() implies #[trigger] out.subrange(from + 3, close)[i] == value[i] by {
            assert(out[from + 3 + i] == mid[5 + kl + 3 + i]);
        }
    }
    lemma_string_value_span_is(out, from, from, from + 2, close);
    let head = "\n    "@ + key + ": \""@;
    let tail = "\""@ + sep + rest;
    assert(out =~= pre + head + value + tail);
    assert(out.take(from + 3) =~= pre + head);
    assert(out.skip(close) =~= tail);
    assert(pre + head + other + tail =~= pre + "\n    "@ + key + ": \""@ + other + "\""@ + sep + rest);
}

/// Reading back, and replacing again, after a successful replacement.
proof fn lemma_after_replacement(json: Seq<char>, value: Seq<char>, other: Seq<char>)
    requires
        is_string_body(value),
        spec_replace_menu_bar_visibility(json, value) is Ok,
    ensures
        spec_stored_menu_bar_visibility(spec_replace_menu_bar_visibility(json, value)->Ok_0)
            == Some(value),
        spec_replace_menu_bar_visibility(spec_replace_menu_bar_visibility(json, value)->Ok_0, other)
            == spec_replace_menu_bar_visibility(json, other),
{
    match find_str_from(json, visibility_key(), 0) {
        Some(k) => lemma_after_replace(json, value, other, k),
        None => lemma_after_insert(json, value, other, find_char_from(json, '{', 0)->Some_0),
    }
}

/// Law: after `replace_menu_bar_visibility(json, value)` succeeds, reading the key back
/// from its result gives `value`, for every value that is a well-formed JSON string body
/// (as every `MenuBarVisibility::as_str` is).
pub proof fn lemma_replace_then_read(json: Seq<char>, value: Seq<char>)
    requires
        is_string_body(value),
        spec_replace_menu_bar_visibility(json, value) is Ok,
    ensures
        spec_stored_menu_bar_visibility(spec_replace_menu_bar_visibility(json, value)->Ok_0)
            == Some(value),
{
    lemma_after_replacement(json, value, value);
}

/// Law: a later store overwrites an earlier one as if the earlier one had never
/// happened: replacing `first` and then `second` gives what replacing `second` alone
/// gives, for a `first` that is a well-formed JSON string body.
pub proof fn lemma_replace_overwrite(json: Seq<char>, first: Seq<char>, second: Seq<char>)
    requires
        is_string_body(first),
        spec_replace_menu_bar_visibility(json, first) is Ok,
    ensures
        spec_replace_menu_bar_visibility(spec_replace_menu_bar_visibility(json, first)->Ok_0, second)
            == spec_replace_menu_bar_visibility(json, second),
{
    lemma_after_replacement(json, first, second);
}

/// Law: every `window.menuBarVisibility` value that the editor writes names its variant
/// when read back, and holds neither a double quote nor a backslash.
pub proof fn lemma_visibility_setting_roundtrip(v: MenuBarVisibility)
    ensures
        MenuBarVisibility::spec_from_setting(v.spec_as_str()) == Some(v),
        forall|i: int| 0 <= i < v.spec_as_str().len() ==> v.spec_as_str()[i] != '"' && v.spec_as_str()[i] != '\\',
        is_string_body(v.spec_as_str()),
{
    assert(MenuBarVisibility::Classic.spec_as_str() != MenuBarVisibility::Toggle.spec_as_str());
    assert(MenuBarVisibility::Classic.spec_as_str() != MenuBarVisibility::Hidden.spec_as_str());
    assert(MenuBarVisibility::Toggle.spec_as_str()[0] != MenuBarVisibility::Hidden.spec_as_str()[0]);
    crate::text::lemma_plain_string_body(v.spec_as_str());
}

/// Law: replacing the value with the one it already holds changes nothing, so storing
/// the same visibility twice leaves settings.json as storing it once.
pub proof fn lemma_replace_idempotent(json: Seq<char>, value: Seq<char>)
    requires
        is_string_body(value),
        spec_replace_menu_bar_visibility(json, value) is Ok,
    ensures
        spec_replace_menu_bar_visibility(spec_replace_menu_bar_visibility(json, value)->Ok_0, value)
            == spec_replace_menu_bar_visibility(json, value),
{
    lemma_after_replacement(json, value, value);
}

/// Law: a visibility stored into any settings.json text that can take it is what
/// reading that text gives back, so showing or hiding the menubar survives the session.
pub proof fn lemma_stored_visibility_survives(existing: Seq<char>, v: MenuBarVisibility)
    requires
        spec_replace_menu_bar_visibility(existing, v.spec_as_str()) is Ok,
    ensures
        spec_stored_menu_bar_visibility(
            spec_replace_menu_bar_visibility(existing, v.spec_as_str())->Ok_0,
        ) matches Some(text) && MenuBarVisibility::spec_from_setting(text) == Some(v),
{
    lemma_visibility_setting_roundtrip(v);
    lemma_replace_then_read(existing, v.spec_as_str());
}

/// Law: once settings were loaded from a settings.json path, reloading forgets them:
/// what a reload gives depends only on the path, the file and the languages.
pub proof fn lemma_reload_forgets_earlier_load(
    prev1: SettingsView,
    prev2: SettingsView,
    path: Option<String>,
    file: SettingsFile,
    languages: Seq<String>,
)
    requires
        prev1.path.len() != 0,
        prev2.path.len() != 0,
    ensures
        spec_reload(prev1, path, file, languages) == spec_reload(prev2, path, file, languages),
{
}

/// Law: reloading the same settings.json twice gives the same settings as loading it
/// once into fresh settings.
pub proof fn lemma_reload_twice(prev: SettingsView, path: String, file: SettingsFile, languages: Seq<String>)
    requires
        path@.len() != 0,
    ensures
        spec_reload(spec_reload(prev, Some(path), file, languages), Some(path), file, languages)
            == spec_reload(default_settings(), Some(path), file, languages),
{
    let once = spec_reload(prev, Some(path), file, languages);
    assert(once.path == path@);
}

/// Law: when settings.json is an object whose `files.associations` (if any) are all
/// acceptable, its `window.menuBarVisibility` decides the visibility: a known value
/// sets it, any other string is refused and leaves it as it was, and a missing (or
/// non-string) member leaves it as it was. The associations and the path are kept
/// either way.
pub proof fn lemma_load_visibility(
    s: SettingsView,
    members: Vec<(String, JsonValue)>,
    languages: Seq<String>,
)
    requires
        spec_get_object(members@, "files.associations"@) matches Some(entries) ==> spec_associations(
            entries,
            languages,
        ).1 is None,
    ensures
        ({
            let (s1, res) = spec_apply_json(s, JsonValue::Object(members), languages);
            &&& s1.path == s.path
            &&& s1.file_associations == s.file_associations + match spec_get_object(
                members@,
                "files.associations"@,
            ) {
                Some(entries) => spec_associations(entries, languages).0,
                None => Seq::empty(),
            }
            &&& match spec_get_str(members@, "window.menuBarVisibility"@) {
                Some(text) => match MenuBarVisibility::spec_from_setting(text) {
                    Some(v) => res is Ok && s1.menu_bar_visibility == v,
                    None => res == Err::<(), Invalid>(Invalid::MenuBarVisibility)
                        && s1.menu_bar_visibility == s.menu_bar_visibility,
                },
                None => res is Ok && s1.menu_bar_visibility == s.menu_bar_visibility,
            }
        }),
{
}

/// Law: a stored visibility survives a reload, and the store changes nothing else.
/// Settings were loaded from `path` and its document `old_members`; then `v` was
/// stored, which writes settings.json (the text `existing` with `v` stored into it).
/// When the document read back from that text has as its `window.menuBarVisibility`
/// member the value that the written text holds for that key, and the same
/// `files.associations` as before, reloading gives `v`, the same path and the same
/// associations as the earlier load.
pub proof fn lemma_store_then_reload(
    before: SettingsView,
    old_members: Vec<(String, JsonValue)>,
    existing: Seq<char>,
    v: MenuBarVisibility,
    path: String,
    members: Vec<(String, JsonValue)>,
    languages: Seq<String>,
)
    requires
        spec_reload_start(before).file_associations.len() == 0,
        path@.len() != 0,
        spec_replace_menu_bar_visibility(existing, v.spec_as_str()) is Ok,
        spec_get_str(members@, "window.menuBarVisibility"@) == spec_stored_menu_bar_visibility(
            spec_replace_menu_bar_visibility(existing, v.spec_as_str())->Ok_0,
        ),
        spec_get_object(members@, "files.associations"@) == spec_get_object(
            old_members@,
            "files.associations"@,
        ),
        spec_get_object(members@, "files.associations"@) matches Some(entries) ==> spec_associations(
            entries,
            languages,
        ).1 is None,
    ensures
        ({
            let loaded = spec_reload(
                before,
                Some(path),
                SettingsFile::Parsed(JsonValue::Object(old_members)),
                languages,
            );
            let stored = SettingsView { menu_bar_visibility: v, ..loaded };
            let after = spec_reload(
                stored,
                Some(path),
                SettingsFile::Parsed(JsonValue::Object(members)),
                languages,
            );
            &&& after.menu_bar_visibility == v
            &&& after.path == path@
            &&& after.file_associations == loaded.file_associations
        }),
{
    lemma_stored_visibility_survives(existing, v);
    let start = spec_reload_start(before);
    lemma_load_visibility(with_path(start, path@), old_members, languages);
    lemma_load_visibility(with_path(default_settings(), path@), members, languages);
    let added = match spec_get_object(members@, "files.associations"@) {
        Some(entries) => spec_associations(entries, languages).0,
        None => Seq::empty(),
    };
    assert(start.file_associations + added =~= added);
    assert(default_settings().file_associations + added =~= added);
}

/// Law: a `window.menuBarVisibility` value names a variant only if it is exactly that
/// variant's name; names are case-sensitive and different variants have different names.
pub proof fn lemma_visibility_names(text: Seq<char>, v: MenuBarVisibility, w: MenuBarVisibility)
    ensures
        MenuBarVisibility::spec_from_setting(text) == Some(v) ==> text == v.spec_as_str(),
        v != w ==> v.spec_as_str() != w.spec_as_str(),
{
    lemma_visibility_setting_roundtrip(v);
    lemma_visibility_setting_roundtrip(w);
}

/// Law: the pattern that a `files.associations` key stands for ends with the key; a key
/// that names a path (holds a `/`) is taken as it is, and any other key gets a prefix of
/// three characters that holds a `/`, so that it matches the file name in any directory.
pub proof fn lemma_association_pattern(key: Seq<char>)
    ensures
        ({
            let p = association_pattern(key);
            &&& p.len() >= key.len()
            &&& p.skip(p.len() - key.len()) == key
            &&& key.contains('/') ==> p == key
            &&& !key.contains('/') ==> p.len() == key.len() + 3 && p.take(3).contains('/')
        }),
{
    reveal_strlit("**/");
    let p = association_pattern(key);
    assert(p.skip(p.len() - key.len()) =~= key);
    if !key.contains('/') {
        assert(p.take(3)[2] == '/');
    }
}

} // verus!
