use vstd::prelude::*;

use crate::input::{InputKey, VK_F10};
use crate::buffer::{TextBuffer, TextBufferView};
use crate::settings::{MenuBarVisibility, Settings};

verus! {

/// The top level menus of the menubar.
#[derive(Clone, Copy, Debug, PartialEq, Eq, Structural)]
pub enum Menu {
    File,
    Edit,
    View,
    Help,
}

/// The entries of the menus.
#[derive(Clone, Copy, Debug, PartialEq, Eq, Structural)]
pub enum MenuItem {
    FileNew,
    FileOpen,
    FileSave,
    FileSaveAs,
    FilePreferences,
    FileClose,
    FileExit,
    EditUndo,
    EditRedo,
    EditCut,
    EditCopy,
    EditPaste,
    EditFind,
    EditReplace,
    EditSelectAll,
    ViewFocusStatusbar,
    ViewGoToFile,
    ViewGoToLine,
    ViewWordWrap,
    ViewMenuBar,
    HelpAbout,
}

/// One entry as a menu draws it: a button, or a checkbox with its state.
#[derive(Clone, Copy, Debug, PartialEq, Eq, Structural)]
pub struct MenuEntry {
    pub item: MenuItem,
    pub checked: Option<bool>,
}

/// Which file dialog the editor is asked to show.
#[derive(Clone, Copy, Debug, PartialEq, Eq, Structural)]
pub enum StateFilePicker {
    NotWanted,
    Open,
    SaveAs,
}

/// The state of the search bar.
#[derive(Clone, Copy, Debug, PartialEq, Eq, Structural)]
pub enum StateSearchKind {
    Hidden,
    Disabled,
    Search,
    Replace,
}

/// What the editor is asked to do with the search bar.
#[derive(Clone, Copy, Debug, PartialEq, Eq, Structural)]
pub struct StateSearch {
    pub kind: StateSearchKind,
    pub focus: bool,
}

/// The parts of the editor's state that the menubar reads and sets.
#[derive(Clone, Copy, Debug, PartialEq, Eq, Structural)]
pub struct State {
    pub menu_bar_visibility: MenuBarVisibility,
    /// A hidden menubar is shown for now, until it loses focus.
    pub menu_bar_revealed: bool,
    pub wants_file_picker: StateFilePicker,
    pub wants_save: bool,
    pub wants_close: bool,
    pub wants_exit: bool,
    pub wants_search: StateSearch,
    pub wants_statusbar_focus: bool,
    pub wants_go_to_file: bool,
    pub wants_goto: bool,
    pub wants_about: bool,
}

/// What the menus see of the active document.
#[derive(Clone, Copy, Debug, PartialEq, Eq, Structural)]
pub struct DocumentInfo {
    pub word_wrap: bool,
}

/// Work on the documents that an activated entry asks for.
#[derive(Clone, Copy, Debug, PartialEq, Eq, Structural)]
pub enum DocumentAction {
    Nothing,
    /// Open a new, untitled document.
    AddUntitled,
    /// Open settings.json; a new, empty one is filled by [`prepare_settings_buffer`].
    OpenSettings,
    Undo,
    Redo,
    Cut,
    Copy,
    Paste,
    SelectAll,
    SetWordWrap(bool),
}

/// What the editor is to do after an entry was activated.
#[derive(Clone, Copy, Debug, PartialEq, Eq, Structural)]
pub struct MenuOutcome {
    pub action: DocumentAction,
    /// The screen must be drawn again.
    pub rerender: bool,
}

/// What one pass of drawing the menubar is to do.
pub struct MenubarPass {
    /// Whether the menubar is drawn at all.
    pub draw: bool,
    /// The menus it holds, in order.
    pub menus: Vec<Menu>,
    /// Whether a pending F10 is taken to move the focus into the menubar.
    pub steal_focus: bool,
}

impl Menu {
    pub open spec fn spec_accelerator(self) -> char {
        match self {
            Menu::File => 'F',
            Menu::Edit => 'E',
            Menu::View => 'V',
            Menu::Help => 'H',
        }
    }

    /// The letter that opens the menu with Alt.
    #[verifier::when_used_as_spec(spec_accelerator)]
    pub fn accelerator(self) -> (c: char)
        ensures
            c == self.spec_accelerator(),
    {
        match self {
            Menu::File => 'F',
            Menu::Edit => 'E',
            Menu::View => 'V',
            Menu::Help => 'H',
        }
    }
}

impl MenuItem {
    pub open spec fn spec_mnemonic(self) -> char {
        match self {
            MenuItem::FileNew => 'N',
            MenuItem::FileOpen => 'O',
            MenuItem::FileSave => 'S',
            MenuItem::FileSaveAs => 'A',
            MenuItem::FilePreferences => 'P',
            MenuItem::FileClose => 'C',
            MenuItem::FileExit => 'X',
            MenuItem::EditUndo => 'U',
            MenuItem::EditRedo => 'R',
            MenuItem::EditCut => 'T',
            MenuItem::EditCopy => 'C',
            MenuItem::EditPaste => 'P',
            MenuItem::EditFind => 'F',
            MenuItem::EditReplace => 'L',
            MenuItem::EditSelectAll => 'A',
            MenuItem::ViewFocusStatusbar => 'S',
            MenuItem::ViewGoToFile => 'F',
            MenuItem::ViewGoToLine => 'G',
            MenuItem::ViewWordWrap => 'W',
            MenuItem::ViewMenuBar => 'M',
            MenuItem::HelpAbout => 'A',
        }
    }

    /// The underlined letter that activates the entry within its open menu.
    #[verifier::when_used_as_spec(spec_mnemonic)]
    pub fn mnemonic(self) -> (c: char)
        ensures
            c == self.spec_mnemonic(),
    {
        match self {
            MenuItem::FileNew => 'N',
            MenuItem::FileOpen => 'O',
            MenuItem::FileSave => 'S',
            MenuItem::FileSaveAs => 'A',
            MenuItem::FilePreferences => 'P',
            MenuItem::FileClose => 'C',
            MenuItem::FileExit => 'X',
            MenuItem::EditUndo => 'U',
            MenuItem::EditRedo => 'R',
            MenuItem::EditCut => 'T',
            MenuItem::EditCopy => 'C',
            MenuItem::EditPaste => 'P',
            MenuItem::EditFind => 'F',
            MenuItem::EditReplace => 'L',
            MenuItem::EditSelectAll => 'A',
            MenuItem::ViewFocusStatusbar => 'S',
            MenuItem::ViewGoToFile => 'F',
            MenuItem::ViewGoToLine => 'G',
            MenuItem::ViewWordWrap => 'W',
            MenuItem::ViewMenuBar => 'M',
            MenuItem::HelpAbout => 'A',
        }
    }

    pub open spec fn spec_shortcut(self) -> Option<InputKey> {
        match self {
            MenuItem::FileNew => Some(InputKey::spec_ctrl('N' as u32)),
            MenuItem::FileOpen => Some(InputKey::spec_ctrl('O' as u32)),
            MenuItem::FileSave => Some(InputKey::spec_ctrl('S' as u32)),
            MenuItem::FileClose => Some(InputKey::spec_ctrl('W' as u32)),
            MenuItem::FileExit => Some(InputKey::spec_ctrl('Q' as u32)),
            MenuItem::EditUndo => Some(InputKey::spec_ctrl('Z' as u32)),
            MenuItem::EditRedo => Some(InputKey::spec_ctrl('Y' as u32)),
            MenuItem::EditCut => Some(InputKey::spec_ctrl('X' as u32)),
            MenuItem::EditCopy => Some(InputKey::spec_ctrl('C' as u32)),
            MenuItem::EditPaste => Some(InputKey::spec_ctrl('V' as u32)),
            MenuItem::EditFind => Some(InputKey::spec_ctrl('F' as u32)),
            MenuItem::EditReplace => Some(InputKey::spec_ctrl('R' as u32)),
            MenuItem::EditSelectAll => Some(InputKey::spec_ctrl('A' as u32)),
            MenuItem::ViewGoToFile => Some(InputKey::spec_ctrl('P' as u32)),
            MenuItem::ViewGoToLine => Some(InputKey::spec_ctrl('G' as u32)),
            MenuItem::ViewWordWrap => Some(InputKey::spec_alt('Z' as u32)),
            _ => None,
        }
    }

    /// The key that activates the entry from anywhere, if it has one.
    #[verifier::when_used_as_spec(spec_shortcut)]
    pub fn shortcut(self) -> (k: Option<InputKey>)
        ensures
            k == self.spec_shortcut(),
    {
        match self {
            MenuItem::FileNew => Some(InputKey::ctrl(InputKey::letter('N'))),
            MenuItem::FileOpen => Some(InputKey::ctrl(InputKey::letter('O'))),
            MenuItem::FileSave => Some(InputKey::ctrl(InputKey::letter('S'))),
            MenuItem::FileClose => Some(InputKey::ctrl(InputKey::letter('W'))),
            MenuItem::FileExit => Some(InputKey::ctrl(InputKey::letter('Q'))),
            MenuItem::EditUndo => Some(InputKey::ctrl(InputKey::letter('Z'))),
            MenuItem::EditRedo => Some(InputKey::ctrl(InputKey::letter('Y'))),
            MenuItem::EditCut => Some(InputKey::ctrl(InputKey::letter('X'))),
            MenuItem::EditCopy => Some(InputKey::ctrl(InputKey::letter('C'))),
            MenuItem::EditPaste => Some(InputKey::ctrl(InputKey::letter('V'))),
            MenuItem::EditFind => Some(InputKey::ctrl(InputKey::letter('F'))),
            MenuItem::EditReplace => Some(InputKey::ctrl(InputKey::letter('R'))),
            MenuItem::EditSelectAll => Some(InputKey::ctrl(InputKey::letter('A'))),
            MenuItem::ViewGoToFile => Some(InputKey::ctrl(InputKey::letter('P'))),
            MenuItem::ViewGoToLine => Some(InputKey::ctrl(InputKey::letter('G'))),
            MenuItem::ViewWordWrap => Some(InputKey::alt(InputKey::letter('Z'))),
            _ => None,
        }
    }
}

/// The key codes of the top level menus' accelerators. Kept in sync with
/// [`Menu::accelerator`] by hand, so that [`wants_reveal`] knows which keys bring a
/// hidden menubar back.
pub open spec fn spec_menu_accelerators() -> Seq<u32> {
    seq!['F' as u32, 'E' as u32, 'V' as u32, 'H' as u32]
}

fn menu_accelerators() -> (r: [u32; 4])
    ensures
        r@ == spec_menu_accelerators(),
{
    let r = [
        InputKey::letter('F'),
        InputKey::letter('E'),
        InputKey::letter('V'),
        InputKey::letter('H'),
    ];
    assert(r@ =~= spec_menu_accelerators());
    r
}

/// Whether the pending key asks for a hidden menubar to be shown: F10, or Alt with
/// a menu's accelerator where Alt accelerators are in use.
pub open spec fn spec_wants_reveal(key: Option<InputKey>, alt_accelerators: bool) -> bool {
    match key {
        None => false,
        Some(k) => k == InputKey::spec_plain(VK_F10) || (alt_accelerators && exists|i: int|
            0 <= i < 4 && k == InputKey::spec_alt(#[trigger] spec_menu_accelerators()[i])),
    }
}

/// Returns true if the pending input asks for a hidden menubar to be shown.
/// Doesn't consume the input, so that the menubar we're about to draw
/// can act on it as usual. `alt_accelerators` is false where the platform has no
/// Alt accelerators (macOS).
pub fn wants_reveal(key: Option<InputKey>, alt_accelerators: bool) -> (r: bool)
    ensures
        r == spec_wants_reveal(key, alt_accelerators),
        r ==> (key matches Some(k) && (k == InputKey::spec_plain(VK_F10) || (alt_accelerators
            && k.alt && !k.ctrl && !k.shift))),
        key matches Some(k) && !k.alt && k != InputKey::spec_plain(VK_F10) ==> !r,
{
    proof {
        if let Some(k) = key {
            lemma_reveal_keys(k, alt_accelerators);
        }
    }
    let k = match key {
        Some(k) => k,
        None => return false,
    };
    if k == InputKey::plain(VK_F10) {
        return true;
    }
    if !alt_accelerators {
        return false;
    }
    let accelerators = menu_accelerators();
    let mut i: usize = 0;
    while i < 4
        invariant
            i <= 4,
            key == Some(k),
            alt_accelerators,
            k != InputKey::spec_plain(VK_F10),
            accelerators@ == spec_menu_accelerators(),
            forall|j: int| 0 <= j < i ==> k != InputKey::spec_alt(#[trigger] spec_menu_accelerators()[j]),
        decreases 4 - i,
    {
        if k == InputKey::alt(accelerators[i]) {
            assert(k == InputKey::spec_alt(spec_menu_accelerators()[i as int]));
            return true;
        }
        i = i + 1;
    }
    false
}

/// The menus of the menubar: Edit and View only while a document is open.
pub open spec fn spec_menubar_menus(has_document: bool) -> Seq<Menu> {
    if has_document {
        seq![Menu::File, Menu::Edit, Menu::View, Menu::Help]
    } else {
        seq![Menu::File, Menu::Help]
    }
}

/// Whether the menubar is drawn in this pass.
pub open spec fn spec_menubar_drawn(state: State, key: Option<InputKey>, alt_accelerators: bool) -> bool {
    ||| state.menu_bar_visibility == MenuBarVisibility::Classic
    ||| state.menu_bar_revealed
    ||| (state.menu_bar_visibility == MenuBarVisibility::Toggle && spec_wants_reveal(key, alt_accelerators))
}

/// Decides one pass of the menubar, before it is drawn. A hidden menubar isn't part
/// of the tree, so it can't consume its own accelerators: the pending key is peeked at
/// instead, and the menubar unhides within the very same pass, because settling passes
/// are given no input and the key would be lost. `contains_focus` tells whether the
/// menubar holds the focus as the pass begins.
pub fn draw_menubar(
    state: &mut State,
    key: Option<InputKey>,
    alt_accelerators: bool,
    contains_focus: bool,
    has_document: bool,
) -> (pass: MenubarPass)
    ensures
        pass.draw == spec_menubar_drawn(*old(state), key, alt_accelerators),
        *final(state) == (State {
            menu_bar_revealed: old(state).menu_bar_revealed || (old(state).menu_bar_visibility
                == MenuBarVisibility::Toggle && spec_wants_reveal(key, alt_accelerators)),
            ..*old(state)
        }),
        pass.draw ==> pass.menus@ == spec_menubar_menus(has_document),
        !pass.draw ==> pass.menus@.len() == 0,
        pass.steal_focus == (pass.draw && !contains_focus && key == Some(
            InputKey::spec_plain(VK_F10),
        )),
{
    if state.menu_bar_visibility != MenuBarVisibility::Classic && !state.menu_bar_revealed {
        if state.menu_bar_visibility != MenuBarVisibility::Toggle || !wants_reveal(
            key,
            alt_accelerators,
        ) {
            return MenubarPass { draw: false, menus: Vec::new(), steal_focus: false };
        }
        state.menu_bar_revealed = true;
    }
    let mut menus: Vec<Menu> = Vec::new();
    menus.push(Menu::File);
    if has_document {
        menus.push(Menu::Edit);
        menus.push(Menu::View);
    }
    menus.push(Menu::Help);
    assert(menus@ =~= spec_menubar_menus(has_document));
    let steal_focus = !contains_focus && key == Some(InputKey::plain(VK_F10));
    MenubarPass { draw: true, menus, steal_focus }
}

/// Decides the end of a pass of the menubar: collapse again as soon as the menubar
/// loses focus. That covers Escape, activating an item, clicking into the editor,
/// opening a modal, etc. Returns whether the screen must be drawn again.
pub fn menubar_after_draw(state: &mut State, contains_focus: bool) -> (rerender: bool)
    ensures
        rerender == (old(state).menu_bar_revealed && !contains_focus),
        *final(state) == (State {
            menu_bar_revealed: old(state).menu_bar_revealed && contains_focus,
            ..*old(state)
        }),
{
    if state.menu_bar_revealed && !contains_focus {
        state.menu_bar_revealed = false;
        true
    } else {
        false
    }
}

pub open spec fn button(item: MenuItem) -> MenuEntry {
    MenuEntry { item: item, checked: None }
}

pub open spec fn checkbox(item: MenuItem, checked: bool) -> MenuEntry {
    MenuEntry { item: item, checked: Some(checked) }
}

/// The entries of the File menu.
pub open spec fn spec_file_menu(has_document: bool, has_settings_path: bool) -> Seq<MenuEntry> {
    seq![button(MenuItem::FileNew), button(MenuItem::FileOpen)] + (if has_document {
        seq![button(MenuItem::FileSave), button(MenuItem::FileSaveAs)]
    } else {
        Seq::empty()
    }) + (if has_settings_path {
        seq![button(MenuItem::FilePreferences)]
    } else {
        Seq::empty()
    }) + (if has_document {
        seq![button(MenuItem::FileClose)]
    } else {
        Seq::empty()
    }) + seq![button(MenuItem::FileExit)]
}

/// The entries of the File menu: saving and closing need a document, and the
/// preferences entry needs a settings.json path.
pub fn draw_menu_file(document: Option<DocumentInfo>, settings: &Settings) -> (entries: Vec<MenuEntry>)
    ensures
        entries@ == spec_file_menu(document is Some, settings@.path.len() != 0),
        menu_has(entries@, MenuItem::FilePreferences) <==> settings@.path.len() != 0,
        menu_has(entries@, MenuItem::FileSave) <==> document is Some,
        menu_has(entries@, MenuItem::FileClose) <==> document is Some,
{
    proof {
        lemma_file_menu_entries(document is Some, settings@.path.len() != 0);
    }
    let mut entries: Vec<MenuEntry> = Vec::new();
    entries.push(MenuEntry { item: MenuItem::FileNew, checked: None });
    entries.push(MenuEntry { item: MenuItem::FileOpen, checked: None });
    if document.is_some() {
        entries.push(MenuEntry { item: MenuItem::FileSave, checked: None });
        entries.push(MenuEntry { item: MenuItem::FileSaveAs, checked: None });
    }
    let has_settings_path = settings.path.as_str().unicode_len() != 0;
    if has_settings_path {
        entries.push(MenuEntry { item: MenuItem::FilePreferences, checked: None });
    }
    if document.is_some() {
        entries.push(MenuEntry { item: MenuItem::FileClose, checked: None });
    }
    entries.push(MenuEntry { item: MenuItem::FileExit, checked: None });
    assert(entries@ =~= spec_file_menu(document is Some, settings@.path.len() != 0));
    entries
}

/// The entries of the Edit menu.
pub open spec fn spec_edit_menu(search: StateSearchKind) -> Seq<MenuEntry> {
    seq![
        button(MenuItem::EditUndo),
        button(MenuItem::EditRedo),
        button(MenuItem::EditCut),
        button(MenuItem::EditCopy),
        button(MenuItem::EditPaste),
    ] + (if search != StateSearchKind::Disabled {
        seq![button(MenuItem::EditFind), button(MenuItem::EditReplace)]
    } else {
        Seq::empty()
    }) + seq![button(MenuItem::EditSelectAll)]
}

/// The entries of the Edit menu: find and replace only while search is not disabled.
pub fn draw_menu_edit(state: &State) -> (entries: Vec<MenuEntry>)
    ensures
        entries@ == spec_edit_menu(state.wants_search.kind),
        menu_has(entries@, MenuItem::EditFind) <==> state.wants_search.kind != StateSearchKind::Disabled,
        menu_has(entries@, MenuItem::EditReplace) <==> state.wants_search.kind != StateSearchKind::Disabled,
{
    proof {
        lemma_edit_menu_entries(state.wants_search.kind);
    }
    let mut entries: Vec<MenuEntry> = Vec::new();
    entries.push(MenuEntry { item: MenuItem::EditUndo, checked: None });
    entries.push(MenuEntry { item: MenuItem::EditRedo, checked: None });
    entries.push(MenuEntry { item: MenuItem::EditCut, checked: None });
    entries.push(MenuEntry { item: MenuItem::EditCopy, checked: None });
    entries.push(MenuEntry { item: MenuItem::EditPaste, checked: None });
    if state.wants_search.kind != StateSearchKind::Disabled {
        entries.push(MenuEntry { item: MenuItem::EditFind, checked: None });
        entries.push(MenuEntry { item: MenuItem::EditReplace, checked: None });
    }
    entries.push(MenuEntry { item: MenuItem::EditSelectAll, checked: None });
    assert(entries@ =~= spec_edit_menu(state.wants_search.kind));
    entries
}

/// The entries of the View menu.
pub open spec fn spec_view_menu(document: Option<DocumentInfo>, visibility: MenuBarVisibility) -> Seq<MenuEntry> {
    (match document {
        Some(doc) => seq![
            button(MenuItem::ViewFocusStatusbar),
            button(MenuItem::ViewGoToFile),
            button(MenuItem::ViewGoToLine),
            checkbox(MenuItem::ViewWordWrap, doc.word_wrap),
        ],
        None => Seq::empty(),
    }) + seq![checkbox(MenuItem::ViewMenuBar, visibility == MenuBarVisibility::Classic)]
}

/// The entries of the View menu: the document's entries (all values on the statusbar
/// are currently document specific), then the menubar checkbox, checked while the
/// menubar is always shown.
pub fn draw_menu_view(state: &State, document: Option<DocumentInfo>) -> (entries: Vec<MenuEntry>)
    ensures
        entries@ == spec_view_menu(document, state.menu_bar_visibility),
        forall|i: int| 0 <= i < entries@.len() && (#[trigger] entries@[i]).item == MenuItem::ViewWordWrap
            ==> (document matches Some(doc) && entries@[i].checked == Some(doc.word_wrap)),
        document matches Some(doc) ==> entry_checked(entries@, MenuItem::ViewWordWrap, Some(doc.word_wrap)),
{
    proof {
        lemma_view_menu_entries(document, state.menu_bar_visibility);
    }
    let mut entries: Vec<MenuEntry> = Vec::new();
    if let Some(doc) = document {
        entries.push(MenuEntry { item: MenuItem::ViewFocusStatusbar, checked: None });
        entries.push(MenuEntry { item: MenuItem::ViewGoToFile, checked: None });
        entries.push(MenuEntry { item: MenuItem::ViewGoToLine, checked: None });
        entries.push(MenuEntry { item: MenuItem::ViewWordWrap, checked: Some(doc.word_wrap) });
    }
    let menu_bar = state.menu_bar_visibility == MenuBarVisibility::Classic;
    entries.push(MenuEntry { item: MenuItem::ViewMenuBar, checked: Some(menu_bar) });
    assert(entries@ =~= spec_view_menu(document, state.menu_bar_visibility));
    entries
}

/// The entries of the Help menu.
pub fn draw_menu_help() -> (entries: Vec<MenuEntry>)
    ensures
        entries@ == seq![button(MenuItem::HelpAbout)],
{
    let mut entries: Vec<MenuEntry> = Vec::new();
    entries.push(MenuEntry { item: MenuItem::HelpAbout, checked: None });
    assert(entries@ =~= seq![button(MenuItem::HelpAbout)]);
    entries
}

pub open spec fn outcome(action: DocumentAction, rerender: bool) -> MenuOutcome {
    MenuOutcome { action: action, rerender: rerender }
}

/// The menubar visibility after its checkbox in the View menu was activated.
/// Unchecking hides the menubar, but leaves Alt/F10 to bring it back: otherwise
/// there'd be no way to check it again.
pub open spec fn toggled_visibility(v: MenuBarVisibility) -> MenuBarVisibility {
    if v == MenuBarVisibility::Classic {
        MenuBarVisibility::Toggle
    } else {
        MenuBarVisibility::Classic
    }
}

/// The state and outcome after `item` was activated.
pub open spec fn spec_activate(state: State, document: Option<DocumentInfo>, item: MenuItem) -> (State, MenuOutcome) {
    let quiet = outcome(DocumentAction::Nothing, false);
    match item {
        MenuItem::FileNew => (state, outcome(DocumentAction::AddUntitled, false)),
        MenuItem::FileOpen => (State { wants_file_picker: StateFilePicker::Open, ..state }, quiet),
        MenuItem::FileSave => (State { wants_save: true, ..state }, quiet),
        MenuItem::FileSaveAs => (State { wants_file_picker: StateFilePicker::SaveAs, ..state }, quiet),
        MenuItem::FilePreferences => (state, outcome(DocumentAction::OpenSettings, false)),
        MenuItem::FileClose => (State { wants_close: true, ..state }, quiet),
        MenuItem::FileExit => (State { wants_exit: true, ..state }, quiet),
        MenuItem::EditUndo => (state, outcome(DocumentAction::Undo, true)),
        MenuItem::EditRedo => (state, outcome(DocumentAction::Redo, true)),
        MenuItem::EditCut => (state, outcome(DocumentAction::Cut, true)),
        MenuItem::EditCopy => (state, outcome(DocumentAction::Copy, true)),
        MenuItem::EditPaste => (state, outcome(DocumentAction::Paste, true)),
        MenuItem::EditFind => (
            State { wants_search: StateSearch { kind: StateSearchKind::Search, focus: true }, ..state },
            quiet,
        ),
        MenuItem::EditReplace => (
            State { wants_search: StateSearch { kind: StateSearchKind::Replace, focus: true }, ..state },
            quiet,
        ),
        MenuItem::EditSelectAll => (state, outcome(DocumentAction::SelectAll, true)),
        MenuItem::ViewFocusStatusbar => (State { wants_statusbar_focus: true, ..state }, quiet),
        MenuItem::ViewGoToFile => (State { wants_go_to_file: true, ..state }, quiet),
        MenuItem::ViewGoToLine => (State { wants_goto: true, ..state }, quiet),
        MenuItem::ViewWordWrap => match document {
            Some(doc) => (state, outcome(DocumentAction::SetWordWrap(!doc.word_wrap), true)),
            None => (state, quiet),
        },
        MenuItem::ViewMenuBar => (
            State { menu_bar_visibility: toggled_visibility(state.menu_bar_visibility), ..state },
            outcome(DocumentAction::Nothing, true),
        ),
        MenuItem::HelpAbout => (State { wants_about: true, ..state }, quiet),
    }
}

/// Carries out what an activated menu entry asks of the editor's state, and tells
/// what is left to do on the documents.
pub fn activate_menu_item(state: &mut State, document: Option<DocumentInfo>, item: MenuItem) -> (r: MenuOutcome)
    ensures
        (*final(state), r) == spec_activate(*old(state), document, item),
        r.action == DocumentAction::Copy <==> item == MenuItem::EditCopy,
        r.action == DocumentAction::Cut <==> item == MenuItem::EditCut,
{
    proof {
        lemma_document_actions(*state, document, item);
    }
    let quiet = MenuOutcome { action: DocumentAction::Nothing, rerender: false };
    match item {
        MenuItem::FileNew => MenuOutcome { action: DocumentAction::AddUntitled, rerender: false },
        MenuItem::FileOpen => {
            state.wants_file_picker = StateFilePicker::Open;
            quiet
        },
        MenuItem::FileSave => {
            state.wants_save = true;
            quiet
        },
        MenuItem::FileSaveAs => {
            state.wants_file_picker = StateFilePicker::SaveAs;
            quiet
        },
        MenuItem::FilePreferences => MenuOutcome { action: DocumentAction::OpenSettings, rerender: false },
        MenuItem::FileClose => {
            state.wants_close = true;
            quiet
        },
        MenuItem::FileExit => {
            state.wants_exit = true;
            quiet
        },
        MenuItem::EditUndo => MenuOutcome { action: DocumentAction::Undo, rerender: true },
        MenuItem::EditRedo => MenuOutcome { action: DocumentAction::Redo, rerender: true },
        MenuItem::EditCut => MenuOutcome { action: DocumentAction::Cut, rerender: true },
        MenuItem::EditCopy => MenuOutcome { action: DocumentAction::Copy, rerender: true },
        MenuItem::EditPaste => MenuOutcome { action: DocumentAction::Paste, rerender: true },
        MenuItem::EditFind => {
            state.wants_search.kind = StateSearchKind::Search;
            state.wants_search.focus = true;
            quiet
        },
        MenuItem::EditReplace => {
            state.wants_search.kind = StateSearchKind::Replace;
            state.wants_search.focus = true;
            quiet
        },
        MenuItem::EditSelectAll => MenuOutcome { action: DocumentAction::SelectAll, rerender: true },
        MenuItem::ViewFocusStatusbar => {
            state.wants_statusbar_focus = true;
            quiet
        },
        MenuItem::ViewGoToFile => {
            state.wants_go_to_file = true;
            quiet
        },
        MenuItem::ViewGoToLine => {
            state.wants_goto = true;
            quiet
        },
        MenuItem::ViewWordWrap => match document {
            Some(doc) => MenuOutcome { action: DocumentAction::SetWordWrap(!doc.word_wrap), rerender: true },
            None => quiet,
        },
        MenuItem::ViewMenuBar => {
            let menu_bar = state.menu_bar_visibility == MenuBarVisibility::Classic;
            state.menu_bar_visibility = if menu_bar {
                MenuBarVisibility::Toggle
            } else {
                MenuBarVisibility::Classic
            };
            MenuOutcome { action: DocumentAction::Nothing, rerender: true }
        },
        MenuItem::HelpAbout => {
            state.wants_about = true;
            quiet
        },
    }
}

/// Fills a settings.json buffer that was just opened from the File menu, if it is empty.
pub fn prepare_settings_buffer(tb: &mut TextBuffer)
    ensures
        old(tb)@.text.len() == 0 ==> final(tb)@ == (TextBufferView {
            text: Settings::bootstrap_bytes(),
            cursor: 0,
            crlf: false,
            dirty: false,
        }),
        old(tb)@.text.len() != 0 ==> final(tb)@ == old(tb)@,
{
    if tb.text_length() == 0 {
        Settings::bootstrap(tb);
        assert(old(tb)@.text.take(old(tb)@.cursor as int) + Settings::bootstrap_bytes()
            + old(tb)@.text.skip(old(tb)@.cursor as int) =~= Settings::bootstrap_bytes());
    }
}

/// How a label that does not fit its line is cut.
#[derive(Clone, Copy, Debug, PartialEq, Eq, Structural)]
pub enum Overflow {
    TruncateHead,
    TruncateTail,
}

/// One centered line of text in a dialog.
pub struct DialogLabel {
    pub name: &'static str,
    pub text: String,
    pub overflow: Overflow,
}

/// The lines of the About dialog, above its OK button: the product's name, its version
/// after the localized `version_label`, and the copyright.
pub fn about_dialog_labels(version_label: &str, version: &str) -> (labels: Vec<DialogLabel>)
    ensures
        labels@.len() == 3,
        labels@[0].name@ == "description"@,
        labels@[0].text@ == "Microsoft Edit"@,
        labels@[0].overflow == Overflow::TruncateTail,
        labels@[1].name@ == "version"@,
        labels@[1].text@ == version_label@ + version@,
        labels@[1].overflow == Overflow::TruncateHead,
        labels@[2].name@ == "copyright"@,
        labels@[2].text@ == "Copyright (c) Microsoft Corporation"@,
        labels@[2].overflow == Overflow::TruncateTail,
{
    let mut labels: Vec<DialogLabel> = Vec::new();
    labels.push(
        DialogLabel {
            name: "description",
            text: "Microsoft Edit".to_owned(),
            overflow: Overflow::TruncateTail,
        },
    );
    let mut text = version_label.to_owned();
    text.append(version);
    labels.push(DialogLabel { name: "version", text, overflow: Overflow::TruncateHead });
    labels.push(
        DialogLabel {
            name: "copyright",
            text: "Copyright (c) Microsoft Corporation".to_owned(),
            overflow: Overflow::TruncateTail,
        },
    );
    labels
}

/// Decides the About dialog's pass: the dialog goes away when its OK button was
/// pressed or the dialog was closed.
pub fn draw_dialog_about(state: &mut State, ok_pressed: bool, closed: bool)
    ensures
        *final(state) == (State {
            wants_about: old(state).wants_about && !ok_pressed && !closed,
            ..*old(state)
        }),
{
    if ok_pressed {
        state.wants_about = false;
    }
    if closed {
        state.wants_about = false;
    }
}

/// Law: the accelerators that bring a hidden menubar back are those of its menus, so
/// Alt with any menu's accelerator reveals it where Alt accelerators are in use, and F10
/// reveals it everywhere.
pub proof fn lemma_menu_accelerators_reveal(m: Menu, alt_accelerators: bool)
    ensures
        alt_accelerators ==> spec_wants_reveal(
            Some(InputKey::spec_alt(m.spec_accelerator() as u32)),
            alt_accelerators,
        ),
        spec_wants_reveal(Some(InputKey::spec_plain(VK_F10)), alt_accelerators),
{
    let k = InputKey::spec_alt(m.spec_accelerator() as u32);
    match m {
        Menu::File => assert(k == InputKey::spec_alt(spec_menu_accelerators()[0])),
        Menu::Edit => assert(k == InputKey::spec_alt(spec_menu_accelerators()[1])),
        Menu::View => assert(k == InputKey::spec_alt(spec_menu_accelerators()[2])),
        Menu::Help => assert(k == InputKey::spec_alt(spec_menu_accelerators()[3])),
    }
}

/// Law: the menubar checkbox never hides the menubar for good: unchecking it leaves the
/// menubar to F10, which still draws it, and checking it again gives the menubar back
/// for good.
pub proof fn lemma_menubar_checkbox(state: State, document: Option<DocumentInfo>, alt_accelerators: bool)
    ensures
        ({
            let after = spec_activate(state, document, MenuItem::ViewMenuBar).0;
            &&& after.menu_bar_visibility != MenuBarVisibility::Hidden
            &&& spec_menubar_drawn(after, Some(InputKey::spec_plain(VK_F10)), alt_accelerators)
            &&& state.menu_bar_visibility == MenuBarVisibility::Classic ==> spec_activate(
                after,
                document,
                MenuItem::ViewMenuBar,
            ).0 == state
        }),
{
}

/// Law: a menubar set to hidden is never drawn unless it was revealed before, whatever
/// key is pending; an always-visible menubar is drawn in every pass.
pub proof fn lemma_menubar_visibility_modes(state: State, key: Option<InputKey>, alt_accelerators: bool)
    ensures
        state.menu_bar_visibility == MenuBarVisibility::Hidden && !state.menu_bar_revealed
            ==> !spec_menubar_drawn(state, key, alt_accelerators),
        state.menu_bar_visibility == MenuBarVisibility::Classic ==> spec_menubar_drawn(
            state,
            key,
            alt_accelerators,
        ),
{
}

/// Whether the menu `entries` hold an entry for `item`.
pub open spec fn menu_has(entries: Seq<MenuEntry>, item: MenuItem) -> bool {
    exists|i: int| 0 <= i < entries.len() && #[trigger] entries[i].item == item
}

/// The checkbox state of the entry for `item`, if the menu has one.
pub open spec fn entry_checked(entries: Seq<MenuEntry>, item: MenuItem, checked: Option<bool>) -> bool {
    exists|i: int| 0 <= i < entries.len() && #[trigger] entries[i].item == item && entries[i].checked == checked
}

/// Law: each document action comes from exactly one entry. Copy comes only from
/// Edit > Copy and Cut only from Edit > Cut, and likewise for undo, redo, paste,
/// select-all, a new document and opening the settings. Word wrap is toggled only from
/// its View entry with a document open, and then set to the opposite of the document's
/// current state. The clipboard and undo entries change nothing in the editor's state
/// and ask for a redraw.
pub proof fn lemma_document_actions(state: State, document: Option<DocumentInfo>, item: MenuItem)
    ensures
        ({
            let (after, out) = spec_activate(state, document, item);
            &&& (out.action == DocumentAction::Copy <==> item == MenuItem::EditCopy)
            &&& (out.action == DocumentAction::Cut <==> item == MenuItem::EditCut)
            &&& (out.action == DocumentAction::Paste <==> item == MenuItem::EditPaste)
            &&& (out.action == DocumentAction::Undo <==> item == MenuItem::EditUndo)
            &&& (out.action == DocumentAction::Redo <==> item == MenuItem::EditRedo)
            &&& (out.action == DocumentAction::SelectAll <==> item == MenuItem::EditSelectAll)
            &&& (out.action == DocumentAction::AddUntitled <==> item == MenuItem::FileNew)
            &&& (out.action == DocumentAction::OpenSettings <==> item == MenuItem::FilePreferences)
            &&& (out.action is SetWordWrap <==> (item == MenuItem::ViewWordWrap && document is Some))
            &&& (out.action matches DocumentAction::SetWordWrap(wrap) ==> (document matches Some(doc)
                && wrap != doc.word_wrap))
            &&& (item == MenuItem::EditUndo || item == MenuItem::EditRedo || item == MenuItem::EditCut
                || item == MenuItem::EditCopy || item == MenuItem::EditPaste || item
                == MenuItem::EditSelectAll) ==> after == state && out.rerender
        }),
{
}

/// Law: only F10, or Alt (and no other modifier) with a menu accelerator where Alt
/// accelerators are in use, reveals a hidden menubar. A key without Alt other than F10,
/// such as a letter typed into the document, never does.
pub proof fn lemma_reveal_keys(key: InputKey, alt_accelerators: bool)
    ensures
        spec_wants_reveal(Some(key), alt_accelerators) ==> key == InputKey::spec_plain(VK_F10) || (
        alt_accelerators && key.alt && !key.ctrl && !key.shift && (key.code == 'F' as u32
            || key.code == 'E' as u32 || key.code == 'V' as u32 || key.code == 'H' as u32)),
        !key.alt && key != InputKey::spec_plain(VK_F10) ==> !spec_wants_reveal(
            Some(key),
            alt_accelerators,
        ),
        !spec_wants_reveal(None, alt_accelerators),
{
}

/// Law: while the menubar is set to toggle and not revealed, a key without Alt other
/// than F10 leaves it hidden: it is not drawn in that pass.
pub proof fn lemma_plain_key_keeps_menubar_hidden(state: State, key: InputKey, alt_accelerators: bool)
    requires
        state.menu_bar_visibility == MenuBarVisibility::Toggle,
        !state.menu_bar_revealed,
        !key.alt,
        key != InputKey::spec_plain(VK_F10),
    ensures
        !spec_menubar_drawn(state, Some(key), alt_accelerators),
{
    lemma_reveal_keys(key, alt_accelerators);
}

/// Law: the File menu holds Preferences exactly when there is a settings.json path,
/// whether or not a document is open; Save, Save As and Close exactly when a document is
/// open; New, Open and Exit always. It starts with New and ends with Exit.
pub proof fn lemma_file_menu_entries(has_document: bool, has_settings_path: bool)
    ensures
        ({
            let m = spec_file_menu(has_document, has_settings_path);
            &&& menu_has(m, MenuItem::FilePreferences) <==> has_settings_path
            &&& menu_has(m, MenuItem::FileSave) <==> has_document
            &&& menu_has(m, MenuItem::FileSaveAs) <==> has_document
            &&& menu_has(m, MenuItem::FileClose) <==> has_document
            &&& menu_has(m, MenuItem::FileNew)
            &&& menu_has(m, MenuItem::FileOpen)
            &&& menu_has(m, MenuItem::FileExit)
            &&& m[0].item == MenuItem::FileNew
            &&& m.last().item == MenuItem::FileExit
            &&& forall|i: int| 0 <= i < m.len() ==> (#[trigger] m[i]).checked is None
        }),
{
    let m = spec_file_menu(has_document, has_settings_path);
    let new = button(MenuItem::FileNew);
    let open = button(MenuItem::FileOpen);
    let save = button(MenuItem::FileSave);
    let save_as = button(MenuItem::FileSaveAs);
    let prefs = button(MenuItem::FilePreferences);
    let close = button(MenuItem::FileClose);
    let exit = button(MenuItem::FileExit);
    if has_document && has_settings_path {
        assert(m =~= seq![new, open, save, save_as, prefs, close, exit]);
        assert(m[4].item == MenuItem::FilePreferences);
        assert(m[2].item == MenuItem::FileSave);
        assert(m[3].item == MenuItem::FileSaveAs);
        assert(m[5].item == MenuItem::FileClose);
    } else if has_document {
        assert(m =~= seq![new, open, save, save_as, close, exit]);
        assert(m[2].item == MenuItem::FileSave);
        assert(m[3].item == MenuItem::FileSaveAs);
        assert(m[4].item == MenuItem::FileClose);
    } else if has_settings_path {
        assert(m =~= seq![new, open, prefs, exit]);
        assert(m[2].item == MenuItem::FilePreferences);
    } else {
        assert(m =~= seq![new, open, exit]);
    }
    assert(m[0].item == MenuItem::FileNew);
    assert(m[1].item == MenuItem::FileOpen);
    assert(m[m.len() - 1].item == MenuItem::FileExit);
}

/// Law: the Edit menu holds Find and Replace for every search state but Disabled (the
/// search bar hidden, searching or replacing), and the clipboard, undo and select-all
/// entries always.
pub proof fn lemma_edit_menu_entries(search: StateSearchKind)
    ensures
        ({
            let m = spec_edit_menu(search);
            &&& menu_has(m, MenuItem::EditFind) <==> search != StateSearchKind::Disabled
            &&& menu_has(m, MenuItem::EditReplace) <==> search != StateSearchKind::Disabled
            &&& menu_has(m, MenuItem::EditUndo)
            &&& menu_has(m, MenuItem::EditRedo)
            &&& menu_has(m, MenuItem::EditCut)
            &&& menu_has(m, MenuItem::EditCopy)
            &&& menu_has(m, MenuItem::EditPaste)
            &&& menu_has(m, MenuItem::EditSelectAll)
        }),
{
    let m = spec_edit_menu(search);
    let undo = button(MenuItem::EditUndo);
    let redo = button(MenuItem::EditRedo);
    let cut = button(MenuItem::EditCut);
    let copy = button(MenuItem::EditCopy);
    let paste = button(MenuItem::EditPaste);
    let find = button(MenuItem::EditFind);
    let replace = button(MenuItem::EditReplace);
    let all = button(MenuItem::EditSelectAll);
    if search != StateSearchKind::Disabled {
        assert(m =~= seq![undo, redo, cut, copy, paste, find, replace, all]);
        assert(m[5].item == MenuItem::EditFind);
        assert(m[6].item == MenuItem::EditReplace);
        assert(m[7].item == MenuItem::EditSelectAll);
    } else {
        assert(m =~= seq![undo, redo, cut, copy, paste, all]);
        assert(m[5].item == MenuItem::EditSelectAll);
    }
    assert(m[0].item == MenuItem::EditUndo);
    assert(m[1].item == MenuItem::EditRedo);
    assert(m[2].item == MenuItem::EditCut);
    assert(m[3].item == MenuItem::EditCopy);
    assert(m[4].item == MenuItem::EditPaste);
}

/// Law: the View menu's Word Wrap checkbox is there exactly when a document is open and
/// shows that document's word wrap, whatever the menubar visibility; the Menubar checkbox
/// is always there, last, and checked exactly while the menubar is always shown.
pub proof fn lemma_view_menu_entries(document: Option<DocumentInfo>, visibility: MenuBarVisibility)
    ensures
        ({
            let m = spec_view_menu(document, visibility);
            &&& menu_has(m, MenuItem::ViewWordWrap) <==> document is Some
            &&& forall|i: int| 0 <= i < m.len() && (#[trigger] m[i]).item == MenuItem::ViewWordWrap
                ==> (document matches Some(doc) && m[i].checked == Some(doc.word_wrap))
            &&& (document matches Some(doc) ==> entry_checked(m, MenuItem::ViewWordWrap, Some(doc.word_wrap)))
            &&& m.last().item == MenuItem::ViewMenuBar
            &&& m.last().checked == Some(visibility == MenuBarVisibility::Classic)
            &&& forall|i: int| 0 <= i < m.len() && (#[trigger] m[i]).item == MenuItem::ViewMenuBar
                ==> m[i].checked == Some(visibility == MenuBarVisibility::Classic)
        }),
{
    let m = spec_view_menu(document, visibility);
    let bar = checkbox(MenuItem::ViewMenuBar, visibility == MenuBarVisibility::Classic);
    match document {
        Some(doc) => {
            assert(m =~= seq![
                button(MenuItem::ViewFocusStatusbar),
                button(MenuItem::ViewGoToFile),
                button(MenuItem::ViewGoToLine),
                checkbox(MenuItem::ViewWordWrap, doc.word_wrap),
                bar,
            ]);
            assert(m[3].item == MenuItem::ViewWordWrap);
        },
        None => {
            assert(m =~= seq![bar]);
        },
    }
    assert(m[m.len() - 1] == bar);
}

/// Law: what activating an entry asks of the editor's state. Each request is raised by
/// its own entry and by no other (Open and Save As pick the file dialog, Find and Replace
/// open the search bar with the focus), the menubar checkbox switches between always
/// shown and toggled, nothing else changes, and a redraw is asked for exactly when the
/// document or the menubar changes.
pub proof fn lemma_state_requests(state: State, document: Option<DocumentInfo>, item: MenuItem)
    ensures
        ({
            let (after, out) = spec_activate(state, document, item);
            &&& after.wants_save == (state.wants_save || item == MenuItem::FileSave)
            &&& after.wants_close == (state.wants_close || item == MenuItem::FileClose)
            &&& after.wants_exit == (state.wants_exit || item == MenuItem::FileExit)
            &&& after.wants_about == (state.wants_about || item == MenuItem::HelpAbout)
            &&& after.wants_statusbar_focus == (state.wants_statusbar_focus || item
                == MenuItem::ViewFocusStatusbar)
            &&& after.wants_go_to_file == (state.wants_go_to_file || item == MenuItem::ViewGoToFile)
            &&& after.wants_goto == (state.wants_goto || item == MenuItem::ViewGoToLine)
            &&& (item == MenuItem::FileOpen ==> after.wants_file_picker == StateFilePicker::Open)
            &&& (item == MenuItem::FileSaveAs ==> after.wants_file_picker == StateFilePicker::SaveAs)
            &&& (item != MenuItem::FileOpen && item != MenuItem::FileSaveAs ==> after.wants_file_picker
                == state.wants_file_picker)
            &&& (item == MenuItem::EditFind ==> after.wants_search.kind == StateSearchKind::Search
                && after.wants_search.focus)
            &&& (item == MenuItem::EditReplace ==> after.wants_search.kind == StateSearchKind::Replace
                && after.wants_search.focus)
            &&& (item != MenuItem::EditFind && item != MenuItem::EditReplace ==> after.wants_search
                == state.wants_search)
            &&& (item == MenuItem::ViewMenuBar ==> (after.menu_bar_visibility
                == MenuBarVisibility::Classic <==> state.menu_bar_visibility
                != MenuBarVisibility::Classic) && after.menu_bar_visibility
                != MenuBarVisibility::Hidden)
            &&& (item != MenuItem::ViewMenuBar ==> after.menu_bar_visibility
                == state.menu_bar_visibility)
            &&& after.menu_bar_revealed == state.menu_bar_revealed
            &&& out.rerender == (item == MenuItem::EditUndo || item == MenuItem::EditRedo || item
                == MenuItem::EditCut || item == MenuItem::EditCopy || item == MenuItem::EditPaste
                || item == MenuItem::EditSelectAll || item == MenuItem::ViewMenuBar || (item
                == MenuItem::ViewWordWrap && document is Some))
        }),
{
}

/// Law: the menubar starts with File and ends with Help, and holds Edit and View exactly
/// while a document is open; each menu appears once.
pub proof fn lemma_menubar_menus(has_document: bool)
    ensures
        ({
            let m = spec_menubar_menus(has_document);
            &&& m[0] == Menu::File
            &&& m.last() == Menu::Help
            &&& m.contains(Menu::Edit) <==> has_document
            &&& m.contains(Menu::View) <==> has_document
            &&& forall|i: int, j: int| 0 <= i < j < m.len() ==> m[i] != m[j]
        }),
{
    let m = spec_menubar_menus(has_document);
    if has_document {
        assert(m[1] == Menu::Edit);
        assert(m[2] == Menu::View);
    } else {
        assert(!m.contains(Menu::Edit)) by {
            if m.contains(Menu::Edit) {
                let i = choose|i: int| 0 <= i < m.len() && m[i] == Menu::Edit;
            }
        }
        assert(!m.contains(Menu::View)) by {
            if m.contains(Menu::View) {
                let i = choose|i: int| 0 <= i < m.len() && m[i] == Menu::View;
            }
        }
    }
}

/// Law: no two entries share a shortcut key, so a shortcut always names one entry.
pub proof fn lemma_shortcuts_distinct(a: MenuItem, b: MenuItem)
    requires
        a != b,
        a.spec_shortcut() is Some,
    ensures
        a.spec_shortcut() != b.spec_shortcut(),
{
}

/// Law: within each menu, the entries have different mnemonics, so a letter in an open
/// menu names one entry.
pub proof fn lemma_mnemonics_distinct(
    has_document: bool,
    has_settings_path: bool,
    search: StateSearchKind,
    document: Option<DocumentInfo>,
    visibility: MenuBarVisibility,
)
    ensures
        ({
            let f = spec_file_menu(has_document, has_settings_path);
            forall|i: int, j: int|
                0 <= i < j < f.len() ==> (#[trigger] f[i]).item.spec_mnemonic() != (#[trigger] f[j]).item.spec_mnemonic()
        }),
        ({
            let e = spec_edit_menu(search);
            forall|i: int, j: int|
                0 <= i < j < e.len() ==> (#[trigger] e[i]).item.spec_mnemonic() != (#[trigger] e[j]).item.spec_mnemonic()
        }),
        ({
            let v = spec_view_menu(document, visibility);
            forall|i: int, j: int|
                0 <= i < j < v.len() ==> (#[trigger] v[i]).item.spec_mnemonic() != (#[trigger] v[j]).item.spec_mnemonic()
        }),
{
    lemma_file_menu_entries(has_document, has_settings_path);
    lemma_edit_menu_entries(search);
    lemma_view_menu_entries(document, visibility);
}

} // verus!
