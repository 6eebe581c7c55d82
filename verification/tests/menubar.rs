use msedit::buffer::TextBuffer;
use msedit::input::{InputKey, VK_F10};
use msedit::menubar::{
    about_dialog_labels, activate_menu_item, draw_dialog_about, Overflow, draw_menu_edit, draw_menu_file, draw_menu_help,
    draw_menu_view, draw_menubar, menubar_after_draw, prepare_settings_buffer, wants_reveal,
    DocumentAction, DocumentInfo, Menu, MenuItem, State, StateFilePicker, StateSearch,
    StateSearchKind,
};
use msedit::settings::{MenuBarVisibility, Settings, SettingsCell, SettingsFile};

fn state(v: MenuBarVisibility) -> State {
    State {
        menu_bar_visibility: v,
        menu_bar_revealed: false,
        wants_file_picker: StateFilePicker::NotWanted,
        wants_save: false,
        wants_close: false,
        wants_exit: false,
        wants_search: StateSearch { kind: StateSearchKind::Hidden, focus: false },
        wants_statusbar_focus: false,
        wants_go_to_file: false,
        wants_goto: false,
        wants_about: false,
    }
}

fn f10() -> Option<InputKey> {
    Some(InputKey::plain(VK_F10))
}

fn alt(c: char) -> Option<InputKey> {
    Some(InputKey::alt(InputKey::letter(c)))
}

#[test]
fn wants_reveal_keys() {
    assert!(wants_reveal(f10(), true));
    assert!(wants_reveal(f10(), false));
    for c in ['F', 'E', 'V', 'H'] {
        assert!(wants_reveal(alt(c), true));
        assert!(!wants_reveal(alt(c), false));
    }
    assert!(!wants_reveal(alt('X'), true));
    assert!(!wants_reveal(Some(InputKey::ctrl(InputKey::letter('F'))), true));
    assert!(!wants_reveal(None, true));
}

#[test]
fn every_menu_accelerator_reveals() {
    for m in [Menu::File, Menu::Edit, Menu::View, Menu::Help] {
        assert!(wants_reveal(alt(m.accelerator()), true));
    }
}

#[test]
fn classic_menubar_is_always_drawn() {
    let mut st = state(MenuBarVisibility::Classic);
    let pass = draw_menubar(&mut st, None, true, false, true);
    assert!(pass.draw);
    assert_eq!(pass.menus, vec![Menu::File, Menu::Edit, Menu::View, Menu::Help]);
    assert!(!st.menu_bar_revealed);
    let pass = draw_menubar(&mut st, None, true, false, false);
    assert_eq!(pass.menus, vec![Menu::File, Menu::Help]);
}

#[test]
fn hidden_menubar_is_never_drawn() {
    let mut st = state(MenuBarVisibility::Hidden);
    let pass = draw_menubar(&mut st, f10(), true, false, true);
    assert!(!pass.draw);
    assert!(pass.menus.is_empty());
    assert!(!st.menu_bar_revealed);
}

#[test]
fn toggle_menubar_is_revealed_and_collapses() {
    let mut st = state(MenuBarVisibility::Toggle);
    let pass = draw_menubar(&mut st, Some(InputKey::plain(0x41)), true, false, true);
    assert!(!pass.draw);
    let pass = draw_menubar(&mut st, f10(), true, false, true);
    assert!(pass.draw);
    assert!(pass.steal_focus);
    assert!(st.menu_bar_revealed);
    // Still focused: stays.
    assert!(!menubar_after_draw(&mut st, true));
    assert!(st.menu_bar_revealed);
    // Drawn without a key while revealed.
    let pass = draw_menubar(&mut st, None, true, true, true);
    assert!(pass.draw);
    assert!(!pass.steal_focus);
    // Focus lost: collapses and asks for a redraw.
    assert!(menubar_after_draw(&mut st, false));
    assert!(!st.menu_bar_revealed);
    let mut st = state(MenuBarVisibility::Toggle);
    let pass = draw_menubar(&mut st, alt('H'), true, false, false);
    assert!(pass.draw);
    assert!(!pass.steal_focus);
}

fn items(entries: Vec<msedit::menubar::MenuEntry>) -> Vec<MenuItem> {
    entries.into_iter().map(|e| e.item).collect()
}

#[test]
fn file_menu_entries() {
    let cell = SettingsCell::new();
    let settings = Settings::borrow(&cell);
    assert_eq!(
        items(draw_menu_file(None, settings)),
        vec![MenuItem::FileNew, MenuItem::FileOpen, MenuItem::FileExit]
    );
    let mut cell = SettingsCell::new();
    Settings::reload(&mut cell, Some("/p".to_string()), SettingsFile::NotFound, &vec![]).unwrap();
    assert_eq!(
        items(draw_menu_file(Some(DocumentInfo { word_wrap: false }), Settings::borrow(&cell))),
        vec![
            MenuItem::FileNew,
            MenuItem::FileOpen,
            MenuItem::FileSave,
            MenuItem::FileSaveAs,
            MenuItem::FilePreferences,
            MenuItem::FileClose,
            MenuItem::FileExit
        ]
    );
}

#[test]
fn edit_menu_entries() {
    let mut st = state(MenuBarVisibility::Classic);
    assert_eq!(draw_menu_edit(&st).len(), 8);
    st.wants_search.kind = StateSearchKind::Disabled;
    assert_eq!(
        items(draw_menu_edit(&st)),
        vec![
            MenuItem::EditUndo,
            MenuItem::EditRedo,
            MenuItem::EditCut,
            MenuItem::EditCopy,
            MenuItem::EditPaste,
            MenuItem::EditSelectAll
        ]
    );
}

#[test]
fn view_and_help_menu_entries() {
    let st = state(MenuBarVisibility::Toggle);
    let entries = draw_menu_view(&st, Some(DocumentInfo { word_wrap: true }));
    assert_eq!(entries.len(), 5);
    assert_eq!(entries[3].checked, Some(true));
    assert_eq!(entries[4].item, MenuItem::ViewMenuBar);
    assert_eq!(entries[4].checked, Some(false));
    let entries = draw_menu_view(&state(MenuBarVisibility::Classic), None);
    assert_eq!(entries.len(), 1);
    assert_eq!(entries[0].checked, Some(true));
    assert_eq!(items(draw_menu_help()), vec![MenuItem::HelpAbout]);
}

#[test]
fn entries_mnemonics_and_shortcuts() {
    assert_eq!(MenuItem::EditReplace.mnemonic(), 'L');
    assert_eq!(MenuItem::EditReplace.shortcut(), Some(InputKey::ctrl(InputKey::letter('R'))));
    assert_eq!(MenuItem::ViewWordWrap.shortcut(), Some(InputKey::alt(InputKey::letter('Z'))));
    assert_eq!(MenuItem::FileSaveAs.shortcut(), None);
}

#[test]
fn activating_entries() {
    let mut st = state(MenuBarVisibility::Classic);
    let doc = Some(DocumentInfo { word_wrap: false });
    let r = activate_menu_item(&mut st, doc, MenuItem::FileOpen);
    assert_eq!(st.wants_file_picker, StateFilePicker::Open);
    assert_eq!(r.action, DocumentAction::Nothing);
    let r = activate_menu_item(&mut st, doc, MenuItem::EditUndo);
    assert_eq!(r.action, DocumentAction::Undo);
    assert!(r.rerender);
    activate_menu_item(&mut st, doc, MenuItem::EditReplace);
    assert_eq!(st.wants_search, StateSearch { kind: StateSearchKind::Replace, focus: true });
    let r = activate_menu_item(&mut st, doc, MenuItem::ViewWordWrap);
    assert_eq!(r.action, DocumentAction::SetWordWrap(true));
    let r = activate_menu_item(&mut st, doc, MenuItem::FilePreferences);
    assert_eq!(r.action, DocumentAction::OpenSettings);
    activate_menu_item(&mut st, doc, MenuItem::HelpAbout);
    assert!(st.wants_about);
    draw_dialog_about(&mut st, false, false);
    assert!(st.wants_about);
    draw_dialog_about(&mut st, true, false);
    assert!(!st.wants_about);
}

#[test]
fn menubar_checkbox_toggles_between_classic_and_toggle() {
    let mut st = state(MenuBarVisibility::Classic);
    let r = activate_menu_item(&mut st, None, MenuItem::ViewMenuBar);
    assert!(r.rerender);
    assert_eq!(st.menu_bar_visibility, MenuBarVisibility::Toggle);
    // F10 still brings it back.
    let mut probe = st;
    assert!(draw_menubar(&mut probe, f10(), false, false, false).draw);
    activate_menu_item(&mut st, None, MenuItem::ViewMenuBar);
    assert_eq!(st, state(MenuBarVisibility::Classic));
    let mut st = state(MenuBarVisibility::Hidden);
    activate_menu_item(&mut st, None, MenuItem::ViewMenuBar);
    assert_eq!(st.menu_bar_visibility, MenuBarVisibility::Classic);
}

#[test]
fn settings_buffer_is_filled_only_when_empty() {
    let mut tb = TextBuffer::from_bytes(Vec::new(), true);
    prepare_settings_buffer(&mut tb);
    assert_eq!(tb.bytes(), &b"{\n}\n".to_vec());
    let mut tb = TextBuffer::from_bytes(b"{}".to_vec(), true);
    prepare_settings_buffer(&mut tb);
    assert_eq!(tb.bytes(), &b"{}".to_vec());
    assert!(tb.is_crlf());
}

#[test]
fn about_dialog_lines() {
    let labels = about_dialog_labels("Version ", "1.2.3");
    assert_eq!(labels.len(), 3);
    assert_eq!(labels[0].text, "Microsoft Edit");
    assert_eq!(labels[1].text, "Version 1.2.3");
    assert_eq!(labels[1].overflow, Overflow::TruncateHead);
    assert_eq!(labels[2].text, "Copyright (c) Microsoft Corporation");
    assert_eq!(labels[2].name, "copyright");
}
