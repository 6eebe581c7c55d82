use msedit::apperr::{Error, Invalid};
use msedit::buffer::TextBuffer;
use msedit::json::JsonValue;
use msedit::settings::{
    menu_bar_visibility_contents, replace_menu_bar_visibility, string_value_span,
    ExistingSettings, MenuBarVisibility, Settings, SettingsCell, SettingsFile,
};

#[test]
fn test_replace_menu_bar_visibility_inserts() {
    assert_eq!(
        replace_menu_bar_visibility("{\n}\n", "toggle").unwrap(),
        "{\n    \"window.menuBarVisibility\": \"toggle\"\n}\n"
    );
}

#[test]
fn test_replace_menu_bar_visibility_inserts_before_existing_keys() {
    assert_eq!(
        replace_menu_bar_visibility("{\n    \"files.associations\": {}\n}\n", "hidden").unwrap(),
        "{\n    \"window.menuBarVisibility\": \"hidden\",\n    \"files.associations\": {}\n}\n"
    );
}

#[test]
fn test_replace_menu_bar_visibility_replaces() {
    // Only the value changes: the odd spacing and the neighboring key stay put.
    assert_eq!(
        replace_menu_bar_visibility(
            "{\n  \"window.menuBarVisibility\" :  \"toggle\" ,\n  \"a\": 1\n}",
            "classic"
        )
        .unwrap(),
        "{\n  \"window.menuBarVisibility\" :  \"classic\" ,\n  \"a\": 1\n}"
    );
}

#[test]
fn test_replace_menu_bar_visibility_rejects_non_string() {
    assert!(replace_menu_bar_visibility("{\"window.menuBarVisibility\": 1}", "toggle").is_err());
    assert!(replace_menu_bar_visibility("", "toggle").is_err());
}

fn invalid(r: Result<String, Error>) -> Option<Invalid> {
    match r {
        Err(Error::SettingsInvalid(i)) => Some(i),
        _ => None,
    }
}

#[test]
fn replace_reports_which_problem() {
    assert_eq!(
        invalid(replace_menu_bar_visibility("{\"window.menuBarVisibility\": 1}", "toggle")),
        Some(Invalid::MenuBarVisibility)
    );
    assert_eq!(invalid(replace_menu_bar_visibility("[]", "toggle")), Some(Invalid::NonObjectRoot));
    assert_eq!(invalid(replace_menu_bar_visibility("", "toggle")), Some(Invalid::NonObjectRoot));
}

#[test]
fn replace_inserts_into_object_with_only_whitespace_and_no_newline() {
    assert_eq!(
        replace_menu_bar_visibility("{ }", "hidden").unwrap(),
        "{\n    \"window.menuBarVisibility\": \"hidden\" }"
    );
    assert_eq!(
        replace_menu_bar_visibility("{\"a\":1}", "hidden").unwrap(),
        "{\n    \"window.menuBarVisibility\": \"hidden\",\"a\":1}"
    );
}

#[test]
fn replace_keeps_non_ascii_text_around() {
    assert_eq!(
        replace_menu_bar_visibility("{\"ä\": \"ö\", \"window.menuBarVisibility\": \"hidden\"}", "toggle")
            .unwrap(),
        "{\"ä\": \"ö\", \"window.menuBarVisibility\": \"toggle\"}"
    );
}

#[test]
fn replace_with_same_value_changes_nothing() {
    let once = replace_menu_bar_visibility("{\n}\n", "classic").unwrap();
    let twice = replace_menu_bar_visibility(&once, "classic").unwrap();
    assert_eq!(once, twice);
}

#[test]
fn stored_value_reads_back() {
    for v in [MenuBarVisibility::Classic, MenuBarVisibility::Toggle, MenuBarVisibility::Hidden] {
        let out = replace_menu_bar_visibility("{\"ä\": {}}", v.as_str()).unwrap();
        let key = "\"window.menuBarVisibility\"";
        let at = out.find(key).unwrap();
        let span = string_value_span(&out, at + key.len()).unwrap();
        let text = out[span].to_string();
        assert_eq!(MenuBarVisibility::from_setting(&text), Some(v));
    }
}

#[test]
fn string_value_span_finds_the_quoted_value() {
    assert_eq!(string_value_span("k : \"abc\"", 1), Some(5..8));
    assert_eq!(string_value_span("k: \"\"", 1), Some(4..4));
    assert_eq!(string_value_span("k x: \"abc\"", 1), None);
    assert_eq!(string_value_span("k: 1", 1), None);
    assert_eq!(string_value_span("k: \"abc", 1), None);
    assert_eq!(string_value_span("k \"abc\"", 1), None);
    assert_eq!(string_value_span("k", 1), None);
}

#[test]
fn visibility_names() {
    assert_eq!(MenuBarVisibility::Classic.as_str(), "classic");
    assert_eq!(MenuBarVisibility::Toggle.as_str(), "toggle");
    assert_eq!(MenuBarVisibility::Hidden.as_str(), "hidden");
    assert_eq!(MenuBarVisibility::from_setting("toggle"), Some(MenuBarVisibility::Toggle));
    assert_eq!(MenuBarVisibility::from_setting("Toggle"), None);
    assert_eq!(MenuBarVisibility::default(), MenuBarVisibility::Classic);
    assert_eq!(Invalid::Json.as_str(), "Invalid JSON");
    assert_eq!(Invalid::LanguageId.as_str(), "language ID");
}

fn s(x: &str) -> String {
    x.to_string()
}

fn languages() -> Vec<String> {
    vec![s("rust"), s("json"), s("markdown")]
}

fn object(members: Vec<(&str, JsonValue)>) -> JsonValue {
    JsonValue::Object(members.into_iter().map(|(k, v)| (s(k), v)).collect())
}

#[test]
fn reload_reads_associations_and_visibility() {
    let mut cell = SettingsCell::new();
    let root = object(vec![
        (
            "files.associations",
            object(vec![
                ("*.rs", JsonValue::String(s("rust"))),
                ("dir/*.txt", JsonValue::String(s("markdown"))),
            ]),
        ),
        ("window.menuBarVisibility", JsonValue::String(s("hidden"))),
    ]);
    let r = Settings::reload(&mut cell, Some(s("/cfg/settings.json")), SettingsFile::Parsed(root), &languages());
    assert!(r.is_ok());
    let settings = Settings::borrow(&cell);
    assert_eq!(settings.path, "/cfg/settings.json");
    assert_eq!(settings.file_associations, vec![(s("**/*.rs"), 0), (s("dir/*.txt"), 2)]);
    assert_eq!(settings.menu_bar_visibility, MenuBarVisibility::Hidden);
}

#[test]
fn reload_forgets_an_earlier_load() {
    let mut cell = SettingsCell::new();
    let root = || {
        object(vec![("files.associations", object(vec![("*.md", JsonValue::String(s("markdown")))]))])
    };
    Settings::reload(&mut cell, Some(s("/p")), SettingsFile::Parsed(root()), &languages()).unwrap();
    Settings::reload(&mut cell, Some(s("/p")), SettingsFile::Parsed(root()), &languages()).unwrap();
    assert_eq!(cell.settings.file_associations, vec![(s("**/*.md"), 2)]);
}

fn reload_err(root: JsonValue) -> (Option<Invalid>, SettingsCell) {
    let mut cell = SettingsCell::new();
    let r = Settings::reload(&mut cell, Some(s("/p")), SettingsFile::Parsed(root), &languages());
    let e = match r {
        Err(Error::SettingsInvalid(i)) => Some(i),
        _ => None,
    };
    (e, cell)
}

#[test]
fn reload_errors() {
    let (e, _) = reload_err(JsonValue::Array(vec![]));
    assert_eq!(e, Some(Invalid::NonObjectRoot));
    let (e, cell) = reload_err(object(vec![(
        "files.associations",
        object(vec![
            ("a", JsonValue::String(s("json"))),
            ("b", JsonValue::Bool(true)),
            ("c", JsonValue::String(s("rust"))),
        ]),
    )]));
    assert_eq!(e, Some(Invalid::FileAssociations));
    // What came before the bad member stays.
    assert_eq!(cell.settings.file_associations, vec![(s("**/a"), 1)]);
    let (e, _) = reload_err(object(vec![(
        "files.associations",
        object(vec![("a", JsonValue::String(s("cobol")))]),
    )]));
    assert_eq!(e, Some(Invalid::LanguageId));
    let (e, cell) = reload_err(object(vec![("window.menuBarVisibility", JsonValue::String(s("never")))]));
    assert_eq!(e, Some(Invalid::MenuBarVisibility));
    assert_eq!(cell.settings.menu_bar_visibility, MenuBarVisibility::Classic);
    // A non-string visibility is not looked at.
    let (e, _) = reload_err(object(vec![("window.menuBarVisibility", JsonValue::Number(s("1")))]));
    assert_eq!(e, None);
}

#[test]
fn reload_file_outcomes() {
    let mut cell = SettingsCell::new();
    assert!(Settings::reload(&mut cell, None, SettingsFile::NotFound, &languages()).is_ok());
    assert_eq!(cell.settings.path, "");
    assert!(Settings::reload(&mut cell, Some(s("/p")), SettingsFile::NotFound, &languages()).is_ok());
    assert_eq!(cell.settings.path, "/p");
    match Settings::reload(&mut cell, Some(s("/p")), SettingsFile::Failed(s("denied")), &languages()) {
        Err(Error::Io(m)) => assert_eq!(m, "denied"),
        _ => panic!("expected an I/O error"),
    }
    match Settings::reload(&mut cell, Some(s("/p")), SettingsFile::Malformed, &languages()) {
        Err(Error::SettingsInvalid(Invalid::Json)) => {}
        _ => panic!("expected invalid JSON"),
    }
}

#[test]
fn store_menu_bar_visibility_records_and_says_whether_to_write() {
    let mut cell = SettingsCell::new();
    assert!(!Settings::store_menu_bar_visibility(&mut cell, MenuBarVisibility::Toggle));
    assert_eq!(cell.settings.menu_bar_visibility, MenuBarVisibility::Toggle);
    Settings::reload(&mut cell, Some(s("/p")), SettingsFile::NotFound, &languages()).unwrap();
    assert!(Settings::store_menu_bar_visibility(&mut cell, MenuBarVisibility::Hidden));
    assert_eq!(cell.settings.menu_bar_visibility, MenuBarVisibility::Hidden);
}

#[test]
fn contents_to_store() {
    assert_eq!(
        menu_bar_visibility_contents(ExistingSettings::NotFound, MenuBarVisibility::Toggle).unwrap(),
        "{\n    \"window.menuBarVisibility\": \"toggle\"\n}\n"
    );
    assert_eq!(
        menu_bar_visibility_contents(
            ExistingSettings::Contents(s("{\"window.menuBarVisibility\": \"toggle\"}")),
            MenuBarVisibility::Classic
        )
        .unwrap(),
        "{\"window.menuBarVisibility\": \"classic\"}"
    );
    assert!(matches!(
        menu_bar_visibility_contents(ExistingSettings::Failed(s("busy")), MenuBarVisibility::Classic),
        Err(Error::Io(_))
    ));
}

#[test]
fn bootstrap_fills_a_buffer() {
    let mut tb = TextBuffer::from_bytes(Vec::new(), true);
    Settings::bootstrap(&mut tb);
    assert_eq!(tb.bytes(), &b"{\n}\n".to_vec());
    assert!(!tb.is_crlf());
    assert!(!tb.is_dirty());
    let mut tb = TextBuffer::from_bytes(b"ab".to_vec(), false);
    Settings::bootstrap(&mut tb);
    assert_eq!(tb.bytes(), &b"{\n}\nab".to_vec());
}

#[test]
fn string_value_span_keeps_escapes_inside_the_value() {
    assert_eq!(string_value_span(": \"a\\\"b\"", 0), Some(3..7));
    assert_eq!(string_value_span(": \"a\\\\\"b\"", 0), Some(3..6));
    assert_eq!(string_value_span(": \"ab\\", 0), None);
    assert_eq!(string_value_span(": \"ab\\\"", 0), None);
}

#[test]
fn replace_overwrites_a_value_with_escaped_quotes() {
    assert_eq!(
        replace_menu_bar_visibility("{\"window.menuBarVisibility\": \"x\\\"y\"}", "classic").unwrap(),
        "{\"window.menuBarVisibility\": \"classic\"}"
    );
    assert_eq!(
        invalid(replace_menu_bar_visibility("{\"window.menuBarVisibility\": \"x\\\"}", "classic")),
        Some(Invalid::MenuBarVisibility)
    );
}

#[test]
fn string_value_span_counts_bytes() {
    // "ä" takes two bytes, so the colon starts at byte 2 and the value at byte 5.
    assert_eq!(string_value_span("ä: \"x\"", 2), Some(5..6));
    assert_eq!(string_value_span("k: \"ö\"", 1), Some(4..6));
}

#[test]
fn later_store_overwrites_earlier_one() {
    let first = replace_menu_bar_visibility("{\n    \"a\": 1\n}\n", "a\\b").unwrap();
    assert_eq!(
        replace_menu_bar_visibility(&first, "hidden").unwrap(),
        replace_menu_bar_visibility("{\n    \"a\": 1\n}\n", "hidden").unwrap()
    );
}
