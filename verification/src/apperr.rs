use vstd::prelude::*;

verus! {

/// What is wrong with the contents of `settings.json`.
#[derive(Clone, Copy, Debug, PartialEq, Eq, Structural)]
pub enum Invalid {
    /// The file is not valid JSON.
    Json,
    /// The JSON document is not an object.
    NonObjectRoot,
    /// `files.associations` maps a pattern to something other than a string.
    FileAssociations,
    /// `files.associations` names a language that the editor does not know.
    LanguageId,
    /// `window.menuBarVisibility` holds something other than a known value.
    MenuBarVisibility,
}

impl Invalid {
    /// The short description that the editor shows for this problem.
    pub fn as_str(self) -> (r: &'static str)
        ensures
            r@ == self.spec_as_str(),
    {
        match self {
            Invalid::Json => "Invalid JSON",
            Invalid::NonObjectRoot => "Non-object root",
            Invalid::FileAssociations => "files.associations",
            Invalid::LanguageId => "language ID",
            Invalid::MenuBarVisibility => "window.menuBarVisibility",
        }
    }

    pub open spec fn spec_as_str(self) -> Seq<char> {
        match self {
            Invalid::Json => "Invalid JSON"@,
            Invalid::NonObjectRoot => "Non-object root"@,
            Invalid::FileAssociations => "files.associations"@,
            Invalid::LanguageId => "language ID"@,
            Invalid::MenuBarVisibility => "window.menuBarVisibility"@,
        }
    }
}

/// The errors of settings handling.
#[derive(Debug)]
pub enum Error {
    /// Reading or writing a file failed; the text is the system's description.
    Io(String),
    /// `settings.json` was read but its contents are not acceptable.
    SettingsInvalid(Invalid),
}

} // verus!
