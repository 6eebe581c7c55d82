use vstd::prelude::*;

verus! {

/// A key press: a virtual key code and the modifiers held with it.
///
/// Key codes follow the Windows virtual-key numbering: letters are their upper-case
/// ASCII codes and F10 is 0x79.
#[derive(Clone, Copy, Debug, PartialEq, Eq, Structural)]
pub struct InputKey {
    pub code: u32,
    pub ctrl: bool,
    pub alt: bool,
    pub shift: bool,
}

/// The F10 key.
pub const VK_F10: u32 = 0x79;

impl InputKey {
    /// The key with no modifier.
    pub open spec fn spec_plain(code: u32) -> InputKey {
        InputKey { code: code, ctrl: false, alt: false, shift: false }
    }

    /// The key with Ctrl held.
    pub open spec fn spec_ctrl(code: u32) -> InputKey {
        InputKey { code: code, ctrl: true, alt: false, shift: false }
    }

    /// The key with Alt held.
    pub open spec fn spec_alt(code: u32) -> InputKey {
        InputKey { code: code, ctrl: false, alt: true, shift: false }
    }

    /// The key with no modifier.
    #[verifier::when_used_as_spec(spec_plain)]
    pub fn plain(code: u32) -> (k: InputKey)
        ensures
            k == InputKey::spec_plain(code),
    {
        InputKey { code, ctrl: false, alt: false, shift: false }
    }

    /// The key with Ctrl held.
    #[verifier::when_used_as_spec(spec_ctrl)]
    pub fn ctrl(code: u32) -> (k: InputKey)
        ensures
            k == InputKey::spec_ctrl(code),
    {
        InputKey { code, ctrl: true, alt: false, shift: false }
    }

    /// The key with Alt held.
    #[verifier::when_used_as_spec(spec_alt)]
    pub fn alt(code: u32) -> (k: InputKey)
        ensures
            k == InputKey::spec_alt(code),
    {
        InputKey { code, ctrl: false, alt: true, shift: false }
    }

    /// The key code of a letter key, given the letter in upper case.
    pub open spec fn spec_letter(c: char) -> u32 {
        c as u32
    }

    /// The key code of a letter key, given the letter in upper case.
    #[verifier::when_used_as_spec(spec_letter)]
    pub fn letter(c: char) -> (code: u32)
        ensures
            code == c as u32,
    {
        c as u32
    }
}

} // verus!
