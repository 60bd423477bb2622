//! The one way in which validation fails.

use vstd::prelude::*;

verus! {

/// The text is not a valid national identification number. Nothing is said of
/// the reason: a caller learns only that the text was refused.
#[derive(Debug, Clone, Copy, PartialEq, Eq, PartialOrd, Structural)]
pub struct NationalIdError;

/// What `NationalIdError::message` reads.
pub open spec fn error_text() -> Seq<char> {
    "invalid iranian national id number"@
}

impl NationalIdError {
    /// The failure in words.
    pub fn message(&self) -> (text: &'static str)
        ensures
            text@ == error_text(),
    {
        "invalid iranian national id number"
    }

    /// The failure in words, as an owned string.
    pub fn to_string(&self) -> (text: String)
        ensures
            text@ == error_text(),
    {
        String::from_str(self.message())
    }
}

} // verus!
