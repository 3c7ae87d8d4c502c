//! The failures that end a counting pass.

use vstd::prelude::*;
use vstd::string::*;

verus! {

/// Why a counting pass was abandoned.
#[derive(Clone, Copy, Debug, PartialEq, Eq, Structural)]
pub enum WcError {
    /// The named path does not exist.
    NotFound,
    /// The named path may not be read.
    PermissionDenied,
    /// Reading the source failed for another reason.
    Io,
    /// The input is not valid UTF-8.
    Encoding,
}

impl WcError {
    /// What to tell the user: a text that is never empty.
    pub fn message(&self) -> (text: &'static str)
        ensures
            text@.len() > 0,
    {
        proof {
            reveal_strlit("no such file");
            reveal_strlit("permission denied");
            reveal_strlit("the input could not be read");
            reveal_strlit("the input is not valid UTF-8");
        }
        match self {
            WcError::NotFound => "no such file",
            WcError::PermissionDenied => "permission denied",
            WcError::Io => "the input could not be read",
            WcError::Encoding => "the input is not valid UTF-8",
        }
    }

    /// The status with which a process that met this error ends.
    pub fn exit_code(&self) -> (code: i32)
        ensures
            code == 1,
    {
        1
    }
}

} // verus!
