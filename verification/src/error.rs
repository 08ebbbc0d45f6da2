//! The failures that the player reports to its caller.

use vstd::prelude::*;

verus! {

/// Why an operation failed.
#[derive(Clone, Copy, Debug, PartialEq, Eq, Structural)]
pub enum PlayerError {
    /// The directory to add does not exist.
    NotFound,
    /// A position is out of range.
    Index,
    /// A directory could not be traversed.
    Io,
    /// A file could not be opened or decoded.
    Decode,
}

impl PlayerError {
    /// The text shown to the user for this failure.
    pub open spec fn text(self) -> Seq<char> {
        match self {
            PlayerError::NotFound => "Directory does not exist"@,
            PlayerError::Index => "Invalid directory index"@,
            PlayerError::Io => "Directory could not be read"@,
            PlayerError::Decode => "File could not be played"@,
        }
    }

    /// The text shown to the user for this failure.
    pub fn message(&self) -> (shown: String)
        ensures
            shown@ == self.text(),
    {
        match self {
            PlayerError::NotFound => "Directory does not exist".to_owned(),
            PlayerError::Index => "Invalid directory index".to_owned(),
            PlayerError::Io => "Directory could not be read".to_owned(),
            PlayerError::Decode => "File could not be played".to_owned(),
        }
    }
}

} // verus!
