//! Errors of the persistence boundary, reported to the user by message.

use vstd::prelude::*;

verus! {

/// What went wrong while reading or writing the application's files.
#[derive(Clone, Copy, PartialEq, Eq, Structural, Debug)]
pub enum ErisError {
    ReadFromDisk,
    WriteToDisk,
    DeserializeFromFile,
    SerializeToFile,
    Unknown,
}

impl ErisError {
    /// The message shown for the error.
    pub fn message(&self) -> (r: String)
        ensures
            match self {
                ErisError::ReadFromDisk => r@ == "Failed to open and read file on disk."@,
                ErisError::WriteToDisk => r@ == "Failed to write file to disk."@,
                ErisError::DeserializeFromFile => r@ == "Failed to deserialize from a file."@,
                ErisError::SerializeToFile => r@ == "Failed to serialize into a file."@,
                ErisError::Unknown => r@ == "Unknown error."@,
            },
    {
        match self {
            ErisError::ReadFromDisk => String::from_str("Failed to open and read file on disk."),
            ErisError::WriteToDisk => String::from_str("Failed to write file to disk."),
            ErisError::DeserializeFromFile => String::from_str(
                "Failed to deserialize from a file.",
            ),
            ErisError::SerializeToFile => String::from_str("Failed to serialize into a file."),
            ErisError::Unknown => String::from_str("Unknown error."),
        }
    }
}

} // verus!
