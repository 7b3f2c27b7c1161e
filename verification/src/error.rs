//! The fatal error kinds of a run.
//!
//! Every kind here aborts the run when it occurs; the one recovered
//! condition, a consumption reading beyond the signed costing range, is
//! clamped with a diagnostic instead and never surfaces as an error value.

use vstd::prelude::*;
use vstd::string::StringExecFns;

verus! {

#[derive(Clone, Copy, Debug, PartialEq, Eq, Structural)]
pub enum SolarError {
    /// The folder argument cannot be listed.
    FolderNotFoundOrUnreadable,
    /// A file with an extension outside the allow-list reached a reader.
    UnsupportedFileExtension,
    /// A row failed required-column, decimal or timestamp decoding.
    MalformedRow,
    /// The expected worksheet is absent from a spreadsheet.
    SheetNotFound,
    /// The destination file cannot be created or written.
    OutputWriteFailure,
}

impl SolarError {
    /// A human-readable description of the error kind.
    pub fn message(&self) -> (r: String)
        ensures
            match self {
                SolarError::FolderNotFoundOrUnreadable => r@
                    == "folder not found or unreadable"@,
                SolarError::UnsupportedFileExtension => r@ == "unsupported file extension"@,
                SolarError::MalformedRow => r@ == "malformed row"@,
                SolarError::SheetNotFound => r@ == "sheet not found"@,
                SolarError::OutputWriteFailure => r@ == "output write failure"@,
            },
    {
        match self {
            SolarError::FolderNotFoundOrUnreadable => String::from_str(
                "folder not found or unreadable",
            ),
            SolarError::UnsupportedFileExtension => String::from_str("unsupported file extension"),
            SolarError::MalformedRow => String::from_str("malformed row"),
            SolarError::SheetNotFound => String::from_str("sheet not found"),
            SolarError::OutputWriteFailure => String::from_str("output write failure"),
        }
    }
}

} // verus!
