//! The ways in which a run can fail. Every failure is fatal for the run.

use vstd::prelude::*;

verus! {

/// The kind of a failure.
#[derive(Debug, Clone, Copy, PartialEq, Eq, Structural)]
pub enum ErrorKind {
    /// The registry did not answer with success.
    NetworkFailure,
    /// The archive could not be unpacked.
    ArchiveCorrupt,
    /// A manifest is not a well-formed document of sections.
    ManifestParse,
    /// A patch record does not apply to the pristine text.
    PatchApplyFailure,
    /// A file could not be read or written as needed.
    Filesystem,
}

impl ErrorKind {
    /// A short description for the operator.
    pub fn describe(&self) -> (text: String)
        ensures
            text@ == match *self {
                ErrorKind::NetworkFailure => "the registry did not deliver the archive"@,
                ErrorKind::ArchiveCorrupt => "the archive could not be unpacked"@,
                ErrorKind::ManifestParse => "a manifest is malformed"@,
                ErrorKind::PatchApplyFailure => "a patch record does not apply"@,
                ErrorKind::Filesystem => "a file could not be read or written"@,
            },
    {
        match self {
            ErrorKind::NetworkFailure => String::from_str(
                "the registry did not deliver the archive",
            ),
            ErrorKind::ArchiveCorrupt => String::from_str("the archive could not be unpacked"),
            ErrorKind::ManifestParse => String::from_str("a manifest is malformed"),
            ErrorKind::PatchApplyFailure => String::from_str("a patch record does not apply"),
            ErrorKind::Filesystem => String::from_str("a file could not be read or written"),
        }
    }
}

} // verus!
