//! The ways in which reading an image can fail.

use vstd::prelude::*;

verus! {

/// Why the bytes of an image could not be had or hashed.
#[derive(Clone, Copy, Debug, PartialEq, Eq, Hash, Structural)]
pub enum RomError {
    /// The archive cannot be opened, or the chosen entry cannot be read.
    Archive,
    /// The archive holds no entry at all.
    EmptyArchive,
    /// No entry of the archive carries the required inner extension.
    NoMatchingEntry,
    /// The header is cut short, names a region that reaches past the end of
    /// the image, or belongs to a file of the wrong kind.
    MalformedHeader,
    /// Fewer bytes are available at the offset than were asked for.
    TruncatedRead,
}

impl RomError {
    /// Whether the failure lies with the archive that wraps the image.
    pub open spec fn concerns_archive(self) -> bool {
        self == RomError::Archive || self == RomError::EmptyArchive || self
            == RomError::NoMatchingEntry
    }

    /// Whether the failure lies with the archive that wraps the image.
    pub fn is_archive_error(&self) -> (archive: bool)
        ensures
            archive == self.concerns_archive(),
    {
        match self {
            RomError::Archive => true,
            RomError::EmptyArchive => true,
            RomError::NoMatchingEntry => true,
            RomError::MalformedHeader => false,
            RomError::TruncatedRead => false,
        }
    }

    /// A short description of the failure.
    pub fn message(&self) -> (text: &'static str)
        ensures
            text@ == match *self {
                RomError::Archive => "archive cannot be read"@,
                RomError::EmptyArchive => "archive is empty"@,
                RomError::NoMatchingEntry => "no matching entry in the archive"@,
                RomError::MalformedHeader => "header is malformed"@,
                RomError::TruncatedRead => "read past the end of the image"@,
            },
    {
        match self {
            RomError::Archive => "archive cannot be read",
            RomError::EmptyArchive => "archive is empty",
            RomError::NoMatchingEntry => "no matching entry in the archive",
            RomError::MalformedHeader => "header is malformed",
            RomError::TruncatedRead => "read past the end of the image",
        }
    }
}

} // verus!
