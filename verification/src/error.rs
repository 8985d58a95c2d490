//! What can go wrong, by kind.

use vstd::prelude::*;

verus! {

/// The five kinds of failure. Each one is fatal for the command that meets it.
#[derive(Clone, Copy, Debug, PartialEq, Eq, Structural)]
pub enum ErrorKind {
    /// The request failed or was answered with a status that is no success.
    Network,
    /// Bytes are not what they should be.
    Integrity,
    /// The archive is of no supported format.
    Format,
    /// The disk refused, or holds something unexpected.
    Filesystem,
    /// The command does not apply to what is installed.
    State,
}

/// A failure that the library itself detects.
#[derive(Clone, Copy, Debug, PartialEq, Eq, Structural)]
pub enum SdkError {
    /// The server answered with this status, which is no success.
    BadStatus { code: u16 },
    /// The file on disk has another size than the bytes written to it.
    SizeMismatch { downloaded: u64, on_disk: u64 },
    /// The file does not begin with the gzip magic number but with these two
    /// bytes: it may be a ZIP archive or a damaged download.
    NotGzip { first: u8, second: u8 },
    /// The archive's name ends in none of `.tar.gz`, `.tgz` and `.zip`.
    UnsupportedFormat,
    /// There is no archive at the given place.
    ArchiveMissing,
    /// The archive holds no bytes, or fewer than its header needs.
    ArchiveEmpty,
    /// The archive's table of contents cannot be trusted.
    ArchiveUnreadable,
    /// The user has no home directory that could hold the SDKs.
    HomeMissing,
    /// The candidate's directory is there but cannot be listed.
    DirectoryUnreadable,
    /// `current` is there but is no link that can be read.
    LinkUnreadable,
    /// The version is not installed for the candidate.
    NotInstalled,
    /// The version's name cannot be that of a directory beside `current`.
    InvalidVersion,
}

impl SdkError {
    pub open spec fn kind_of(self) -> ErrorKind {
        match self {
            SdkError::BadStatus { .. } => ErrorKind::Network,
            SdkError::SizeMismatch { .. } => ErrorKind::Integrity,
            SdkError::NotGzip { .. } => ErrorKind::Integrity,
            SdkError::UnsupportedFormat => ErrorKind::Format,
            SdkError::ArchiveMissing => ErrorKind::Filesystem,
            SdkError::ArchiveEmpty => ErrorKind::Filesystem,
            SdkError::ArchiveUnreadable => ErrorKind::Filesystem,
            SdkError::HomeMissing => ErrorKind::Filesystem,
            SdkError::DirectoryUnreadable => ErrorKind::Filesystem,
            SdkError::LinkUnreadable => ErrorKind::Filesystem,
            SdkError::NotInstalled => ErrorKind::State,
            SdkError::InvalidVersion => ErrorKind::State,
        }
    }

    /// The kind of this failure.
    pub fn kind(&self) -> (kind: ErrorKind)
        ensures
            kind == self.kind_of(),
    {
        match self {
            SdkError::BadStatus { .. } => ErrorKind::Network,
            SdkError::SizeMismatch { .. } => ErrorKind::Integrity,
            SdkError::NotGzip { .. } => ErrorKind::Integrity,
            SdkError::UnsupportedFormat => ErrorKind::Format,
            SdkError::ArchiveMissing => ErrorKind::Filesystem,
            SdkError::ArchiveEmpty => ErrorKind::Filesystem,
            SdkError::ArchiveUnreadable => ErrorKind::Filesystem,
            SdkError::HomeMissing => ErrorKind::Filesystem,
            SdkError::DirectoryUnreadable => ErrorKind::Filesystem,
            SdkError::LinkUnreadable => ErrorKind::Filesystem,
            SdkError::NotInstalled => ErrorKind::State,
            SdkError::InvalidVersion => ErrorKind::State,
        }
    }
}

} // verus!
