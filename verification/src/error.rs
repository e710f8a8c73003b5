//! Error taxonomy of the filesystem core.

use vstd::prelude::*;

verus! {

/// Everything a filesystem operation can fail with.
#[derive(Clone, Copy, Debug, PartialEq, Eq, Structural)]
pub enum FsError {
    /// A block-device access fell outside the medium.
    IoError,
    /// A structural invariant of the on-disk format was violated.
    Corrupted,
    /// A path component does not exist.
    NotFound,
    /// The target of a create already exists.
    AlreadyExists,
    /// A directory slated for removal still has children.
    DirectoryNotEmpty,
    /// The fixed root region of a FAT12/16 volume is exhausted.
    DirectoryFull,
    /// The free-cluster scan covered the whole table without a hit.
    NoSpace,
    /// A bad seek, name or mode was handed in.
    InvalidInput,
}

impl FsError {
    /// A short human-readable tag for the error.
    pub fn message(&self) -> (r: &'static str)
    {
        match self {
            FsError::IoError => "I/O error",
            FsError::Corrupted => "filesystem corrupted",
            FsError::NotFound => "not found",
            FsError::AlreadyExists => "already exists",
            FsError::DirectoryNotEmpty => "directory not empty",
            FsError::DirectoryFull => "directory full",
            FsError::NoSpace => "no space",
            FsError::InvalidInput => "invalid input",
        }
    }
}

} // verus!
