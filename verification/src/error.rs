//! What can go wrong while a listing is made.

use vstd::prelude::*;

verus! {

/// A failure of the listing. Every one of them ends the whole listing: no
/// part of it is produced.
#[derive(Clone, Copy, Debug, PartialEq, Eq, Structural)]
pub enum ListError {
    /// The directory could not be opened or enumerated.
    DirectoryUnreadable,
    /// The metadata of one entry could not be retrieved.
    MetadataUnavailable,
    /// An entry's name is empty or holds a path separator.
    InvalidName,
    /// No user is known under this owner id.
    UnknownUser(u32),
    /// No group is known under this group id.
    UnknownGroup(u32),
}

} // verus!
