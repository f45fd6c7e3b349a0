//! One entry of the listed directory.

use vstd::prelude::*;
use crate::error::ListError;
use crate::mode::{is_directory_mode, mode_is_directory, Permissions};
use crate::name::{hidden_name, is_hidden_name, is_valid_name, valid_name};

verus! {

/// A filesystem object within the listed directory, as it was found when the
/// directory was read. Nothing of it changes afterwards.
#[derive(Debug)]
pub struct File {
    name: String,
    directory: bool,
    links: u64,
    user: u32,
    group: u32,
    permissions: Permissions,
}

/// What an entry is, as plain values.
pub struct FileView {
    pub name: Seq<char>,
    pub is_dir: bool,
    pub links: u64,
    pub user: u32,
    pub group: u32,
    pub permissions: Permissions,
}

impl View for File {
    type V = FileView;

    closed spec fn view(&self) -> FileView {
        FileView {
            name: self.name@,
            is_dir: self.directory,
            links: self.links,
            user: self.user,
            group: self.group,
            permissions: self.permissions,
        }
    }
}

/// The entry that a name and the raw metadata of a file describe.
pub open spec fn described(name: Seq<char>, mode: u32, links: u64, user: u32, group: u32) -> FileView {
    FileView {
        name,
        is_dir: is_directory_mode(mode),
        links,
        user,
        group,
        permissions: Permissions::of_mode(mode),
    }
}

impl File {
    /// What holds of every entry: its name is not empty and holds no path
    /// separator.
    #[verifier::type_invariant]
    pub open spec fn well_formed(&self) -> bool {
        is_valid_name(self@.name)
    }

    /// Makes the entry for a base name and the metadata read for it: the raw
    /// mode, the number of hard links, and the ids of owner and group. The
    /// mode is decoded here, once. A name that is empty or holds a path
    /// separator is refused.
    pub fn new(name: String, mode: u32, links: u64, user: u32, group: u32) -> (made: Result<File, ListError>)
        ensures
            match made {
                Ok(file) => is_valid_name(name@) && file@ == described(name@, mode, links, user, group),
                Err(error) => !is_valid_name(name@) && error == ListError::InvalidName,
            },
    {
        if !valid_name(name.as_str()) {
            return Err(ListError::InvalidName);
        }
        Ok(
            File {
                name,
                directory: mode_is_directory(mode),
                links,
                user,
                group,
                permissions: Permissions::from_mode(mode),
            },
        )
    }

    /// The base name. It is never empty and never holds a path separator.
    pub fn name(&self) -> (name: &str)
        ensures
            name@ == self@.name,
            is_valid_name(name@),
    {
        proof {
            use_type_invariant(self);
        }
        self.name.as_str()
    }

    /// Whether the entry is a directory.
    pub fn is_dir(&self) -> (directory: bool)
        ensures
            directory == self@.is_dir,
    {
        self.directory
    }

    /// Whether the entry is hidden: its name starts with a dot.
    pub fn is_hide(&self) -> (hidden: bool)
        ensures
            hidden == is_hidden_name(self@.name),
    {
        hidden_name(self.name.as_str())
    }

    /// The number of hard links.
    pub fn links(&self) -> (links: u64)
        ensures
            links == self@.links,
    {
        self.links
    }

    /// The id of the user that owns the entry.
    pub fn user(&self) -> (user: u32)
        ensures
            user == self@.user,
    {
        self.user
    }

    /// The id of the group that owns the entry.
    pub fn group(&self) -> (group: u32)
        ensures
            group == self@.group,
    {
        self.group
    }

    /// The permission flags decoded from the entry's mode.
    pub fn permissions(&self) -> (permissions: Permissions)
        ensures
            permissions == self@.permissions,
    {
        self.permissions
    }
}

/// Gathers the entries of a directory from what reading each of them gave.
/// One entry that could not be read fails the whole: the failure of the
/// first such entry is returned, and no entry is. Otherwise all entries are
/// returned, in the order in which they were read.
pub fn collect(fetched: Vec<Result<File, ListError>>) -> (collected: Result<Vec<File>, ListError>)
    ensures
        match collected {
            Ok(entries) => entries@.len() == fetched@.len() && forall|i: int|
                0 <= i < fetched@.len() ==> #[trigger] fetched@[i] == Ok::<File, ListError>(
                    entries@[i],
                ),
            Err(error) => exists|at: int|
                0 <= at < fetched@.len() && #[trigger] fetched@[at] == Err::<File, ListError>(error)
                    && forall|i: int| 0 <= i < at ==> (#[trigger] fetched@[i]) is Ok,
        },
{
    let ghost given = fetched@;
    let mut entries: Vec<File> = Vec::new();
    for outcome in it: fetched
        invariant
            it.seq() == given,
            entries@.len() == it.index(),
            forall|i: int|
                0 <= i < it.index() ==> #[trigger] given[i] == Ok::<File, ListError>(
                    entries@[i],
                ),
    {
        match outcome {
            Ok(file) => {
                entries.push(file);
            },
            Err(error) => {
                assert(given[it.index()] == Err::<File, ListError>(error));
                return Err(error);
            },
        }
    }
    Ok(entries)
}

} // verus!
