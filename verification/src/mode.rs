//! Permission and file-type bits of a raw mode value.
//!
//! A mode is decoded once, by bitwise tests against the POSIX masks, into
//! twelve independent flags. The masks themselves are read from `libc`.

use vstd::prelude::*;

verus! {

/// One mask per permission flag.
pub struct PermissionMasks {
    pub user_read: u32,
    pub user_write: u32,
    pub user_execute: u32,
    pub group_read: u32,
    pub group_write: u32,
    pub group_execute: u32,
    pub other_read: u32,
    pub other_write: u32,
    pub other_execute: u32,
    pub sticky: u32,
    pub setgid: u32,
    pub setuid: u32,
}

/// The mask that selects the file-type bits, and the value they hold for a
/// directory.
pub struct TypeMasks {
    pub format: u32,
    pub directory: u32,
}

/// The permission masks as POSIX fixes them.
pub open spec fn posix_permission_masks() -> PermissionMasks {
    PermissionMasks {
        user_read: 0o400,
        user_write: 0o200,
        user_execute: 0o100,
        group_read: 0o040,
        group_write: 0o020,
        group_execute: 0o010,
        other_read: 0o004,
        other_write: 0o002,
        other_execute: 0o001,
        sticky: 0o1000,
        setgid: 0o2000,
        setuid: 0o4000,
    }
}

/// The file-type masks of Unix systems.
pub open spec fn posix_type_masks() -> TypeMasks {
    TypeMasks { format: 0o170000, directory: 0o040000 }
}

/// Whether every bit of `mask` is set in `mode`.
pub open spec fn has_bits(mode: u32, mask: u32) -> bool {
    mode & mask == mask
}

/// Whether the file-type bits of `mode` say "directory".
pub open spec fn is_directory_mode(mode: u32) -> bool {
    mode & posix_type_masks().format == posix_type_masks().directory
}

/// The constants `S_IRUSR`, `S_IWUSR`, `S_IXUSR`, `S_IRGRP`, `S_IWGRP`,
/// `S_IXGRP`, `S_IROTH`, `S_IWOTH`, `S_IXOTH`, `S_ISVTX`, `S_ISGID` and
/// `S_ISUID` of `libc`, widened to `u32`.
///
/// Trusted: that `libc` gives each of them the value POSIX assigns, as its
/// definitions for the Unix targets do.
#[verifier::external_body]
fn permission_masks() -> (masks: PermissionMasks)
    ensures
        masks == posix_permission_masks(),
{
    PermissionMasks {
        user_read: libc::S_IRUSR as u32,
        user_write: libc::S_IWUSR as u32,
        user_execute: libc::S_IXUSR as u32,
        group_read: libc::S_IRGRP as u32,
        group_write: libc::S_IWGRP as u32,
        group_execute: libc::S_IXGRP as u32,
        other_read: libc::S_IROTH as u32,
        other_write: libc::S_IWOTH as u32,
        other_execute: libc::S_IXOTH as u32,
        sticky: libc::S_ISVTX as u32,
        setgid: libc::S_ISGID as u32,
        setuid: libc::S_ISUID as u32,
    }
}

/// The constants `S_IFMT` and `S_IFDIR` of `libc`, widened to `u32`.
///
/// Trusted: that they are octal 170000 and 040000, as `libc` defines them for
/// the Unix targets.
#[verifier::external_body]
fn type_masks() -> (masks: TypeMasks)
    ensures
        masks == posix_type_masks(),
{
    TypeMasks { format: libc::S_IFMT as u32, directory: libc::S_IFDIR as u32 }
}

/// The twelve permission flags of a file: read, write and execute for the
/// owner, the group and everyone else, and the three special bits.
#[derive(Clone, Copy, Debug, PartialEq, Eq, Structural)]
pub struct Permissions {
    pub user_read: bool,
    pub user_write: bool,
    pub user_execute: bool,
    pub group_read: bool,
    pub group_write: bool,
    pub group_execute: bool,
    pub other_read: bool,
    pub other_write: bool,
    pub other_execute: bool,
    pub sticky: bool,
    pub setgid: bool,
    pub setuid: bool,
}

/// The letter of a permission slot, or a dash where the flag is unset.
pub open spec fn flag_char(set: bool, letter: char) -> char {
    if set {
        letter
    } else {
        '-'
    }
}

impl Permissions {
    /// The flags that a mode value decodes to: each flag is set exactly when
    /// the mode has the bits of its mask.
    pub open spec fn of_mode(mode: u32) -> Permissions {
        let masks = posix_permission_masks();
        Permissions {
            user_read: has_bits(mode, masks.user_read),
            user_write: has_bits(mode, masks.user_write),
            user_execute: has_bits(mode, masks.user_execute),
            group_read: has_bits(mode, masks.group_read),
            group_write: has_bits(mode, masks.group_write),
            group_execute: has_bits(mode, masks.group_execute),
            other_read: has_bits(mode, masks.other_read),
            other_write: has_bits(mode, masks.other_write),
            other_execute: has_bits(mode, masks.other_execute),
            sticky: has_bits(mode, masks.sticky),
            setgid: has_bits(mode, masks.setgid),
            setuid: has_bits(mode, masks.setuid),
        }
    }

    /// The nine characters of the long view, in the order owner, group,
    /// other. The special bits are not shown.
    pub open spec fn symbols(self) -> Seq<char> {
        seq![
            flag_char(self.user_read, 'r'),
            flag_char(self.user_write, 'w'),
            flag_char(self.user_execute, 'x'),
            flag_char(self.group_read, 'r'),
            flag_char(self.group_write, 'w'),
            flag_char(self.group_execute, 'x'),
            flag_char(self.other_read, 'r'),
            flag_char(self.other_write, 'w'),
            flag_char(self.other_execute, 'x'),
        ]
    }

    /// Decodes a raw mode value.
    pub fn from_mode(mode: u32) -> (permissions: Permissions)
        ensures
            permissions == Permissions::of_mode(mode),
    {
        let masks = permission_masks();
        Permissions {
            user_read: mode & masks.user_read == masks.user_read,
            user_write: mode & masks.user_write == masks.user_write,
            user_execute: mode & masks.user_execute == masks.user_execute,
            group_read: mode & masks.group_read == masks.group_read,
            group_write: mode & masks.group_write == masks.group_write,
            group_execute: mode & masks.group_execute == masks.group_execute,
            other_read: mode & masks.other_read == masks.other_read,
            other_write: mode & masks.other_write == masks.other_write,
            other_execute: mode & masks.other_execute == masks.other_execute,
            sticky: mode & masks.sticky == masks.sticky,
            setgid: mode & masks.setgid == masks.setgid,
            setuid: mode & masks.setuid == masks.setuid,
        }
    }

    /// Writes the nine permission characters, `rwxrwxrwx` with a dash in
    /// place of each unset flag.
    pub fn to_symbols(&self) -> (text: String)
        ensures
            text@ == self.symbols(),
    {
        let mut text = String::new();
        push_flag(&mut text, self.user_read, "r");
        push_flag(&mut text, self.user_write, "w");
        push_flag(&mut text, self.user_execute, "x");
        push_flag(&mut text, self.group_read, "r");
        push_flag(&mut text, self.group_write, "w");
        push_flag(&mut text, self.group_execute, "x");
        push_flag(&mut text, self.other_read, "r");
        push_flag(&mut text, self.other_write, "w");
        push_flag(&mut text, self.other_execute, "x");
        proof {
            reveal_strlit("r");
            reveal_strlit("w");
            reveal_strlit("x");
            reveal_strlit("-");
            assert(text@ =~= self.symbols());
        }
        text
    }
}

/// Appends `letter` where the flag is set, a dash where it is not.
fn push_flag(text: &mut String, set: bool, letter: &str)
    ensures
        final(text)@ == old(text)@ + (if set {
            letter@
        } else {
            "-"@
        }),
{
    if set {
        text.append(letter);
    } else {
        text.append("-");
    }
}

/// Whether a raw mode value describes a directory.
pub fn mode_is_directory(mode: u32) -> (directory: bool)
    ensures
        directory == is_directory_mode(mode),
{
    let masks = type_masks();
    mode & masks.format == masks.directory
}

} // verus!
