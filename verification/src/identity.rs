//! Display names of users and groups, looked up in the system's databases.

use vstd::prelude::*;

verus! {

/// `users::get_user_by_uid`, and `User::name` of what it found, as text.
///
/// Trusted: nothing. The answer depends on the user database of the machine;
/// `None` stands for an id without a user, and for a name that is not
/// UTF-8.
#[verifier::external_body]
pub(crate) fn user_name(uid: u32) -> (name: Option<String>) {
    match users::get_user_by_uid(uid) {
        Some(user) => user.name().to_str().map(String::from),
        None => None,
    }
}

/// `users::get_group_by_gid`, and `Group::name` of what it found, as text.
///
/// Trusted: nothing. The answer depends on the group database of the machine;
/// `None` stands for an id without a group, and for a name that is not
/// UTF-8.
#[verifier::external_body]
pub(crate) fn group_name(gid: u32) -> (name: Option<String>) {
    match users::get_group_by_gid(gid) {
        Some(group) => group.name().to_str().map(String::from),
        None => None,
    }
}

} // verus!
