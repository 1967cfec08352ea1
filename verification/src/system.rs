//! What the library asks the machine that it runs on: the user and group databases
//! and the host's name. The answers differ from machine to machine and from moment to
//! moment, so hardly anything is stated of them.

use vstd::prelude::*;

verus! {

/// The user id and primary group id of a named user, by `nix::unistd::User::from_name`.
/// No user is found under a name with a NUL character; what is found under any other
/// name is up to the machine. A failed lookup counts as no user.
#[verifier::external_body]
pub(crate) fn user_by_name(name: &str) -> (found: Option<(u32, u32)>)
    ensures
        name@.contains('\0') ==> found is None,
{
    match nix::unistd::User::from_name(name) {
        Ok(Some(user)) => Some((user.uid.as_raw(), user.gid.as_raw())),
        Ok(None) => None,
        Err(_) => None,
    }
}

/// The id of a named group, by `nix::unistd::Group::from_name`. No group is found under
/// a name with a NUL character; what is found under any other name is up to the
/// machine. A failed lookup counts as no group.
#[verifier::external_body]
pub(crate) fn group_by_name(name: &str) -> (found: Option<u32>)
    ensures
        name@.contains('\0') ==> found is None,
{
    match nix::unistd::Group::from_name(name) {
        Ok(Some(group)) => Some(group.gid.as_raw()),
        Ok(None) => None,
        Err(_) => None,
    }
}

/// The user with the given id, by `nix::unistd::User::from_uid`: the id in the entry that
/// was found, and the name. The entry is the one that matches the id that was asked for, so
/// the two ids are the same. Whether there is an entry, and under which name, is up to the
/// machine. A failed lookup counts as no user.
#[verifier::external_body]
pub(crate) fn user_by_id(uid: u32) -> (found: Option<(u32, String)>)
    ensures
        found matches Some(user) ==> user.0 == uid,
{
    match nix::unistd::User::from_uid(nix::unistd::Uid::from_raw(uid)) {
        Ok(Some(user)) => Some((user.uid.as_raw(), user.name)),
        Ok(None) => None,
        Err(_) => None,
    }
}

/// The host's name, by `nix::unistd::gethostname`, with what is not UTF-8 in it
/// replaced. Nothing is stated of the answer, which is up to the machine.
#[verifier::external_body]
pub(crate) fn host_name() -> (name: Option<String>) {
    match nix::unistd::gethostname() {
        Ok(name) => Some(name.to_string_lossy().into_owned()),
        Err(_) => None,
    }
}

/// Whether the lookup of the user with the given id can answer `found`.
pub closed spec fn user_answer(uid: u32, found: Option<(u32, String)>) -> bool {
    call_ensures(user_by_id, (uid,), found)
}

/// Whether the lookup of the host's name can answer `name`.
pub closed spec fn host_answer(name: Option<String>) -> bool {
    call_ensures(host_name, (), name)
}

/// Whether the lookup of the user with the given name can answer `found`.
pub closed spec fn named_user_answer(name: Seq<char>, found: Option<(u32, u32)>) -> bool {
    exists|s: &str| s@ == name && #[trigger] call_ensures(user_by_name, (s,), found)
}

/// Whether the lookup of the group with the given name can answer `found`.
pub closed spec fn named_group_answer(name: Seq<char>, found: Option<u32>) -> bool {
    exists|s: &str| s@ == name && #[trigger] call_ensures(group_by_name, (s,), found)
}

/// What the lookup of a user by id gave is an answer of it.
pub(crate) proof fn user_was_found(uid: u32, found: Option<(u32, String)>)
    requires
        call_ensures(user_by_id, (uid,), found),
    ensures
        user_answer(uid, found),
{
}

/// What the lookup of the host's name gave is an answer of it.
pub(crate) proof fn host_was_found(name: Option<String>)
    requires
        call_ensures(host_name, (), name),
    ensures
        host_answer(name),
{
}

/// What the lookup of a user by name gave is an answer of it.
pub(crate) proof fn named_user_was_found(name: &str, found: Option<(u32, u32)>)
    requires
        call_ensures(user_by_name, (name,), found),
    ensures
        named_user_answer(name@, found),
{
}

/// What the lookup of a group by name gave is an answer of it.
pub(crate) proof fn named_group_was_found(name: &str, found: Option<u32>)
    requires
        call_ensures(group_by_name, (name,), found),
    ensures
        named_group_answer(name@, found),
{
}

/// A user that was found under an id has that id.
pub proof fn found_user_has_the_id(uid: u32, found: Option<(u32, String)>)
    requires
        user_answer(uid, found),
    ensures
        found matches Some(user) ==> user.0 == uid,
{
}

} // verus!
