//! Ownership and permissions of a listening socket, as given on a command line.
//! Whoever may connect holds the capability, so these are its access control.

use crate::system;
use crate::system::{group_by_name, user_by_name};
use crate::text;
use crate::text::{parse_number, split_once};
use vstd::prelude::*;
use vstd::string::*;

verus! {

/// One half of an ownership spec.
pub enum OwnerField {
    /// Nothing was given.
    Absent,
    /// A numeric id.
    Id(u32),
    /// A name to look up.
    Name(String),
}

/// An [`OwnerField`] as a mathematical value.
pub enum OwnerFieldView {
    Absent,
    Id(u32),
    Name(Seq<char>),
}

impl View for OwnerField {
    type V = OwnerFieldView;

    open spec fn view(&self) -> OwnerFieldView {
        match *self {
            OwnerField::Absent => OwnerFieldView::Absent,
            OwnerField::Id(n) => OwnerFieldView::Id(n),
            OwnerField::Name(s) => OwnerFieldView::Name(s@),
        }
    }
}

/// What one half of an ownership spec says: a number is an id, any other text a name.
pub open spec fn owner_field(s: Seq<char>) -> OwnerFieldView {
    if s.len() == 0 {
        OwnerFieldView::Absent
    } else {
        match text::number_value(s, 10) {
            Some(n) => OwnerFieldView::Id(n),
            None => OwnerFieldView::Name(s),
        }
    }
}

/// The user half and the group half of an ownership spec `user[:group]`.
pub open spec fn owner_fields(spec: Seq<char>) -> (OwnerFieldView, OwnerFieldView) {
    match text::cut(spec, ':') {
        Some((user, group)) => (owner_field(user), owner_field(group)),
        None => (owner_field(spec), OwnerFieldView::Absent),
    }
}

/// The user id and group id that an ownership spec stands for, where `user` is what the
/// user database holds for the user that it names, and `group` what the group database
/// holds for the group that it names.
///
/// A named user brings the primary group along, unless a group is given too.
pub open spec fn owner_ids(
    spec: Seq<char>,
    user: Option<(u32, u32)>,
    group: Option<u32>,
) -> Option<(Option<u32>, Option<u32>)> {
    let (user_field, group_field) = owner_fields(spec);
    if user_field is Name && user is None || group_field is Name && group is None {
        None
    } else {
        let uid = match user_field {
            OwnerFieldView::Absent => None,
            OwnerFieldView::Id(n) => Some(n),
            OwnerFieldView::Name(_) => Some(user.unwrap().0),
        };
        let gid = match group_field {
            OwnerFieldView::Absent => if user_field is Name {
                Some(user.unwrap().1)
            } else {
                None
            },
            OwnerFieldView::Id(n) => Some(n),
            OwnerFieldView::Name(_) => group,
        };
        if uid is None && gid is None {
            None
        } else {
            Some((uid, gid))
        }
    }
}

/// Whether `ids` can come of an ownership spec on some machine.
pub open spec fn owner_possible(spec: Seq<char>, ids: Option<(Option<u32>, Option<u32>)>) -> bool {
    exists|user: Option<(u32, u32)>, group: Option<u32>| #[trigger]
        owner_lookups_possible(spec, user, group) && ids == owner_ids(spec, user, group)
}

/// Whether the databases can hold `user` and `group` for the names in an ownership spec:
/// under a name with a NUL character they hold nothing.
pub open spec fn owner_lookups_possible(
    spec: Seq<char>,
    user: Option<(u32, u32)>,
    group: Option<u32>,
) -> bool {
    &&& owner_fields(spec).0 matches OwnerFieldView::Name(name) ==> (name.contains('\0') ==> user
        is None)
    &&& owner_fields(spec).1 matches OwnerFieldView::Name(name) ==> (name.contains('\0') ==> group
        is None)
}

/// Whether `ids` come of an ownership spec by looking up the names in it.
pub open spec fn owner_answered(spec: Seq<char>, ids: Option<(Option<u32>, Option<u32>)>) -> bool {
    exists|user: Option<(u32, u32)>, group: Option<u32>| #[trigger]
        owner_lookups_answered(spec, user, group) && ids == owner_ids(spec, user, group)
}

/// Whether `user` and `group` are what the lookups of the names in an ownership spec
/// answer. A group need not be looked up where the user is unknown.
pub open spec fn owner_lookups_answered(
    spec: Seq<char>,
    user: Option<(u32, u32)>,
    group: Option<u32>,
) -> bool {
    &&& owner_fields(spec).0 matches OwnerFieldView::Name(name) ==> system::named_user_answer(
        name,
        user,
    )
    &&& owner_fields(spec).1 matches OwnerFieldView::Name(name) ==> {
        ||| owner_fields(spec).0 is Name && user is None
        ||| system::named_group_answer(name, group)
    }
}

/// Whether an ownership spec names no user and no group, only ids.
pub open spec fn owner_is_numeric(spec: Seq<char>) -> bool {
    !(owner_fields(spec).0 is Name) && !(owner_fields(spec).1 is Name)
}

/// Reads one half of an ownership spec.
fn read_field(s: &str) -> (f: OwnerField)
    ensures
        f@ == owner_field(s@),
{
    if s.is_empty() {
        OwnerField::Absent
    } else {
        match parse_number(s, 10) {
            Some(n) => OwnerField::Id(n),
            None => OwnerField::Name(s.to_owned()),
        }
    }
}

/// Takes an ownership spec `user[:group]` apart. A half that is a name must be looked up
/// before the spec stands for ids.
pub fn owner_plan(spec: &str) -> (fields: (OwnerField, OwnerField))
    ensures
        (fields.0@, fields.1@) == owner_fields(spec@),
{
    match split_once(spec, ':') {
        Some((user, group)) => (read_field(user), read_field(group)),
        None => (read_field(spec), OwnerField::Absent),
    }
}

/// The ids that an ownership spec stands for, given what the databases hold for the
/// names in it.
pub fn resolve_owner(spec: &str, user: Option<(u32, u32)>, group: Option<u32>) -> (ids: Option<
    (Option<u32>, Option<u32>),
>)
    ensures
        ids == owner_ids(spec@, user, group),
{
    let (user_field, group_field) = owner_plan(spec);
    let mut uid: Option<u32> = None;
    let mut gid: Option<u32> = None;
    match user_field {
        OwnerField::Absent => {},
        OwnerField::Id(n) => {
            uid = Some(n);
        },
        OwnerField::Name(_) => match user {
            Some((u, g)) => {
                uid = Some(u);
                gid = Some(g);
            },
            None => {
                return None;
            },
        },
    }
    match group_field {
        OwnerField::Absent => {},
        OwnerField::Id(n) => {
            gid = Some(n);
        },
        OwnerField::Name(_) => match group {
            Some(g) => {
                gid = Some(g);
            },
            None => {
                return None;
            },
        },
    }
    if uid.is_none() && gid.is_none() {
        None
    } else {
        Some((uid, gid))
    }
}

/// Reads an ownership spec `user[:group]`, each half a number or a name, into a user id
/// and a group id. A name is looked up on this machine; there is no result where a name
/// is unknown, or where the spec gives neither id.
pub fn parse_owner_spec(spec: &str) -> (ids: Option<(Option<u32>, Option<u32>)>)
    ensures
        owner_is_numeric(spec@) ==> ids == owner_ids(spec@, None, None),
        owner_possible(spec@, ids),
        owner_answered(spec@, ids),
{
    let (user_field, group_field) = owner_plan(spec);
    let user = match user_field {
        OwnerField::Name(name) => {
            let s = name.as_str();
            let found = user_by_name(s);
            proof {
                system::named_user_was_found(s, found);
            }
            if found.is_none() {
                assert(owner_lookups_possible(spec@, None, None));
                assert(owner_lookups_answered(spec@, None, None));
                return None;
            }
            found
        },
        _ => None,
    };
    let group = match group_field {
        OwnerField::Name(name) => {
            let s = name.as_str();
            let found = group_by_name(s);
            proof {
                system::named_group_was_found(s, found);
            }
            found
        },
        _ => None,
    };
    assert(owner_lookups_possible(spec@, user, group));
    assert(owner_lookups_answered(spec@, user, group));
    resolve_owner(spec, user, group)
}

/// The permission mode that a text shows: octal, and at most `07777`.
pub open spec fn mode_value(spec: Seq<char>) -> Option<u32> {
    match text::number_value(spec, 8) {
        Some(v) => if v <= 4095 {
            Some(v)
        } else {
            None
        },
        None => None,
    }
}

/// Reads an octal permission mode such as `0770`. There is no result where the text is
/// not octal or shows more than `07777`.
pub fn parse_mode(spec: &str) -> (mode: Option<u32>)
    ensures
        mode == mode_value(spec@),
{
    match parse_number(spec, 8) {
        Some(v) => if v <= 0o7777 {
            Some(v)
        } else {
            None
        },
        None => None,
    }
}

/// A named user brings the primary group along, and a group that is given counts more.
pub proof fn primary_group_follows(
    spec: Seq<char>,
    user: (u32, u32),
    group: Option<u32>,
)
    requires
        owner_fields(spec).0 is Name,
    ensures
        owner_fields(spec).1 is Absent ==> owner_ids(spec, Some(user), group) == Some(
            (Some(user.0), Some(user.1)),
        ),
        owner_fields(spec).1 matches OwnerFieldView::Id(n) ==> owner_ids(spec, Some(user), group)
            == Some((Some(user.0), Some(n))),
{
}

/// A name that nobody bears makes the whole spec void.
pub proof fn unknown_names_are_rejected(
    spec: Seq<char>,
    user: Option<(u32, u32)>,
    group: Option<u32>,
)
    requires
        owner_fields(spec).0 is Name && user is None || owner_fields(spec).1 is Name && group
            is None,
    ensures
        owner_ids(spec, user, group) is None,
{
}

/// A field of an owner is a number if it reads as one, a name if not, and absent if empty.
/// The first `:` parts the user from the group, and without one there is only a user.
pub proof fn owners_mean(user: Seq<char>, group: Seq<char>, n: u32)
    requires
        !user.contains(':'),
    ensures
        owner_fields(user + seq![':'] + group) == (owner_field(user), owner_field(group)),
        owner_fields(user) == (owner_field(user), OwnerFieldView::Absent),
        owner_field(Seq::empty()) is Absent,
        group.len() > 0 && text::number_value(group, 10) == Some(n) ==> owner_field(group)
            == OwnerFieldView::Id(n),
        group.len() > 0 && text::number_value(group, 10) is None ==> owner_field(group)
            == OwnerFieldView::Name(group),
{
    text::cut_means(user + seq![':'] + group, ':', user, group);
    text::cut_means(user, ':', user, group);
}

/// Numbers stand for themselves and names for what was found for them; each of the two may
/// be left out, but not both, and a user that is named brings its group where none is given.
pub proof fn ids_mean(
    spec: Seq<char>,
    user: Option<(u32, u32)>,
    group: Option<u32>,
    uid: Option<u32>,
    gid: Option<u32>,
)
    ensures
        owner_ids(spec, user, group) == Some((uid, gid)) ==> {
            let (u, g) = owner_fields(spec);
            &&& u matches OwnerFieldView::Id(n) ==> uid == Some(n)
            &&& u is Name ==> user is Some && uid == Some(user.unwrap().0)
            &&& u is Absent ==> uid is None
            &&& g matches OwnerFieldView::Id(n) ==> gid == Some(n)
            &&& g is Name ==> group is Some && gid == group
            &&& g is Absent && u is Name ==> gid == Some(user.unwrap().1)
            &&& g is Absent && !(u is Name) ==> gid is None
            &&& uid is Some || gid is Some
        },
        owner_ids(spec, user, group) is None <==> {
            let (u, g) = owner_fields(spec);
            ||| u is Name && user is None
            ||| g is Name && group is None
            ||| u is Absent && g is Absent
        },
{
}

/// A mode is an octal number up to 07777, and stands for itself.
pub proof fn modes_mean(spec: Seq<char>, mode: u32)
    ensures
        mode_value(spec) == Some(mode) <==> text::number_value(spec, 8) == Some(mode) && mode
            <= 0o7777,
{
}

/// The fields of an owner are shown as they are.
pub proof fn owner_fields_are_shown(n: u32, s: String)
    ensures
        OwnerField::Absent@ == OwnerFieldView::Absent,
        OwnerField::Id(n)@ == OwnerFieldView::Id(n),
        OwnerField::Name(s)@ == OwnerFieldView::Name(s@),
{
}

} // verus!
