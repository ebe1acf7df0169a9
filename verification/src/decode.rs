//! Decoding of remote permission and principal-kind strings.
//!
//! The remote system describes levels and principal kinds as strings. A
//! strict parse is offered next to the lenient form the reconciliation uses:
//! an unrecognized level falls back to the lowest privilege and an
//! unrecognized kind to `User`. The fallback is a deliberate policy, stated
//! here once, rather than a parse failure.

use vstd::prelude::*;

use crate::model::ObjectType;
use crate::model::PermissionType;

verus! {

/// The strict reading of a principal-kind string: only `"user"` and
/// `"group"` are recognized.
pub open spec fn parse_object_type_spec(s: Seq<char>) -> Option<ObjectType> {
    if s == "user"@ {
        Some(ObjectType::User)
    } else if s == "group"@ {
        Some(ObjectType::Group)
    } else {
        None
    }
}

/// The lenient reading of a principal-kind string: anything unrecognized
/// counts as `User`.
pub open spec fn object_type_of(s: Seq<char>) -> ObjectType {
    match parse_object_type_spec(s) {
        Some(t) => t,
        None => ObjectType::User,
    }
}

/// The strict reading of a permission-level string: only `"read"`,
/// `"write"` and `"admin"` are recognized, case-sensitively.
pub open spec fn parse_permission_type_spec(s: Seq<char>) -> Option<PermissionType> {
    if s == "read"@ {
        Some(PermissionType::Read)
    } else if s == "write"@ {
        Some(PermissionType::Write)
    } else if s == "admin"@ {
        Some(PermissionType::Admin)
    } else {
        None
    }
}

/// The lenient reading of a permission-level string: anything unrecognized
/// counts as the lowest privilege, `Read`.
pub open spec fn permission_type_of(s: Seq<char>) -> PermissionType {
    match parse_permission_type_spec(s) {
        Some(t) => t,
        None => PermissionType::Read,
    }
}

/// The string the remote system uses for each access level.
pub open spec fn permission_level_str(p: PermissionType) -> Seq<char> {
    match p {
        PermissionType::Read => "read"@,
        PermissionType::Write => "write"@,
        PermissionType::Admin => "admin"@,
    }
}

fn str_eq(a: &str, b: &str) -> (r: bool)
    ensures
        r == (a@ == b@),
{
    a.to_owned() == b.to_owned()
}

/// Strict decode of a principal-kind string.
pub fn parse_object_type(s: &str) -> (r: Option<ObjectType>)
    ensures
        r == parse_object_type_spec(s@),
{
    if str_eq(s, "user") {
        Some(ObjectType::User)
    } else if str_eq(s, "group") {
        Some(ObjectType::Group)
    } else {
        None
    }
}

/// Lenient decode of a principal-kind string; the substitution of `User`
/// for an unrecognized value is the documented policy, applied here.
pub fn object_type_from_str(s: &str) -> (r: ObjectType)
    ensures
        r == object_type_of(s@),
{
    match parse_object_type(s) {
        Some(t) => t,
        None => ObjectType::User,
    }
}

/// Strict decode of a permission-level string.
pub fn parse_permission_type(s: &str) -> (r: Option<PermissionType>)
    ensures
        r == parse_permission_type_spec(s@),
{
    if str_eq(s, "read") {
        Some(PermissionType::Read)
    } else if str_eq(s, "write") {
        Some(PermissionType::Write)
    } else if str_eq(s, "admin") {
        Some(PermissionType::Admin)
    } else {
        None
    }
}

/// Lenient decode of a permission-level string; the substitution of `Read`
/// for an unrecognized value is the documented policy, applied here.
pub fn permission_type_from_str(s: &str) -> (r: PermissionType)
    ensures
        r == permission_type_of(s@),
{
    match parse_permission_type(s) {
        Some(t) => t,
        None => PermissionType::Read,
    }
}

/// The string sent to the remote system for an access level.
pub fn permission_type_to_str(p: PermissionType) -> (r: String)
    ensures
        r@ == permission_level_str(p),
{
    match p {
        PermissionType::Read => "read".to_owned(),
        PermissionType::Write => "write".to_owned(),
        PermissionType::Admin => "admin".to_owned(),
    }
}

/// Encoding a level and decoding the result gives the level back: the
/// remote vocabulary is unambiguous.
pub proof fn lemma_level_string_round_trip(p: PermissionType)
    ensures
        permission_type_of(permission_level_str(p)) == p,
{
    reveal_strlit("read");
    reveal_strlit("write");
    reveal_strlit("admin");
    assert(("read"@).len() == 4);
    assert(("write"@).len() == 5);
    assert(("write"@)[0] == 'w');
    assert(("admin"@)[0] == 'a');
}

} // verus!
