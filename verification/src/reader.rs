//! Normalization of remote permission listings into a directory snapshot.
//!
//! A directory is read through two sub-fetches — group grants first, then
//! user grants — and each remote record is reduced to the plain values the
//! reconciliation needs. A sub-fetch the remote system rejected contributes
//! an empty sequence rather than failing the whole read; that lenient
//! policy is decided here, visibly, and the caller is expected to log it,
//! because an empty contribution is ambiguous between "no grants" and
//! "rejected read".

use vstd::prelude::*;

use crate::decode::object_type_from_str;
use crate::decode::object_type_of;
use crate::decode::permission_type_from_str;
use crate::decode::permission_type_of;
use crate::model::Permission;

verus! {

/// One record of a remote permission listing, reduced to the plain values
/// the normalization reads: the level string, the principal's kind string,
/// its display name, and its stable id (a group slug or a user UUID).
#[derive(Debug, PartialEq, Eq)]
pub struct RemoteGrant {
    pub permission: String,
    pub principal_type: String,
    pub display_name: String,
    pub id: String,
}

/// The grant a remote record normalizes to, under the lenient decoding of
/// its level and kind strings.
pub open spec fn grant_to_permission(g: RemoteGrant) -> Permission {
    Permission {
        object_type: object_type_of(g.principal_type@),
        alias: g.display_name,
        id: g.id,
        permission: permission_type_of(g.permission@),
    }
}

pub open spec fn normalize_fn() -> spec_fn(RemoteGrant) -> Permission {
    |g: RemoteGrant| grant_to_permission(g)
}

/// The normalization of a whole listing, record by record, in its order.
pub open spec fn normalized(gs: Seq<RemoteGrant>) -> Seq<Permission> {
    gs.map_values(normalize_fn())
}

/// The outcome of one sub-fetch whose transport succeeded: either the
/// records the remote system returned, or its rejection of the read.
#[derive(Debug, PartialEq, Eq)]
pub enum SubFetch {
    Completed(Vec<RemoteGrant>),
    Rejected,
}

/// What a sub-fetch contributes to the directory: its normalized records,
/// or nothing when the read was rejected.
pub open spec fn contribution(f: SubFetch) -> Seq<Permission> {
    match f {
        SubFetch::Completed(gs) => normalized(gs@),
        SubFetch::Rejected => Seq::empty(),
    }
}

/// Normalizes one listing in order.
pub fn normalize_grants(grants: &Vec<RemoteGrant>) -> (r: Vec<Permission>)
    ensures
        r@ == normalized(grants@),
{
    let mut out: Vec<Permission> = Vec::new();
    let mut i: usize = 0;
    while i < grants.len()
        invariant
            i <= grants@.len(),
            out@ == normalized(grants@.take(i as int)),
        decreases grants@.len() - i,
    {
        let g = &grants[i];
        out.push(Permission {
            object_type: object_type_from_str(g.principal_type.as_str()),
            alias: g.display_name.clone(),
            id: g.id.clone(),
            permission: permission_type_from_str(g.permission.as_str()),
        });
        proof {
            assert(out@.last() == grant_to_permission(grants@[i as int]));
            assert(out@ =~= normalized(grants@.take(i as int + 1)));
        }
        i = i + 1;
    }
    proof {
        assert(grants@.take(grants@.len() as int) =~= grants@);
    }
    out
}

/// Assembles one directory snapshot from its two sub-fetches: the group
/// contribution first, then the user contribution, each empty when its
/// read was rejected.
pub fn assemble_directory(groups: SubFetch, users: SubFetch) -> (r: Vec<Permission>)
    ensures
        r@ == contribution(groups) + contribution(users),
{
    let mut out: Vec<Permission> = match &groups {
        SubFetch::Completed(gs) => normalize_grants(gs),
        SubFetch::Rejected => Vec::new(),
    };
    let mut more: Vec<Permission> = match &users {
        SubFetch::Completed(gs) => normalize_grants(gs),
        SubFetch::Rejected => Vec::new(),
    };
    out.append(&mut more);
    proof {
        assert(out@ =~= contribution(groups) + contribution(users));
    }
    out
}

} // verus!
