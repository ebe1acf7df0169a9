//! The internal model of a permission grant.

use vstd::prelude::*;

verus! {

/// The kind of principal a grant refers to: an individual account or a
/// named group.
#[derive(Debug, Clone, Copy, PartialEq, Eq, Structural)]
pub enum ObjectType {
    User,
    Group,
}

/// An access level, in increasing order of privilege: `Read < Write < Admin`.
/// Equality drives no-op detection; the ordering is kept representable for
/// future policy but is not consulted by the reconciliation rules.
#[derive(Debug, Clone, Copy, PartialEq, Eq, PartialOrd, Ord, Structural)]
pub enum PermissionType {
    Read,
    Write,
    Admin,
}

/// One permission grant of a repository directory snapshot.
///
/// `id` is the stable remote identifier of the principal (group slug or user
/// UUID) and is the join key when two directories are compared. `alias` is
/// the human-facing name and is never used for identity.
#[derive(Debug, PartialEq, Eq)]
pub struct Permission {
    pub object_type: ObjectType,
    pub alias: String,
    pub id: String,
    pub permission: PermissionType,
}

impl Clone for Permission {
    fn clone(&self) -> (r: Self)
        ensures
            r == *self,
    {
        Permission {
            object_type: self.object_type,
            alias: self.alias.clone(),
            id: self.id.clone(),
            permission: self.permission,
        }
    }
}

/// Holds when no two grants of `d` share an id. One directory snapshot is
/// expected to satisfy this for each principal kind; the reconciliation
/// rules themselves key by id alone.
pub open spec fn distinct_ids(d: Seq<Permission>) -> bool {
    forall|i: int, j: int| 0 <= i < j < d.len() ==> d[i].id@ != d[j].id@
}

} // verus!
