//! Selective removal: resolving an interactive selection back to grants.
//!
//! The selection collaborator hands back a set of positions into the
//! directory as it was presented. Resolution keeps the directory's own
//! order, collapses duplicate positions, and ignores positions outside the
//! directory; the result feeds the same fail-fast apply machinery as a
//! reconciliation run, one `Remove` per selected grant.

use vstd::prelude::*;

use crate::diff::Intent;
use crate::model::Permission;

verus! {

/// The grants of the first `n` positions of `d` whose position is listed
/// in `sel` — directory order, each position at most once.
pub open spec fn selected_up_to(d: Seq<Permission>, sel: Seq<usize>, n: int) -> Seq<Permission>
    decreases n,
{
    if n <= 0 {
        Seq::empty()
    } else {
        selected_up_to(d, sel, n - 1) + (if sel.contains((n - 1) as usize) {
            seq![d[n - 1]]
        } else {
            Seq::empty()
        })
    }
}

/// The grants a selection resolves to.
pub open spec fn selection_spec(d: Seq<Permission>, sel: Seq<usize>) -> Seq<Permission> {
    selected_up_to(d, sel, d.len() as int)
}

pub open spec fn remove_fn() -> spec_fn(Permission) -> Intent {
    |p: Permission| Intent::Remove { permission: p }
}

/// The removal intents of a selective-removal run: one `Remove` per
/// selected grant, in directory order.
pub open spec fn removal_plan_spec(d: Seq<Permission>, sel: Seq<usize>) -> Seq<Intent> {
    selection_spec(d, sel).map_values(remove_fn())
}

fn contains_index(sel: &Vec<usize>, i: usize) -> (r: bool)
    ensures
        r == sel@.contains(i),
{
    let mut j: usize = 0;
    while j < sel.len()
        invariant
            j <= sel@.len(),
            forall|t: int| 0 <= t < j ==> sel@[t] != i,
        decreases sel@.len() - j,
    {
        if sel[j] == i {
            proof {
                assert(sel@[j as int] == i);
            }
            return true;
        }
        j = j + 1;
    }
    false
}

/// Resolves a selection to its grants: directory order kept, duplicate
/// positions collapsed, out-of-range positions ignored.
pub fn select_permissions(d: &Vec<Permission>, sel: &Vec<usize>) -> (r: Vec<Permission>)
    ensures
        r@ == selection_spec(d@, sel@),
{
    let mut out: Vec<Permission> = Vec::new();
    let mut i: usize = 0;
    while i < d.len()
        invariant
            i <= d@.len(),
            out@ == selected_up_to(d@, sel@, i as int),
        decreases d@.len() - i,
    {
        if contains_index(sel, i) {
            out.push(d[i].clone());
        }
        proof {
            assert(out@ =~= selected_up_to(d@, sel@, i as int + 1));
        }
        i = i + 1;
    }
    out
}

/// Builds the ordered removal intents for a selection over a directory.
pub fn removal_plan(d: &Vec<Permission>, sel: &Vec<usize>) -> (r: Vec<Intent>)
    ensures
        r@ == removal_plan_spec(d@, sel@),
{
    let picked = select_permissions(d, sel);
    let mut out: Vec<Intent> = Vec::new();
    let mut i: usize = 0;
    while i < picked.len()
        invariant
            i <= picked@.len(),
            picked@ == selection_spec(d@, sel@),
            out@ == picked@.take(i as int).map_values(remove_fn()),
        decreases picked@.len() - i,
    {
        out.push(Intent::Remove { permission: picked[i].clone() });
        proof {
            assert(out@ =~= picked@.take(i as int + 1).map_values(remove_fn()));
        }
        i = i + 1;
    }
    proof {
        assert(picked@.take(picked@.len() as int) =~= picked@);
    }
    out
}

} // verus!
