//! The reconciliation diff: the ordered intents that make a destination
//! directory match a source directory.
//!
//! The diff walks the source in its given order and emits one intent per
//! source grant — `Add` when the id is absent from the destination, `NoOp`
//! when it is present at the same level, `Update` otherwise — and then walks
//! the destination in its given order and emits one `Remove` per grant whose
//! id the source does not carry. Destination lookups are last-write-wins
//! when the destination holds duplicate ids, which a well-formed snapshot
//! does not. The diff is a pure function of its two inputs.

use vstd::prelude::*;
use vstd::seq_lib::*;

use crate::model::ObjectType;
use crate::model::Permission;
use crate::model::PermissionType;
use crate::model::distinct_ids;

verus! {

/// A proposed, not-yet-applied mutation produced by diffing two
/// directories.
///
/// In an `Update`, `from_level` is the destination's current level and
/// `to_level` is the source's level — the source is the desired state.
#[derive(Debug, PartialEq, Eq)]
pub enum Intent {
    Add { permission: Permission },
    Update {
        object_type: ObjectType,
        id: String,
        alias: String,
        from_level: PermissionType,
        to_level: PermissionType,
    },
    NoOp { id: String },
    Remove { permission: Permission },
}

/// The id an intent speaks about.
pub open spec fn intent_id(t: Intent) -> Seq<char> {
    match t {
        Intent::Add { permission } => permission.id@,
        Intent::Update { object_type: _, id, alias: _, from_level: _, to_level: _ } => id@,
        Intent::NoOp { id } => id@,
        Intent::Remove { permission } => permission.id@,
    }
}

/// The last grant of `d` carrying `id`, if any — the last-write-wins
/// destination lookup.
pub open spec fn find_last(d: Seq<Permission>, id: Seq<char>) -> Option<Permission>
    decreases d.len(),
{
    if d.len() == 0 {
        None
    } else if d.last().id@ == id {
        Some(d.last())
    } else {
        find_last(d.drop_last(), id)
    }
}

/// Whether some grant of `s` carries `id`.
pub open spec fn has_id(s: Seq<Permission>, id: Seq<char>) -> bool {
    exists|i: int| 0 <= i < s.len() && s[i].id@ == id
}

/// The intent a single source grant produces against destination `d`.
pub open spec fn intent_for(p: Permission, d: Seq<Permission>) -> Intent {
    match find_last(d, p.id@) {
        Some(q) => {
            if q.permission == p.permission {
                Intent::NoOp { id: p.id }
            } else {
                Intent::Update {
                    object_type: p.object_type,
                    id: p.id,
                    alias: p.alias,
                    from_level: q.permission,
                    to_level: p.permission,
                }
            }
        },
        None => Intent::Add { permission: p },
    }
}

/// The per-grant mapping of the source pass.
pub open spec fn upsert_fn(d: Seq<Permission>) -> spec_fn(Permission) -> Intent {
    |p: Permission| intent_for(p, d)
}

/// The per-grant selection of the destination pass: a `Remove` for every
/// grant whose id the source does not carry.
pub open spec fn removal_fn(s: Seq<Permission>) -> spec_fn(Permission) -> Option<Intent> {
    |p: Permission|
        if has_id(s, p.id@) {
            None
        } else {
            Some(Intent::Remove { permission: p })
        }
}

/// The full diff: the source pass in source order, then the destination
/// pass in destination order.
pub open spec fn diff_spec(s: Seq<Permission>, d: Seq<Permission>) -> Seq<Intent> {
    s.map_values(upsert_fn(d)) + d.filter_map(removal_fn(s))
}

fn find_last_match(d: &Vec<Permission>, id: &String) -> (r: Option<usize>)
    ensures
        match r {
            Some(k) => k < d@.len() && d@[k as int].id@ == id@ && find_last(d@, id@) == Some(
                d@[k as int],
            ),
            None => find_last(d@, id@) is None,
        },
{
    let mut k: usize = d.len();
    proof {
        assert(d@.take(d@.len() as int) =~= d@);
    }
    while k > 0
        invariant
            k <= d@.len(),
            find_last(d@, id@) == find_last(d@.take(k as int), id@),
        decreases k,
    {
        k = k - 1;
        if d[k].id == *id {
            proof {
                assert(d@.take(k as int + 1).last() == d@[k as int]);
            }
            return Some(k);
        }
        proof {
            assert(d@.take(k as int + 1).last() == d@[k as int]);
            assert(d@.take(k as int + 1).drop_last() =~= d@.take(k as int));
        }
    }
    proof {
        assert(d@.take(0).len() == 0);
    }
    None
}

fn contains_id(s: &Vec<Permission>, id: &String) -> (r: bool)
    ensures
        r == has_id(s@, id@),
{
    let mut i: usize = 0;
    while i < s.len()
        invariant
            i <= s@.len(),
            forall|j: int| 0 <= j < i ==> s@[j].id@ != id@,
        decreases s@.len() - i,
    {
        if s[i].id == *id {
            proof {
                assert(s@[i as int].id@ == id@);
            }
            return true;
        }
        i = i + 1;
    }
    false
}

/// Computes the ordered reconciliation intents for `src` against `dst`.
/// Neither input is changed; calling it twice on the same inputs gives the
/// same sequence.
pub fn diff(src: &Vec<Permission>, dst: &Vec<Permission>) -> (r: Vec<Intent>)
    ensures
        r@ == diff_spec(src@, dst@),
{
    let mut out: Vec<Intent> = Vec::new();
    let mut i: usize = 0;
    while i < src.len()
        invariant
            i <= src@.len(),
            out@ == src@.take(i as int).map_values(upsert_fn(dst@)),
        decreases src@.len() - i,
    {
        let p = &src[i];
        match find_last_match(dst, &p.id) {
            Some(k) => {
                let q = &dst[k];
                if q.permission == p.permission {
                    out.push(Intent::NoOp { id: p.id.clone() });
                } else {
                    out.push(Intent::Update {
                        object_type: p.object_type,
                        id: p.id.clone(),
                        alias: p.alias.clone(),
                        from_level: q.permission,
                        to_level: p.permission,
                    });
                }
            },
            None => {
                out.push(Intent::Add { permission: p.clone() });
            },
        }
        proof {
            assert(out@.last() == intent_for(src@[i as int], dst@));
            assert(out@ =~= src@.take(i as int + 1).map_values(upsert_fn(dst@)));
        }
        i = i + 1;
    }
    proof {
        assert(src@.take(src@.len() as int) =~= src@);
    }
    let mut j: usize = 0;
    while j < dst.len()
        invariant
            j <= dst@.len(),
            out@ == src@.map_values(upsert_fn(dst@)) + dst@.take(j as int).filter_map(
                removal_fn(src@),
            ),
        decreases dst@.len() - j,
    {
        let p = &dst[j];
        let live = contains_id(src, &p.id);
        if !live {
            out.push(Intent::Remove { permission: p.clone() });
        }
        proof {
            dst@.lemma_filter_map_take_succ(removal_fn(src@), j as int);
            assert(out@ =~= src@.map_values(upsert_fn(dst@)) + dst@.take(j as int + 1).filter_map(
                removal_fn(src@),
            ));
        }
        j = j + 1;
    }
    proof {
        assert(dst@.take(dst@.len() as int) =~= dst@);
    }
    out
}

/// How many intents of `ts` speak about `id`.
pub open spec fn count_with_id(ts: Seq<Intent>, id: Seq<char>) -> nat
    decreases ts.len(),
{
    if ts.len() == 0 {
        0
    } else {
        count_with_id(ts.drop_last(), id) + (if intent_id(ts.last()) == id {
            1nat
        } else {
            0nat
        })
    }
}

/// How many grants of `s` carry `id`.
pub open spec fn count_grants_with_id(s: Seq<Permission>, id: Seq<char>) -> nat
    decreases s.len(),
{
    if s.len() == 0 {
        0
    } else {
        count_grants_with_id(s.drop_last(), id) + (if s.last().id@ == id {
            1nat
        } else {
            0nat
        })
    }
}

proof fn lemma_count_concat(a: Seq<Intent>, b: Seq<Intent>, id: Seq<char>)
    ensures
        count_with_id(a + b, id) == count_with_id(a, id) + count_with_id(b, id),
    decreases b.len(),
{
    if b.len() == 0 {
        assert(a + b =~= a);
    } else {
        assert((a + b).drop_last() =~= a + b.drop_last());
        assert((a + b).last() == b.last());
        lemma_count_concat(a, b.drop_last(), id);
    }
}

proof fn lemma_count_singleton(t: Intent, id: Seq<char>)
    ensures
        count_with_id(seq![t], id) == (if intent_id(t) == id {
            1nat
        } else {
            0nat
        }),
{
    assert(seq![t].drop_last() =~= Seq::<Intent>::empty());
    assert(count_with_id(Seq::<Intent>::empty(), id) == 0);
}

proof fn lemma_count_upserts(s: Seq<Permission>, d: Seq<Permission>, id: Seq<char>)
    ensures
        count_with_id(s.map_values(upsert_fn(d)), id) == count_grants_with_id(s, id),
    decreases s.len(),
{
    let m = s.map_values(upsert_fn(d));
    if s.len() == 0 {
    } else {
        assert(m.drop_last() =~= s.drop_last().map_values(upsert_fn(d)));
        assert(m.last() == intent_for(s.last(), d));
        assert(intent_id(intent_for(s.last(), d)) == s.last().id@);
        lemma_count_upserts(s.drop_last(), d, id);
    }
}

proof fn lemma_count_removals(s: Seq<Permission>, d: Seq<Permission>, id: Seq<char>)
    ensures
        count_with_id(d.filter_map(removal_fn(s)), id) == (if has_id(s, id) {
            0nat
        } else {
            count_grants_with_id(d, id)
        }),
    decreases d.len(),
{
    let fm = d.filter_map(removal_fn(s));
    if d.len() == 0 {
    } else {
        let rest = d.drop_last();
        let rfm = rest.filter_map(removal_fn(s));
        lemma_count_removals(s, rest, id);
        if has_id(s, d.last().id@) {
            assert(fm == rfm);
        } else {
            assert(fm == rfm + seq![Intent::Remove { permission: d.last() }]);
            lemma_count_concat(rfm, seq![Intent::Remove { permission: d.last() }], id);
            lemma_count_singleton(Intent::Remove { permission: d.last() }, id);
        }
    }
}

proof fn lemma_count_grants_unique(x: Seq<Permission>, id: Seq<char>)
    requires
        distinct_ids(x),
    ensures
        count_grants_with_id(x, id) == (if has_id(x, id) {
            1nat
        } else {
            0nat
        }),
    decreases x.len(),
{
    if x.len() == 0 {
        assert(!has_id(x, id));
    } else {
        let rest = x.drop_last();
        assert(forall|i: int| 0 <= i < rest.len() ==> rest[i] == x[i]);
        assert(distinct_ids(rest));
        lemma_count_grants_unique(rest, id);
        if x.last().id@ == id {
            assert(has_id(x, id)) by {
                assert(x[x.len() - 1].id@ == id);
            }
            assert(!has_id(rest, id)) by {
                if has_id(rest, id) {
                    let w = choose|i: int| 0 <= i < rest.len() && rest[i].id@ == id;
                    assert(x[w].id@ == x[x.len() - 1].id@);
                }
            }
        } else {
            assert(has_id(x, id) == has_id(rest, id)) by {
                if has_id(x, id) {
                    let w = choose|i: int| 0 <= i < x.len() && x[i].id@ == id;
                    assert(w < x.len() - 1);
                    assert(rest[w].id@ == id);
                }
                if has_id(rest, id) {
                    let w = choose|i: int| 0 <= i < rest.len() && rest[i].id@ == id;
                    assert(x[w].id@ == id);
                }
            }
        }
    }
}

proof fn lemma_removals_shape(s: Seq<Permission>, d: Seq<Permission>)
    ensures
        forall|j: int|
            0 <= j < d.filter_map(removal_fn(s)).len() ==> exists|k: int|
                0 <= k < d.len() && !has_id(s, d[k].id@) && #[trigger] d.filter_map(
                    removal_fn(s),
                )[j] == (Intent::Remove { permission: d[k] }),
    decreases d.len(),
{
    let fm = d.filter_map(removal_fn(s));
    if d.len() == 0 {
    } else {
        let rest = d.drop_last();
        let rfm = rest.filter_map(removal_fn(s));
        lemma_removals_shape(s, rest);
        assert(forall|i: int| 0 <= i < rest.len() ==> rest[i] == d[i]);
        assert forall|j: int| 0 <= j < fm.len() implies exists|k: int|
            0 <= k < d.len() && !has_id(s, d[k].id@) && #[trigger] fm[j] == (Intent::Remove {
                permission: d[k],
            }) by {
            if j < rfm.len() {
                assert(fm[j] == rfm[j]) by {
                    if has_id(s, d.last().id@) {
                        assert(fm == rfm);
                    } else {
                        assert(fm == rfm + seq![Intent::Remove { permission: d.last() }]);
                    }
                }
                let k = choose|k: int|
                    0 <= k < rest.len() && !has_id(s, rest[k].id@) && #[trigger] rfm[j]
                        == (Intent::Remove { permission: rest[k] });
                assert(d[k] == rest[k]);
                assert(fm[j] == (Intent::Remove { permission: d[k] }));
            } else {
                assert(!has_id(s, d.last().id@));
                assert(fm == rfm + seq![Intent::Remove { permission: d.last() }]);
                assert(fm[j] == (Intent::Remove { permission: d[d.len() - 1] }));
            }
        }
    }
}

proof fn lemma_removals_complete(s: Seq<Permission>, d: Seq<Permission>, k: int)
    requires
        0 <= k < d.len(),
        !has_id(s, d[k].id@),
    ensures
        d.filter_map(removal_fn(s)).contains(Intent::Remove { permission: d[k] }),
    decreases d.len(),
{
    let fm = d.filter_map(removal_fn(s));
    let rest = d.drop_last();
    let rfm = rest.filter_map(removal_fn(s));
    if k == d.len() - 1 {
        assert(fm == rfm + seq![Intent::Remove { permission: d.last() }]);
        assert(fm[fm.len() - 1] == (Intent::Remove { permission: d[k] }));
    } else {
        assert(rest[k] == d[k]);
        lemma_removals_complete(s, rest, k);
        let j = choose|j: int|
            0 <= j < rfm.len() && rfm[j] == (Intent::Remove { permission: d[k] });
        if has_id(s, d.last().id@) {
            assert(fm == rfm);
        } else {
            assert(fm == rfm + seq![Intent::Remove { permission: d.last() }]);
        }
        assert(fm[j] == (Intent::Remove { permission: d[k] }));
    }
}

/// Absence of an id in a directory and failure of the last-write-wins
/// lookup are the same thing.
pub proof fn lemma_find_last_none(d: Seq<Permission>, id: Seq<char>)
    ensures
        (find_last(d, id) is None) <==> !has_id(d, id),
    decreases d.len(),
{
    if d.len() == 0 {
    } else {
        let rest = d.drop_last();
        lemma_find_last_none(rest, id);
        assert(forall|i: int| 0 <= i < rest.len() ==> rest[i] == d[i]);
        if d.last().id@ == id {
            assert(d[d.len() - 1].id@ == id);
        } else {
            if has_id(d, id) {
                let w = choose|i: int| 0 <= i < d.len() && d[i].id@ == id;
                assert(w < d.len() - 1);
                assert(rest[w].id@ == id);
            }
            if has_id(rest, id) {
                let w = choose|i: int| 0 <= i < rest.len() && rest[i].id@ == id;
                assert(d[w].id@ == id);
            }
        }
    }
}

/// Under distinct ids the last-write-wins lookup finds exactly the one
/// grant that carries the id.
pub proof fn lemma_find_last_unique(d: Seq<Permission>, k: int)
    requires
        distinct_ids(d),
        0 <= k < d.len(),
    ensures
        find_last(d, d[k].id@) == Some(d[k]),
    decreases d.len(),
{
    if k == d.len() - 1 {
    } else {
        let rest = d.drop_last();
        assert(d.last().id@ != d[k].id@);
        assert(forall|i: int| 0 <= i < rest.len() ==> rest[i] == d[i]);
        assert(distinct_ids(rest));
        lemma_find_last_unique(rest, k);
    }
}

/// Diff completeness over positions: the first `s.len()` intents are, in
/// source order, exactly what each source grant produces against `d` —
/// never a `Remove`, always about that grant's id, and an `Add` whenever
/// the id is absent from the destination; every later intent is a `Remove`
/// of some destination grant whose id the source does not carry; and every
/// such destination grant does get a `Remove`.
pub proof fn lemma_diff_completeness(s: Seq<Permission>, d: Seq<Permission>)
    ensures
        diff_spec(s, d).len() == s.len() + d.filter_map(removal_fn(s)).len(),
        forall|i: int| 0 <= i < s.len() ==> #[trigger] diff_spec(s, d)[i] == intent_for(s[i], d),
        forall|i: int|
            0 <= i < s.len() ==> intent_id(#[trigger] diff_spec(s, d)[i]) == s[i].id@ && !(
            diff_spec(s, d)[i] is Remove),
        forall|i: int|
            0 <= i < s.len() && !has_id(d, s[i].id@) ==> #[trigger] diff_spec(s, d)[i]
                == (Intent::Add { permission: s[i] }),
        forall|j: int|
            s.len() <= j < diff_spec(s, d).len() ==> exists|k: int|
                0 <= k < d.len() && !has_id(s, d[k].id@) && #[trigger] diff_spec(s, d)[j]
                    == (Intent::Remove { permission: d[k] }),
        forall|k: int|
            0 <= k < d.len() && !has_id(s, (#[trigger] d[k]).id@) ==> diff_spec(s, d).contains(
                Intent::Remove { permission: d[k] },
            ),
{
    let up = s.map_values(upsert_fn(d));
    let fm = d.filter_map(removal_fn(s));
    assert(diff_spec(s, d) == up + fm);
    assert forall|i: int| 0 <= i < s.len() implies #[trigger] diff_spec(s, d)[i] == intent_for(
        s[i],
        d,
    ) by {
        assert((up + fm)[i] == up[i]);
    }
    assert forall|i: int| 0 <= i < s.len() implies intent_id(#[trigger] diff_spec(s, d)[i])
        == s[i].id@ && !(diff_spec(s, d)[i] is Remove) by {
        assert(diff_spec(s, d)[i] == intent_for(s[i], d));
    }
    assert forall|i: int| 0 <= i < s.len() && !has_id(d, s[i].id@) implies #[trigger] diff_spec(
        s,
        d,
    )[i] == (Intent::Add { permission: s[i] }) by {
        lemma_find_last_none(d, s[i].id@);
    }
    lemma_removals_shape(s, d);
    assert forall|j: int| s.len() <= j < diff_spec(s, d).len() implies exists|k: int|
        0 <= k < d.len() && !has_id(s, d[k].id@) && #[trigger] diff_spec(s, d)[j]
            == (Intent::Remove { permission: d[k] }) by {
        assert(diff_spec(s, d)[j] == fm[j - s.len()]);
        let k = choose|k: int|
            0 <= k < d.len() && !has_id(s, d[k].id@) && fm[j - s.len()] == (Intent::Remove {
                permission: d[k],
            });
        assert(diff_spec(s, d)[j] == (Intent::Remove { permission: d[k] }));
    }
    assert forall|k: int| 0 <= k < d.len() && !has_id(s, (#[trigger] d[k]).id@) implies diff_spec(
        s,
        d,
    ).contains(Intent::Remove { permission: d[k] }) by {
        lemma_removals_complete(s, d, k);
        let j = choose|j: int|
            0 <= j < fm.len() && fm[j] == (Intent::Remove { permission: d[k] });
        assert(diff_spec(s, d)[s.len() + j] == (Intent::Remove { permission: d[k] }));
    }
}

/// Diff completeness per id: when both directories carry distinct ids,
/// every id present in the source or the destination is spoken about by
/// exactly one intent, and an id present in neither by none.
pub proof fn lemma_diff_exactly_one(s: Seq<Permission>, d: Seq<Permission>, id: Seq<char>)
    requires
        distinct_ids(s),
        distinct_ids(d),
    ensures
        count_with_id(diff_spec(s, d), id) == (if has_id(s, id) || has_id(d, id) {
            1nat
        } else {
            0nat
        }),
{
    lemma_count_concat(s.map_values(upsert_fn(d)), d.filter_map(removal_fn(s)), id);
    lemma_count_upserts(s, d, id);
    lemma_count_removals(s, d, id);
    lemma_count_grants_unique(s, id);
    lemma_count_grants_unique(d, id);
}

/// Diff determinism: the diff is a function of its two inputs alone, so
/// two results computed from identical inputs are identical, in order and
/// in content.
pub proof fn lemma_diff_deterministic(
    s: Seq<Permission>,
    d: Seq<Permission>,
    r1: Seq<Intent>,
    r2: Seq<Intent>,
)
    requires
        r1 == diff_spec(s, d),
        r2 == diff_spec(s, d),
    ensures
        r1 == r2,
{
}

/// No-op detection: when the destination carries the same id as a source
/// grant at the same level, the diff emits a `NoOp` for that grant.
pub proof fn lemma_noop_for_matching_grant(s: Seq<Permission>, d: Seq<Permission>, i: int, k: int)
    requires
        distinct_ids(d),
        0 <= i < s.len(),
        0 <= k < d.len(),
        d[k].id@ == s[i].id@,
        d[k].permission == s[i].permission,
    ensures
        diff_spec(s, d)[i] == (Intent::NoOp { id: s[i].id }),
{
    lemma_find_last_unique(d, k);
    assert(find_last(d, s[i].id@) == Some(d[k]));
    lemma_diff_completeness(s, d);
}

} // verus!
