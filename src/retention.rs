use vstd::prelude::*;

use crate::snapshot::{views, SnapshotModel, VmSnapshot};

verus! {

/// How many snapshots exceed the retained minimum: `max(0, n - min)`,
/// and never more than there are.
pub open spec fn deletable_count(n: int, min_snapshot_count: int) -> int {
    if n - min_snapshot_count < 0 {
        0
    } else if min_snapshot_count < 0 {
        n
    } else {
        n - min_snapshot_count
    }
}

/// Record `i` comes before record `j` in age: it is older, or as old and
/// listed earlier.
pub open spec fn listed_before(s: Seq<SnapshotModel>, i: usize, j: usize) -> bool {
    s[i as int].date < s[j as int].date || (s[i as int].date == s[j as int].date && i < j)
}

/// `idx` picks records of `s`, oldest first, and every record it leaves out
/// is younger than every record it picks.
pub open spec fn is_oldest_selection(s: Seq<SnapshotModel>, idx: Seq<usize>) -> bool {
    &&& forall|t: int| 0 <= t < idx.len() ==> #[trigger] idx[t] < s.len()
    &&& forall|t1: int, t2: int|
        0 <= t1 < t2 < idx.len() ==> listed_before(s, #[trigger] idx[t1], #[trigger] idx[t2])
    &&& forall|j: usize, t: int|
        j < s.len() && !idx.contains(j) && 0 <= t < idx.len() ==> #[trigger] listed_before(
            s,
            idx[t],
            j,
        )
}

/// `r` holds the records of `s` that `idx` picks, in its order.
pub open spec fn picked(s: Seq<SnapshotModel>, idx: Seq<usize>, r: Seq<SnapshotModel>) -> bool {
    &&& r.len() == idx.len()
    &&& forall|t: int| 0 <= t < idx.len() ==> #[trigger] r[t] == s[idx[t] as int]
}

/// The snapshots to delete: the oldest `deletable_count` of the listing,
/// oldest first, records of equal age in listing order.
pub open spec fn is_deletion_set(s: Seq<SnapshotModel>, min_snapshot_count: int, r: Seq<SnapshotModel>) -> bool {
    &&& r.len() == deletable_count(s.len() as int, min_snapshot_count)
    &&& exists|idx: Seq<usize>| is_oldest_selection(s, idx) && #[trigger] picked(s, idx, r)
}

pub(crate) fn copy_snapshot(s: &VmSnapshot) -> (r: VmSnapshot)
    ensures
        r@ == s@,
{
    VmSnapshot { vm_name: s.vm_name.clone(), date: s.date, snapsnot_name: s.snapsnot_name.clone() }
}

/// The indices of the records, ordered by age, records of equal age in
/// listing order.
fn age_order(s: &Vec<VmSnapshot>) -> (ord: Vec<usize>)
    ensures
        ord.len() == s.len(),
        forall|t: int| 0 <= t < ord.len() ==> #[trigger] ord[t] < s.len(),
        forall|j: usize| j < s.len() ==> ord@.contains(j),
        forall|t1: int, t2: int|
            0 <= t1 < t2 < ord.len() ==> listed_before(views(s@), #[trigger] ord[t1], #[trigger] ord[t2]),
{
    let n = s.len();
    let ghost v = views(s@);
    let mut ord: Vec<usize> = Vec::new();
    let mut i: usize = 0;
    while i < n
        invariant
            i <= n,
            n == s.len(),
            v == views(s@),
            ord.len() == i,
            forall|t: int| 0 <= t < ord.len() ==> #[trigger] ord[t] < i,
            forall|j: usize| j < i ==> ord@.contains(j),
            forall|t1: int, t2: int|
                0 <= t1 < t2 < ord.len() ==> listed_before(v, #[trigger] ord[t1], #[trigger] ord[t2]),
        decreases n - i,
    {
        let d = s[i].date;
        let mut pos: usize = 0;
        while pos < ord.len() && s[ord[pos]].date <= d
            invariant
                pos <= ord.len(),
                ord.len() == i,
                i < n,
                n == s.len(),
                v == views(s@),
                d == v[i as int].date,
                forall|t: int| 0 <= t < ord.len() ==> #[trigger] ord[t] < i,
                forall|t: int| 0 <= t < pos ==> v[#[trigger] ord[t] as int].date <= d,
            decreases ord.len() - pos,
        {
            pos = pos + 1;
        }
        let ghost old_ord = ord@;
        ord.insert(pos, i);
        proof {
            assert(ord@ == old_ord.insert(pos as int, i));
            assert forall|t: int| 0 <= t < ord.len() implies #[trigger] ord[t] < i + 1 by {
                if t < pos {
                    assert(ord[t] == old_ord[t]);
                } else if t > pos {
                    assert(ord[t] == old_ord[t - 1]);
                }
            }
            assert forall|j: usize| j < i + 1 implies ord@.contains(j) by {
                if j == i {
                    assert(ord[pos as int] == i);
                } else {
                    assert(old_ord.contains(j));
                    let t = choose|t: int| 0 <= t < old_ord.len() && old_ord[t] == j;
                    if t < pos {
                        assert(ord[t] == j);
                    } else {
                        assert(ord[t + 1] == j);
                    }
                }
            }
            assert forall|t1: int, t2: int| 0 <= t1 < t2 < ord.len() implies listed_before(
                v,
                #[trigger] ord[t1],
                #[trigger] ord[t2],
            ) by {
                if t1 < pos && t2 < pos {
                    assert(ord[t1] == old_ord[t1] && ord[t2] == old_ord[t2]);
                } else if t1 < pos && t2 == pos {
                    assert(ord[t1] == old_ord[t1]);
                    assert(v[old_ord[t1] as int].date <= d);
                } else if t1 < pos && t2 > pos {
                    assert(ord[t1] == old_ord[t1] && ord[t2] == old_ord[t2 - 1]);
                } else if t1 == pos {
                    assert(ord[t2] == old_ord[t2 - 1]);
                    assert(pos < old_ord.len());
                    assert(v[old_ord[pos as int] as int].date > d);
                    if t2 - 1 > pos {
                        assert(listed_before(v, old_ord[pos as int], old_ord[t2 - 1]));
                    }
                } else {
                    assert(ord[t1] == old_ord[t1 - 1] && ord[t2] == old_ord[t2 - 1]);
                }
            }
        }
        i = i + 1;
    }
    ord
}

/// The snapshots that the retention policy lets go: `max(0, n - min_snapshot_count)`
/// of them, the oldest, oldest first; none when `n <= min_snapshot_count`.
pub fn select_for_deletion(snapshots: &Vec<VmSnapshot>, min_snapshot_count: i32) -> (r: Vec<VmSnapshot>)
    ensures
        is_deletion_set(views(snapshots@), min_snapshot_count as int, views(r@)),
{
    let n = snapshots.len();
    let take: usize = if min_snapshot_count < 0 {
        n
    } else if n <= min_snapshot_count as usize {
        0
    } else {
        n - (min_snapshot_count as usize)
    };
    let ord = age_order(snapshots);
    let ghost v = views(snapshots@);
    let mut r: Vec<VmSnapshot> = Vec::new();
    let mut t: usize = 0;
    while t < take
        invariant
            t <= take <= n,
            n == snapshots.len(),
            ord.len() == n,
            v == views(snapshots@),
            forall|u: int| 0 <= u < ord.len() ==> #[trigger] ord[u] < n,
            picked(v, ord@.take(t as int), views(r@)),
        decreases take - t,
    {
        let rec = copy_snapshot(&snapshots[ord[t]]);
        let ghost old_r = views(r@);
        assert(rec@ == v[ord[t as int] as int]);
        r.push(rec);
        t = t + 1;
        assert(views(r@) =~= old_r.push(rec@));
        assert forall|u: int| 0 <= u < t implies #[trigger] views(r@)[u] == v[ord@.take(t as int)[u] as int] by {
            if u < t - 1 {
                assert(ord@.take(t as int)[u] == ord@.take(t - 1)[u]);
                assert(views(r@)[u] == old_r[u]);
                assert(old_r[u] == v[ord@.take(t - 1)[u] as int]);
            }
        }
    }
    let ghost idx = ord@.take(take as int);
    assert(is_oldest_selection(v, idx)) by {
        assert forall|j: usize, u: int| j < v.len() && !idx.contains(j) && 0 <= u < idx.len() implies #[trigger] listed_before(
            v,
            idx[u],
            j,
        ) by {
            assert(ord@.contains(j));
            let p = choose|p: int| 0 <= p < ord.len() && ord[p] == j;
            if p < take {
                assert(idx[p] == j);
            }
            assert(idx[u] == ord[u]);
        }
        assert forall|t1: int, t2: int| 0 <= t1 < t2 < idx.len() implies listed_before(
            v,
            #[trigger] idx[t1],
            #[trigger] idx[t2],
        ) by {
            assert(idx[t1] == ord[t1] && idx[t2] == ord[t2]);
        }
    }
    assert(picked(v, idx, views(r@)));
    r
}

/// The listing positions that a selection leaves in place.
pub open spec fn survivors(s: Seq<SnapshotModel>, idx: Seq<usize>) -> Set<int> {
    vstd::set_lib::set_int_range(0, s.len() as int).difference(idx.map_values(|x: usize| x as int).to_set())
}

proof fn lemma_survivor_count(s: Seq<SnapshotModel>, idx: Seq<usize>)
    requires
        is_oldest_selection(s, idx),
    ensures
        survivors(s, idx).finite(),
        survivors(s, idx).len() == s.len() - idx.len(),
{
    let n = s.len() as int;
    let m = idx.map_values(|x: usize| x as int);
    let range = vstd::set_lib::set_int_range(0, n);
    vstd::set_lib::lemma_int_range(0, n);
    assert(m.no_duplicates()) by {
        assert forall|a: int, b: int| 0 <= a < m.len() && 0 <= b < m.len() && a != b implies m[a] != m[b] by {
            if a < b {
                assert(listed_before(s, idx[a], idx[b]));
            } else {
                assert(listed_before(s, idx[b], idx[a]));
            }
        }
    }
    m.unique_seq_to_set();
    assert(m.to_set().subset_of(range)) by {
        assert forall|x: int| m.to_set().contains(x) implies range.contains(x) by {
            let t = choose|t: int| 0 <= t < m.len() && m[t] == x;
            assert(idx[t] < s.len());
        }
    }
    vstd::set_lib::lemma_len_subset(m.to_set(), range);
    assert(range.intersect(m.to_set()) =~= m.to_set());
    vstd::set_lib::lemma_set_difference_len(range, m.to_set());
}

/// Pruning twice with no snapshot created in between deletes nothing the
/// second time: what the first deletions leave is within the policy, so a
/// listing of it has nothing to delete.
pub proof fn lemma_prune_idempotent(
    s: Seq<SnapshotModel>,
    min_snapshot_count: int,
    idx: Seq<usize>,
    second: Seq<SnapshotModel>,
)
    requires
        is_oldest_selection(s, idx),
        idx.len() == deletable_count(s.len() as int, min_snapshot_count),
        second.len() == survivors(s, idx).len(),
    ensures
        deletable_count(second.len() as int, min_snapshot_count) == 0,
        forall|r: Seq<SnapshotModel>| #[trigger] is_deletion_set(second, min_snapshot_count, r) ==> r.len() == 0,
{
    lemma_survivor_count(s, idx);
}

} // verus!
