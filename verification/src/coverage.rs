//! How deeply the stored intervals overlap. The overlap degree of an index
//! is the largest number of intervals that simultaneously cover one time
//! instant; the lemmas here show that this maximum is always reached at the
//! start of some stored interval, and give the counting facts the lane
//! assignment proofs rest on.

use vstd::prelude::*;

use vstd::relations::injective_on;
use vstd::set_lib::{lemma_int_range, lemma_len_subset, lemma_map_size, set_int_range};

use crate::index::EntryView;

verus! {

/// Indices, among the first `n` entries, of the intervals covering
/// instant `t`.
pub open spec fn covering_upto(s: Seq<EntryView>, t: int, n: int) -> Set<int> {
    Set::new(|i: int| 0 <= i < n && s[i].iv.covers(t))
}

/// Indices of all stored intervals covering instant `t`.
pub open spec fn covering_set(s: Seq<EntryView>, t: int) -> Set<int> {
    covering_upto(s, t, s.len() as int)
}

/// How many stored intervals cover instant `t`.
pub open spec fn cover_count(s: Seq<EntryView>, t: int) -> nat {
    covering_set(s, t).len()
}

/// What it means for `d` to be the overlap degree of the entries `s`:
/// no instant is covered by more than `d` intervals and, unless the index
/// is empty, some instant is covered by exactly `d`.
pub open spec fn is_max_degree(s: Seq<EntryView>, d: int) -> bool {
    &&& forall|t: int| cover_count(s, t) <= d
    &&& (s.len() == 0 ==> d == 0)
    &&& (s.len() > 0 ==> exists|t: int| cover_count(s, t) == d)
}

/// A covering set is finite and no larger than the prefix it draws from.
pub proof fn lemma_covering_finite(s: Seq<EntryView>, t: int, n: int)
    requires
        0 <= n,
    ensures
        covering_upto(s, t, n).finite(),
        covering_upto(s, t, n).len() <= n,
{
    lemma_int_range(0, n);
    assert(covering_upto(s, t, n).subset_of(set_int_range(0, n)));
    lemma_len_subset(covering_upto(s, t, n), set_int_range(0, n));
}

/// Among the first `n` entries covering `t`, one has the largest start.
proof fn lemma_max_start_covering(s: Seq<EntryView>, t: int, n: int) -> (i: int)
    requires
        0 <= n <= s.len(),
        exists|j: int| 0 <= j < n && (#[trigger] s[j].iv).covers(t),
    ensures
        0 <= i < n,
        s[i].iv.covers(t),
        forall|j: int| 0 <= j < n && (#[trigger] s[j].iv).covers(t) ==> s[j].iv.start
            <= s[i].iv.start,
    decreases n,
{
    if s[n - 1].iv.covers(t) {
        if exists|j: int| 0 <= j < n - 1 && (#[trigger] s[j].iv).covers(t) {
            let k = lemma_max_start_covering(s, t, n - 1);
            if s[k].iv.start >= s[n - 1].iv.start {
                k
            } else {
                n - 1
            }
        } else {
            n - 1
        }
    } else {
        lemma_max_start_covering(s, t, n - 1)
    }
}

/// Whatever instant one looks at, the start of some stored interval is
/// covered at least as deeply: the coverage maximum is reached at a start.
pub proof fn lemma_cover_peaks_at_start(s: Seq<EntryView>, t: int) -> (i: int)
    requires
        exists|j: int| 0 <= j < s.len() && (#[trigger] s[j].iv).covers(t),
    ensures
        0 <= i < s.len(),
        cover_count(s, t) <= cover_count(s, s[i].iv.start),
{
    let n = s.len() as int;
    let i = lemma_max_start_covering(s, t, n);
    let u = s[i].iv.start;
    assert forall|j: int| covering_set(s, t).contains(j) implies covering_set(s, u).contains(
        j,
    ) by {
        assert(s[j].iv.covers(t));
        assert(s[j].iv.start <= u);
        assert(u <= t < s[j].iv.end);
    }
    lemma_covering_finite(s, u, n);
    lemma_len_subset(covering_set(s, t), covering_set(s, u));
    i
}

/// Pigeonhole: `k` pairwise distinct values inside `[0, n)` force `k <= n`.
/// `f` names, for each of `k` slots, which value stands in it.
pub proof fn lemma_injective_into_range(k: int, n: int, f: spec_fn(int) -> int)
    requires
        0 <= k,
        0 <= n,
        forall|l: int| 0 <= l < k ==> 0 <= #[trigger] f(l) < n,
        forall|l1: int, l2: int| 0 <= l1 < l2 < k ==> #[trigger] f(l1) != #[trigger] f(l2),
    ensures
        k <= n,
{
    lemma_int_range(0, k);
    let x = set_int_range(0, k);
    let y = x.map(f);
    assert(injective_on(f, x)) by {
        assert forall|l1: int, l2: int|
            x.contains(l1) && x.contains(l2) && #[trigger] f(l1) == #[trigger] f(
                l2,
            ) implies l1 == l2 by {
            if l1 < l2 {
                assert(f(l1) != f(l2));
            }
            if l2 < l1 {
                assert(f(l2) != f(l1));
            }
        }
    }
    lemma_map_size(x, y, f);
    lemma_int_range(0, n);
    assert(y.subset_of(set_int_range(0, n)));
    lemma_len_subset(y, set_int_range(0, n));
}

} // verus!
