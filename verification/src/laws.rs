//! The laws the layering index obeys, stated once over the mathematical
//! views so that callers need not re-derive them from the individual
//! contracts: overlapping entries never share a lane, the overlap degree is
//! unique, and the greedy assignment uses exactly `overlap degree` lanes.

use vstd::prelude::*;

use vstd::relations::injective_on;
use vstd::set_lib::{lemma_int_range, lemma_len_subset, lemma_map_size, set_int_range};

use crate::coverage::{
    cover_count, covering_set, is_max_degree, lemma_covering_finite,
};
use crate::index::{index_wf, key_le, EntryView};
use crate::lanes::{conflict, lane_taken, lanes_greedy};

verus! {

/// No lane collision: any two distinct entries whose intervals overlap are
/// assigned different lanes by a greedy assignment.
pub proof fn lemma_no_lane_collision(s: Seq<EntryView>, lanes: Seq<int>)
    requires
        index_wf(s),
        lanes_greedy(s, lanes),
    ensures
        forall|i: int, j: int|
            0 <= i < s.len() && 0 <= j < s.len() && i != j && (#[trigger] s[i].iv).overlaps(
                (#[trigger] s[j].iv),
            ) ==> lanes[i] != lanes[j],
{
    assert forall|i: int, j: int|
        0 <= i < s.len() && 0 <= j < s.len() && i != j && (#[trigger] s[i].iv).overlaps(
            (#[trigger] s[j].iv),
        ) implies lanes[i] != lanes[j] by {
        if i < j {
            assert(conflict(s, i, j));
        } else {
            assert(conflict(s, j, i));
        }
    }
}

/// The largest lane a greedy assignment hands out, `-1` when there are no
/// entries at all.
pub open spec fn max_lane(lanes: Seq<int>) -> int
    decreases lanes.len(),
{
    if lanes.len() == 0 {
        -1
    } else if lanes.last() >= max_lane(lanes.drop_last()) {
        lanes.last()
    } else {
        max_lane(lanes.drop_last())
    }
}

/// `max_lane` bounds every lane and, on a nonempty assignment, is itself
/// one of the lanes.
pub proof fn lemma_max_lane_props(lanes: Seq<int>)
    requires
        forall|k: int| 0 <= k < lanes.len() ==> #[trigger] lanes[k] >= 0,
    ensures
        forall|k: int| 0 <= k < lanes.len() ==> #[trigger] lanes[k] <= max_lane(lanes),
        lanes.len() > 0 ==> exists|k: int|
            0 <= k < lanes.len() && #[trigger] lanes[k] == max_lane(lanes),
    decreases lanes.len(),
{
    if lanes.len() > 0 {
        assert forall|k: int| 0 <= k < lanes.drop_last().len() implies #[trigger] lanes.drop_last()[k]
            >= 0 by {
            assert(lanes[k] >= 0);
        }
        lemma_max_lane_props(lanes.drop_last());
        if lanes.last() >= max_lane(lanes.drop_last()) {
            assert(lanes[lanes.len() - 1] == max_lane(lanes));
        } else {
            let k = choose|k: int|
                0 <= k < lanes.drop_last().len() && #[trigger] lanes.drop_last()[k] == max_lane(
                    lanes.drop_last(),
                );
            assert(lanes[k] == max_lane(lanes));
        }
        assert forall|k: int| 0 <= k < lanes.len() implies #[trigger] lanes[k] <= max_lane(
            lanes,
        ) by {
            if k < lanes.len() - 1 {
                assert(lanes.drop_last()[k] == lanes[k]);
            }
        }
    }
}

/// Degree correctness is a property of the value alone: two numbers that
/// both satisfy `is_max_degree` for the same entries are equal.
pub proof fn lemma_max_degree_unique(s: Seq<EntryView>, d1: int, d2: int)
    requires
        is_max_degree(s, d1),
        is_max_degree(s, d2),
    ensures
        d1 == d2,
{
    if s.len() > 0 {
        let t1 = choose|t: int| cover_count(s, t) == d1;
        let t2 = choose|t: int| cover_count(s, t) == d2;
        assert(cover_count(s, t1) <= d2);
        assert(cover_count(s, t2) <= d1);
    }
}

/// The greedy assignment is tight: one more than its largest lane is
/// exactly the overlap degree of the entries. Together with
/// `lemma_max_degree_unique` this ties `overlap_degree()` to `layout()`:
/// the degree equals the number of distinct lanes the layout needs.
pub proof fn lemma_lane_count_is_degree(s: Seq<EntryView>, lanes: Seq<int>)
    requires
        index_wf(s),
        lanes_greedy(s, lanes),
    ensures
        is_max_degree(s, max_lane(lanes) + 1),
{
    let n = s.len() as int;
    let m = max_lane(lanes);
    lemma_max_lane_props(lanes);

    // No instant is covered by more than m + 1 intervals: the covering
    // entries pairwise conflict, so their lanes are pairwise distinct and
    // all lie in [0, m].
    assert forall|t: int| cover_count(s, t) <= m + 1 by {
        let c = covering_set(s, t);
        lemma_covering_finite(s, t, n);
        let g = |j: int| lanes[j];
        assert forall|j1: int, j2: int|
            c.contains(j1) && c.contains(j2) && #[trigger] g(j1) == #[trigger] g(
                j2,
            ) implies j1 == j2 by {
            if j1 < j2 {
                assert(conflict(s, j1, j2));
            }
            if j2 < j1 {
                assert(conflict(s, j2, j1));
            }
        }
        assert(injective_on(g, c));
        lemma_map_size(c, c.map(g), g);
        lemma_int_range(0, m + 1);
        assert forall|l: int| c.map(g).contains(l) implies set_int_range(0, m + 1).contains(
            l,
        ) by {
            let j = choose|j: int| c.contains(j) && g(j) == l;
            assert(0 <= lanes[j] <= m);
        }
        lemma_len_subset(c.map(g), set_int_range(0, m + 1));
    }

    // Unless the index is empty, the instant where the entry holding the
    // largest lane starts is covered by m + 1 intervals: that entry itself,
    // and one distinct conflicting entry per smaller lane.
    if s.len() > 0 {
        let i = choose|k: int| 0 <= k < lanes.len() && #[trigger] lanes[k] == m;
        let t = s[i].iv.start;
        assert(0 <= m) by {
            assert(lanes[i] >= 0);
        }
        let h = |l: int|
            if l == m {
                i
            } else {
                choose|j: int| #[trigger] conflict(s, j, i) && lanes[j] == l
            };
        assert forall|l: int| 0 <= l < m + 1 implies covering_set(s, t).contains(#[trigger] h(l))
            && lanes[h(l)] == l by {
            if l == m {
                assert(s[i].iv.valid());
                assert(s[i].iv.covers(t));
            } else {
                assert(lane_taken(s, lanes, i, l));
                let j = h(l);
                assert(conflict(s, j, i) && lanes[j] == l);
                assert(key_le(s[j].iv, s[i].iv));
                assert(s[j].iv.covers(t));
            }
        }
        lemma_int_range(0, m + 1);
        let x = set_int_range(0, m + 1);
        let y = x.map(h);
        assert forall|l1: int, l2: int|
            x.contains(l1) && x.contains(l2) && #[trigger] h(l1) == #[trigger] h(
                l2,
            ) implies l1 == l2 by {
            assert(lanes[h(l1)] == l1);
            assert(lanes[h(l2)] == l2);
        }
        assert(injective_on(h, x));
        lemma_map_size(x, y, h);
        lemma_covering_finite(s, t, n);
        assert forall|k: int| y.contains(k) implies covering_set(s, t).contains(k) by {
            let l = choose|l: int| x.contains(l) && h(l) == k;
            assert(covering_set(s, t).contains(h(l)));
        }
        lemma_len_subset(y, covering_set(s, t));
        assert(cover_count(s, t) >= m + 1);
        assert(cover_count(s, t) == m + 1);
    }
}

} // verus!
