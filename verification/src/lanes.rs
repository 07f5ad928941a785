//! What the lane assignment promises. Entries are walked in the index's
//! sorted order; each one receives the smallest lane not taken by an earlier
//! entry that is still open (its end lies past the new entry's start). On a
//! sorted sequence "earlier and still open" is the same as "overlapping",
//! so no two overlapping entries ever share a lane, and no entry could have
//! taken a smaller lane at the moment it was assigned.

use vstd::prelude::*;

use crate::index::EntryView;

verus! {

/// Entry `j` precedes entry `i` in the traversal and is still open when `i`
/// is assigned its lane.
pub open spec fn conflict(s: Seq<EntryView>, j: int, i: int) -> bool {
    0 <= j < i < s.len() && s[j].iv.end > s[i].iv.start
}

/// Lane `l` is already taken, at the moment entry `i` is assigned, by some
/// earlier still-open entry.
pub open spec fn lane_taken(s: Seq<EntryView>, lanes: Seq<int>, i: int, l: int) -> bool {
    exists|j: int| #[trigger] conflict(s, j, i) && lanes[j] == l
}

/// The greedy lane assignment, characterized over the first `n` entries:
/// lanes are non-negative, no entry shares a lane with an earlier still-open
/// entry, and every lane below an assigned one was taken at that moment.
/// These clauses pin the assignment down completely: there is exactly one
/// lane sequence satisfying them for a given traversal order.
pub open spec fn lanes_greedy_upto(s: Seq<EntryView>, lanes: Seq<int>, n: int) -> bool {
    &&& (forall|i: int| 0 <= i < n ==> 0 <= #[trigger] lanes[i])
    &&& (forall|j: int, i: int| #[trigger] conflict(s, j, i) && i < n ==> lanes[j] != lanes[i])
    &&& (forall|i: int, l: int|
        0 <= i < n && 0 <= l < lanes[i] ==> #[trigger] lane_taken(s, lanes, i, l))
}

/// The greedy lane assignment over all entries.
pub open spec fn lanes_greedy(s: Seq<EntryView>, lanes: Seq<int>) -> bool {
    lanes.len() == s.len() && lanes_greedy_upto(s, lanes, s.len() as int)
}

/// Whether the entry at `k` overlaps some other stored entry; iteration
/// reports this so the renderer can let lone entries span the full width.
pub open spec fn overlaps_other(s: Seq<EntryView>, k: int) -> bool {
    exists|j: int| 0 <= j < s.len() && j != k && (#[trigger] s[j].iv).overlaps(s[k].iv)
}

/// The lane numbers of a layout, as mathematical integers.
pub open spec fn lane_ints(lanes: Seq<usize>) -> Seq<int> {
    lanes.map_values(|l: usize| l as int)
}

} // verus!
