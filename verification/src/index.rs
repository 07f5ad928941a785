//! The interval layering index: owns all `(interval, label)` entries of one
//! day, kept sorted by ascending start and, on equal starts, ascending end
//! (entries equal on both keys keep their insertion order). The sorted order
//! is also the traversal order that lane assignment and iteration use.

use vstd::prelude::*;

use crate::coverage::{cover_count, covering_set, covering_upto, is_max_degree, lemma_cover_peaks_at_start, lemma_covering_finite, lemma_injective_into_range};
use crate::lanes::{conflict, lane_ints, lane_taken, lanes_greedy, lanes_greedy_upto, overlaps_other};
use crate::interval::{Interval, IntervalView};

verus! {

/// One stored entry: a validated interval carrying an opaque display label.
pub struct Entry {
    pub interval: Interval,
    pub label: String,
}

/// Mathematical image of an entry.
pub struct EntryView {
    pub iv: IntervalView,
    pub label: Seq<char>,
}

impl View for Entry {
    type V = EntryView;

    open spec fn view(&self) -> EntryView {
        EntryView { iv: self.interval@, label: self.label@ }
    }
}

/// The order the index keeps its entries in: ascending start,
/// ties broken by ascending end.
pub open spec fn key_le(a: IntervalView, b: IntervalView) -> bool {
    a.start < b.start || (a.start == b.start && a.end <= b.end)
}

/// The entries stand in key order.
pub open spec fn entries_sorted(s: Seq<EntryView>) -> bool {
    forall|i: int, j: int| 0 <= i < j < s.len() ==> key_le(s[i].iv, s[j].iv)
}

/// Every stored interval is well formed.
pub open spec fn entries_valid(s: Seq<EntryView>) -> bool {
    forall|i: int| 0 <= i < s.len() ==> (#[trigger] s[i].iv).valid()
}

/// What always holds of an index's contents.
pub open spec fn index_wf(s: Seq<EntryView>) -> bool {
    entries_sorted(s) && entries_valid(s)
}

/// Stores a set of `(interval, label)` entries, reports how deeply the
/// intervals overlap, and assigns each entry a rendering lane.
pub struct IntervalLayerIndex {
    entries: Vec<Entry>,
}

impl View for IntervalLayerIndex {
    type V = Seq<EntryView>;

    closed spec fn view(&self) -> Seq<EntryView> {
        self.entries@.map_values(|e: Entry| e@)
    }
}

impl IntervalLayerIndex {
    /// The index never stores anything but sorted, valid entries.
    pub open spec fn inv(&self) -> bool {
        index_wf(self@)
    }

    /// An empty index: no entries, overlap degree zero.
    pub fn new() -> (r: IntervalLayerIndex)
        ensures
            r.inv(),
            r@ == Seq::<EntryView>::empty(),
    {
        let r = IntervalLayerIndex { entries: Vec::new() };
        proof {
            assert(r@ =~= Seq::<EntryView>::empty());
        }
        r
    }

    /// Number of entries stored so far.
    pub fn len(&self) -> (n: usize)
        ensures
            n == self@.len(),
    {
        self.entries.len()
    }

    /// Whether no entry has been stored yet.
    pub fn is_empty(&self) -> (b: bool)
        ensures
            b == (self@.len() == 0),
    {
        self.entries.len() == 0
    }

    /// Stores one entry. The interval is already validated by construction,
    /// so insertion is total: no entry is ever rejected or dropped here.
    /// The entry goes after every stored entry whose key is less than or
    /// equal to its own and before all others, which keeps the entries
    /// sorted and makes equal keys keep their arrival order.
    pub fn add(&mut self, interval: Interval, label: String)
        requires
            old(self).inv(),
        ensures
            final(self).inv(),
            final(self)@.len() == old(self)@.len() + 1,
            exists|p: int|
                {
                    &&& 0 <= p <= old(self)@.len()
                    &&& final(self)@ == old(self)@.insert(
                        p,
                        (EntryView { iv: interval@, label: label@ }),
                    )
                    &&& (forall|j: int| 0 <= j < p ==> key_le(old(self)@[j].iv, interval@))
                    &&& (forall|j: int|
                        p <= j < old(self)@.len() ==> !key_le(old(self)@[j].iv, interval@))
                },
    {
        proof {
            use_type_invariant(&interval);
        }
        let ghost s0 = self@;
        let ghost ev = EntryView { iv: interval@, label: label@ };
        let mut p: usize = 0;
        while p < self.entries.len() && key_le_exec(&self.entries[p].interval, &interval)
            invariant
                old(self).inv(),
                self == old(self),
                p <= self@.len(),
                forall|j: int| 0 <= j < p ==> key_le(self@[j].iv, interval@),
            decreases self@.len() - p,
        {
            p = p + 1;
        }
        proof {
            assert forall|j: int| p <= j < s0.len() implies !key_le(s0[j].iv, interval@) by {
                assert(key_le(s0[p as int].iv, s0[j].iv));
            }
        }
        self.entries.insert(p, Entry { interval, label });
        proof {
            assert(self@ =~= s0.insert(p as int, ev));
            assert forall|i: int, j: int| 0 <= i < j < self@.len() implies key_le(
                self@[i].iv,
                self@[j].iv,
            ) by {
                if j < p {
                    assert(key_le(s0[i].iv, s0[j].iv));
                } else if i < p && j == p {
                    assert(key_le(s0[i].iv, interval@));
                } else if i < p && j > p {
                    assert(key_le(s0[i].iv, s0[j - 1].iv));
                } else if i == p {
                    assert(!key_le(s0[j - 1].iv, interval@));
                } else {
                    assert(key_le(s0[i - 1].iv, s0[j - 1].iv));
                }
            }
            assert(entries_sorted(self@));
            assert forall|i: int| 0 <= i < self@.len() implies (#[trigger] self@[i].iv).valid() by {
                if i < p {
                    assert(s0[i].iv.valid());
                } else if i > p {
                    assert(s0[i - 1].iv.valid());
                }
            }
            assert(entries_valid(self@));
        }
    }

    /// How many stored intervals cover the instant `t`.
    pub fn count_covering_at(&self, t: u32) -> (c: usize)
        ensures
            c == cover_count(self@, t as int),
    {
        let ghost s = self@;
        let n = self.entries.len();
        let mut c: usize = 0;
        let mut i: usize = 0;
        proof {
            assert(covering_upto(s, t as int, 0) =~= Set::<int>::empty());
        }
        while i < n
            invariant
                n == s.len(),
                s == self@,
                i <= n,
                c == covering_upto(s, t as int, i as int).len(),
                c <= i,
            decreases n - i,
        {
            let e = &self.entries[i];
            let covered = e.interval.start() <= t && t < e.interval.end();
            proof {
                lemma_covering_finite(s, t as int, i as int);
                if covered {
                    assert(covering_upto(s, t as int, i + 1) =~= covering_upto(
                        s,
                        t as int,
                        i as int,
                    ).insert(i as int));
                } else {
                    assert(covering_upto(s, t as int, i + 1) =~= covering_upto(
                        s,
                        t as int,
                        i as int,
                    ));
                }
            }
            if covered {
                c = c + 1;
            }
            i = i + 1;
        }
        proof {
            assert(covering_upto(s, t as int, n as int) =~= covering_set(s, t as int));
        }
        c
    }

    /// The overlap degree: the largest number of stored intervals that
    /// simultaneously cover any single instant, and zero for an empty index.
    pub fn overlap_degree(&self) -> (d: usize)
        requires
            self.inv(),
        ensures
            is_max_degree(self@, d as int),
    {
        let ghost s = self@;
        let n = self.entries.len();
        let mut d: usize = 0;
        let ghost mut wt: int = 0;
        let mut i: usize = 0;
        while i < n
            invariant
                self.inv(),
                n == s.len(),
                s == self@,
                i <= n,
                forall|j: int|
                    0 <= j < i ==> cover_count(s, (#[trigger] s[j].iv).start) <= d as int,
                i == 0 ==> d == 0,
                i > 0 ==> cover_count(s, wt) == d as int,
            decreases n - i,
        {
            let st = self.entries[i].interval.start();
            let c = self.count_covering_at(st);
            if c > d {
                d = c;
                proof {
                    wt = st as int;
                }
            } else {
                if i == 0 {
                    proof {
                        wt = st as int;
                    }
                }
            }
            i = i + 1;
        }
        proof {
            assert forall|t: int| cover_count(s, t) <= d as int by {
                if exists|j: int| 0 <= j < s.len() && (#[trigger] s[j].iv).covers(t) {
                    let k = lemma_cover_peaks_at_start(s, t);
                } else {
                    assert(covering_set(s, t) =~= Set::<int>::empty());
                }
            }
        }
        d
    }

    /// The labels of every entry whose interval covers the instant `t`,
    /// in traversal order: what a "what is happening now" query shows.
    pub fn labels_at(&self, t: u32) -> (r: Vec<String>)
        ensures
            r@.map_values(|l: String| l@) == covering_labels(self@, t as int),
    {
        let ghost s = self@;
        let n = self.entries.len();
        let mut r: Vec<String> = Vec::new();
        let mut i: usize = 0;
        proof {
            assert(s.take(0) =~= Seq::<EntryView>::empty());
            assert(r@.map_values(|l: String| l@) =~= Seq::<Seq<char>>::empty());
        }
        while i < n
            invariant
                n == s.len(),
                s == self@,
                i <= n,
                r@.map_values(|l: String| l@) == covering_labels(s.take(i as int), t as int),
            decreases n - i,
        {
            let ghost pre = r@.map_values(|l: String| l@);
            let e = &self.entries[i];
            if e.interval.start() <= t && t < e.interval.end() {
                r.push(e.label.clone());
                proof {
                    assert(r@.map_values(|l: String| l@) =~= pre.push(s[i as int].label));
                }
            }
            proof {
                assert(s.take(i + 1).drop_last() =~= s.take(i as int));
                assert(s.take(i + 1).last() == s[i as int]);
                if s[i as int].iv.covers(t as int) {
                    assert(covering_labels(s.take(i + 1), t as int) =~= covering_labels(
                        s.take(i as int),
                        t as int,
                    ).push(s[i as int].label));
                }
            }
            i = i + 1;
        }
        proof {
            assert(s.take(n as int) =~= s);
        }
        r
    }

    /// Whether lane `lane` is already taken, at the moment entry `i` is
    /// assigned, by an earlier still-open entry.
    fn lane_used(&self, lanes: &Vec<usize>, i: usize, lane: usize) -> (b: bool)
        requires
            lanes@.len() == i,
            i < self@.len(),
        ensures
            b == lane_taken(self@, lane_ints(lanes@), i as int, lane as int),
    {
        let ghost s = self@;
        let ghost li = lane_ints(lanes@);
        let start_i = self.entries[i].interval.start();
        let mut j: usize = 0;
        while j < i
            invariant
                s == self@,
                li == lane_ints(lanes@),
                lanes@.len() == i,
                i < s.len(),
                j <= i,
                start_i == s[i as int].iv.start,
                forall|jj: int|
                    0 <= jj < j ==> !(#[trigger] conflict(s, jj, i as int) && li[jj] == lane as int),
            decreases i - j,
        {
            if self.entries[j].interval.end() > start_i && lanes[j] == lane {
                proof {
                    assert(conflict(s, j as int, i as int) && li[j as int] == lane as int);
                }
                return true;
            }
            j = j + 1;
        }
        false
    }

    /// Whether the entry at `k` overlaps some other stored entry.
    fn overlaps_any(&self, k: usize) -> (b: bool)
        requires
            k < self@.len(),
        ensures
            b == overlaps_other(self@, k as int),
    {
        let ghost s = self@;
        let n = self.entries.len();
        let sk = self.entries[k].interval.start();
        let ek = self.entries[k].interval.end();
        let mut j: usize = 0;
        while j < n
            invariant
                s == self@,
                n == s.len(),
                k < n,
                j <= n,
                sk == s[k as int].iv.start,
                ek == s[k as int].iv.end,
                forall|jj: int|
                    0 <= jj < j && jj != k ==> !(#[trigger] s[jj].iv).overlaps(s[k as int].iv),
            decreases n - j,
        {
            if j != k {
                let e = &self.entries[j];
                if e.interval.start() < ek && sk < e.interval.end() {
                    proof {
                        assert(s[j as int].iv.overlaps(s[k as int].iv));
                    }
                    return true;
                }
            }
            j = j + 1;
        }
        false
    }

    /// Assigns every entry, in traversal order, the smallest lane not taken
    /// by an earlier still-open entry.
    fn assign_lanes(&self) -> (lanes: Vec<usize>)
        requires
            self.inv(),
        ensures
            lanes@.len() == self@.len(),
            lanes_greedy(self@, lane_ints(lanes@)),
            forall|k: int| 0 <= k < self@.len() ==> #[trigger] lane_ints(lanes@)[k] <= k,
    {
        let ghost s = self@;
        let n = self.entries.len();
        let mut lanes: Vec<usize> = Vec::new();
        let mut i: usize = 0;
        while i < n
            invariant
                self.inv(),
                n == s.len(),
                s == self@,
                i <= n,
                lanes@.len() == i,
                forall|k: int| 0 <= k < i ==> #[trigger] lane_ints(lanes@)[k] <= k,
                lanes_greedy_upto(s, lane_ints(lanes@), i as int),
            decreases n - i,
        {
            let ghost li = lane_ints(lanes@);
            let mut lane: usize = 0;
            let mut used = self.lane_used(&lanes, i, lane);
            while used
                invariant
                    self.inv(),
                    n == s.len(),
                    s == self@,
                    i < n,
                    lanes@.len() == i,
                    li == lane_ints(lanes@),
                    lane <= i,
                    used == lane_taken(s, li, i as int, lane as int),
                    forall|l: int| 0 <= l < lane ==> lane_taken(s, li, i as int, l),
                decreases i - lane,
            {
                proof {
                    let f = |l: int| choose|j: int| conflict(s, j, i as int) && li[j] == l;
                    assert forall|l: int| 0 <= l < lane + 1 implies 0 <= #[trigger] f(l) < i by {
                        assert(lane_taken(s, li, i as int, l));
                        assert(exists|j: int| conflict(s, j, i as int) && li[j] == l);
                        let j = f(l);
                        assert(conflict(s, j, i as int) && li[j] == l);
                    }
                    assert forall|l1: int, l2: int|
                        0 <= l1 < l2 < lane + 1 implies #[trigger] f(l1) != #[trigger] f(l2) by {
                        assert(lane_taken(s, li, i as int, l1));
                        assert(lane_taken(s, li, i as int, l2));
                        let j1 = f(l1);
                        let j2 = f(l2);
                        assert(conflict(s, j1, i as int) && li[j1] == l1);
                        assert(conflict(s, j2, i as int) && li[j2] == l2);
                    }
                    lemma_injective_into_range(lane + 1, i as int, f);
                }
                lane = lane + 1;
                used = self.lane_used(&lanes, i, lane);
            }
            lanes.push(lane);
            proof {
                let li2 = lane_ints(lanes@);
                assert(li2 =~= li.push(lane as int));
                assert forall|k: int| 0 <= k < i + 1 implies #[trigger] li2[k] <= k by {
                    if k < i {
                        assert(li[k] <= k);
                    }
                }
                assert forall|j: int, k: int| #[trigger] conflict(s, j, k) && k < i + 1 implies li2[j]
                    != li2[k] by {
                    if k < i {
                        assert(li[j] != li[k]);
                    } else {
                        assert(!lane_taken(s, li, i as int, lane as int));
                        assert(li2[j] == li[j]);
                    }
                }
                assert forall|k: int, l: int|
                    0 <= k < i + 1 && 0 <= l < li2[k] implies #[trigger] lane_taken(
                    s,
                    li2,
                    k,
                    l,
                ) by {
                    assert(lane_taken(s, li, k, l));
                    let j = choose|j: int| conflict(s, j, k) && li[j] == l;
                    assert(conflict(s, j, k) && li2[j] == l);
                }
                assert(lanes_greedy_upto(s, li2, i + 1));
            }
            i = i + 1;
        }
        lanes
    }

    /// Walks the entries in traversal order and produces, for each one, its
    /// interval, its label, its assigned lane and whether it overlaps any
    /// other entry. No entry is ever dropped: the result holds exactly one
    /// element per stored entry, in the index's order.
    pub fn layout(&self) -> (r: Vec<LayoutEntry>)
        requires
            self.inv(),
        ensures
            r@.len() == self@.len(),
            forall|k: int|
                0 <= k < self@.len() ==> ((#[trigger] r@[k]).interval@ == self@[k].iv && r@[k].label@
                    == self@[k].label),
            lanes_greedy(self@, layout_lanes(r@)),
            forall|k: int|
                0 <= k < self@.len() ==> (#[trigger] r@[k]).has_overlaps == overlaps_other(
                    self@,
                    k,
                ),
    {
        let ghost s = self@;
        let lanes = self.assign_lanes();
        let n = self.entries.len();
        let mut r: Vec<LayoutEntry> = Vec::new();
        let mut k: usize = 0;
        while k < n
            invariant
                self.inv(),
                n == s.len(),
                s == self@,
                lanes@.len() == n,
                lanes_greedy(s, lane_ints(lanes@)),
                k <= n,
                r@.len() == k,
                forall|m: int|
                    0 <= m < k ==> ((#[trigger] r@[m]).interval@ == s[m].iv && r@[m].label@
                        == s[m].label && r@[m].lane == lanes@[m] && r@[m].has_overlaps
                        == overlaps_other(s, m)),
            decreases n - k,
        {
            let ov = self.overlaps_any(k);
            let e = &self.entries[k];
            r.push(
                LayoutEntry {
                    interval: e.interval,
                    label: e.label.clone(),
                    lane: lanes[k],
                    has_overlaps: ov,
                },
            );
            k = k + 1;
        }
        proof {
            assert(layout_lanes(r@) =~= lane_ints(lanes@));
        }
        r
    }
}

/// One element of the iteration `layout()` yields: an entry together with
/// its assigned lane and its overlap flag.
pub struct LayoutEntry {
    pub interval: Interval,
    pub label: String,
    pub lane: usize,
    pub has_overlaps: bool,
}

/// The lane numbers a layout assigns, as mathematical integers.
pub open spec fn layout_lanes(r: Seq<LayoutEntry>) -> Seq<int> {
    r.map_values(|le: LayoutEntry| le.lane as int)
}

/// The labels of the entries covering instant `t`, in traversal order.
pub open spec fn covering_labels(s: Seq<EntryView>, t: int) -> Seq<Seq<char>>
    decreases s.len(),
{
    if s.len() == 0 {
        Seq::empty()
    } else if s.last().iv.covers(t) {
        covering_labels(s.drop_last(), t).push(s.last().label)
    } else {
        covering_labels(s.drop_last(), t)
    }
}

/// Exec mirror of `key_le`.
fn key_le_exec(a: &Interval, b: &Interval) -> (r: bool)
    ensures
        r == key_le(a@, b@),
{
    a.start() < b.start() || (a.start() == b.start() && a.end() <= b.end())
}

} // verus!
