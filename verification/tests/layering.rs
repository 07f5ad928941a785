use rayday::index::{IntervalLayerIndex, LayoutEntry};
use rayday::interval::Interval;

fn add_hm(index: &mut IntervalLayerIndex, start: (u32, u32), end: (u32, u32), label: &str) {
    let iv = Interval::from_hm(start, end).expect("test interval must be valid");
    index.add(iv, String::from(label));
}

fn lanes_and_labels(layout: &[LayoutEntry]) -> (Vec<usize>, Vec<String>) {
    let lanes: Vec<usize> = layout.iter().map(|e| e.lane).collect();
    let labels: Vec<String> = layout.iter().map(|e| e.label.clone()).collect();
    (lanes, labels)
}

#[test]
fn empty_index_has_degree_zero_and_no_entries() {
    let index = IntervalLayerIndex::new();
    assert_eq!(index.overlap_degree(), 0);
    assert_eq!(index.len(), 0);
    assert!(index.is_empty());
    assert!(index.layout().is_empty());
    assert!(index.labels_at(12 * 60).is_empty());
}

#[test]
fn single_entry_gets_lane_zero_without_overlaps() {
    let mut index = IntervalLayerIndex::new();
    add_hm(&mut index, (12, 0), (12, 30), "Solo");
    assert_eq!(index.overlap_degree(), 1);
    let layout = index.layout();
    assert_eq!(layout.len(), 1);
    assert_eq!(layout[0].lane, 0);
    assert!(!layout[0].has_overlaps);
    assert_eq!(layout[0].label, "Solo");
}

#[test]
fn staircase_reuses_freed_lane() {
    let mut index = IntervalLayerIndex::new();
    add_hm(&mut index, (9, 0), (10, 0), "A");
    add_hm(&mut index, (9, 30), (10, 30), "B");
    add_hm(&mut index, (10, 15), (11, 0), "C");
    assert_eq!(index.overlap_degree(), 2);
    let layout = index.layout();
    let (lanes, labels) = lanes_and_labels(&layout);
    assert_eq!(labels, vec!["A", "B", "C"]);
    // A and B overlap, so they get distinct lanes; C starts after A ended
    // and may reuse A's lane.
    assert_eq!(lanes, vec![0, 1, 0]);
    assert!(layout.iter().all(|e| e.has_overlaps));
}

#[test]
fn three_nested_intervals_use_three_lanes() {
    let mut index = IntervalLayerIndex::new();
    add_hm(&mut index, (8, 0), (12, 0), "outer");
    add_hm(&mut index, (9, 0), (11, 0), "middle");
    add_hm(&mut index, (10, 0), (10, 30), "inner");
    assert_eq!(index.overlap_degree(), 3);
    let layout = index.layout();
    let (lanes, labels) = lanes_and_labels(&layout);
    assert_eq!(labels, vec!["outer", "middle", "inner"]);
    assert_eq!(lanes, vec![0, 1, 2]);
}

#[test]
fn touching_intervals_do_not_overlap_and_share_a_lane() {
    let mut index = IntervalLayerIndex::new();
    add_hm(&mut index, (8, 0), (9, 0), "X");
    add_hm(&mut index, (9, 0), (10, 0), "Y");
    assert_eq!(index.overlap_degree(), 1);
    let layout = index.layout();
    let (lanes, labels) = lanes_and_labels(&layout);
    assert_eq!(labels, vec!["X", "Y"]);
    assert_eq!(lanes, vec![0, 0]);
    assert!(layout.iter().all(|e| !e.has_overlaps));
}

#[test]
fn invalid_interval_is_rejected_and_nothing_is_added() {
    let mut index = IntervalLayerIndex::new();
    let bad = Interval::from_hm((10, 0), (9, 0));
    assert!(bad.is_err());
    if let Ok(iv) = bad {
        index.add(iv, String::from("Bad"));
    }
    assert_eq!(index.len(), 0);
    assert_eq!(index.overlap_degree(), 0);
}

#[test]
fn identical_intervals_always_get_distinct_lanes() {
    let mut index = IntervalLayerIndex::new();
    add_hm(&mut index, (10, 0), (11, 0), "first");
    add_hm(&mut index, (10, 0), (11, 0), "second");
    assert_eq!(index.overlap_degree(), 2);
    let layout = index.layout();
    let (lanes, labels) = lanes_and_labels(&layout);
    // Entries with equal keys keep their arrival order.
    assert_eq!(labels, vec!["first", "second"]);
    assert_ne!(lanes[0], lanes[1]);
    assert_eq!(lanes, vec![0, 1]);
    assert!(layout.iter().all(|e| e.has_overlaps));
}

#[test]
fn iteration_returns_one_element_per_successful_add() {
    let mut index = IntervalLayerIndex::new();
    add_hm(&mut index, (9, 0), (10, 0), "a");
    add_hm(&mut index, (9, 0), (10, 0), "b");
    add_hm(&mut index, (14, 0), (15, 0), "c");
    add_hm(&mut index, (8, 0), (17, 0), "d");
    add_hm(&mut index, (16, 59), (17, 0), "e");
    assert_eq!(index.len(), 5);
    assert_eq!(index.layout().len(), 5);
}

#[test]
fn traversal_is_sorted_by_start_regardless_of_insertion_order() {
    let mut index = IntervalLayerIndex::new();
    add_hm(&mut index, (10, 15), (11, 0), "C");
    add_hm(&mut index, (9, 0), (10, 0), "A");
    add_hm(&mut index, (9, 30), (10, 30), "B");
    let layout = index.layout();
    let (lanes, labels) = lanes_and_labels(&layout);
    assert_eq!(labels, vec!["A", "B", "C"]);
    assert_eq!(lanes, vec![0, 1, 0]);
    assert_eq!(index.overlap_degree(), 2);
}

#[test]
fn equal_starts_are_ordered_by_ascending_end() {
    let mut index = IntervalLayerIndex::new();
    add_hm(&mut index, (9, 0), (11, 0), "long");
    add_hm(&mut index, (9, 0), (10, 0), "short");
    let layout = index.layout();
    let (lanes, labels) = lanes_and_labels(&layout);
    assert_eq!(labels, vec!["short", "long"]);
    assert_ne!(lanes[0], lanes[1]);
}

#[test]
fn no_pair_of_overlapping_entries_shares_a_lane() {
    let mut index = IntervalLayerIndex::new();
    let spans = [
        ((8, 0), (12, 0), "a"),
        ((8, 30), (9, 30), "b"),
        ((9, 0), (10, 0), "c"),
        ((9, 45), (11, 0), "d"),
        ((10, 0), (10, 30), "e"),
        ((11, 0), (13, 0), "f"),
        ((12, 0), (12, 30), "g"),
    ];
    for (s, e, l) in spans {
        add_hm(&mut index, s, e, l);
    }
    let layout = index.layout();
    for i in 0..layout.len() {
        for j in 0..layout.len() {
            if i != j {
                let a = &layout[i];
                let b = &layout[j];
                let overlapping = a.interval.start() < b.interval.end()
                    && b.interval.start() < a.interval.end();
                if overlapping {
                    assert_ne!(a.lane, b.lane, "{} and {} share a lane", a.label, b.label);
                }
            }
        }
    }
}

#[test]
fn greedy_lanes_are_minimal() {
    let mut index = IntervalLayerIndex::new();
    let spans = [
        ((8, 0), (12, 0), "a"),
        ((8, 30), (9, 30), "b"),
        ((9, 0), (10, 0), "c"),
        ((9, 45), (11, 0), "d"),
        ((10, 0), (10, 30), "e"),
        ((11, 0), (13, 0), "f"),
        ((12, 0), (12, 30), "g"),
    ];
    for (s, e, l) in spans {
        add_hm(&mut index, s, e, l);
    }
    let layout = index.layout();
    // Each entry's lane is the smallest one not taken by an earlier entry
    // that is still open at its start.
    for i in 0..layout.len() {
        let assigned = layout[i].lane;
        for smaller in 0..assigned {
            let taken = (0..i).any(|j| {
                layout[j].lane == smaller
                    && layout[j].interval.end() > layout[i].interval.start()
            });
            assert!(taken, "{} skipped free lane {}", layout[i].label, smaller);
        }
    }
}

#[test]
fn degree_matches_an_independent_boundary_sweep() {
    let mut index = IntervalLayerIndex::new();
    let spans = [
        ((8, 0), (12, 0), "a"),
        ((8, 30), (9, 30), "b"),
        ((9, 0), (10, 0), "c"),
        ((9, 45), (11, 0), "d"),
        ((10, 0), (10, 30), "e"),
        ((11, 0), (13, 0), "f"),
        ((12, 0), (12, 30), "g"),
        ((9, 0), (9, 30), "h"),
    ];
    for (s, e, l) in spans {
        add_hm(&mut index, s, e, l);
    }
    // Independent check: sweep every interval boundary and count coverage.
    let mut boundaries: Vec<u32> = Vec::new();
    for (s, e, _) in spans {
        boundaries.push(s.0 * 60 + s.1);
        boundaries.push(e.0 * 60 + e.1);
    }
    let mut best = 0;
    for &t in &boundaries {
        let covering = spans
            .iter()
            .filter(|(s, e, _)| s.0 * 60 + s.1 <= t && t < e.0 * 60 + e.1)
            .count();
        best = best.max(covering);
    }
    assert_eq!(index.overlap_degree(), best);
    assert_eq!(best, 4);
}

#[test]
fn degree_equals_number_of_lanes_in_use() {
    let mut index = IntervalLayerIndex::new();
    let spans = [
        ((8, 0), (12, 0), "a"),
        ((8, 30), (9, 30), "b"),
        ((9, 0), (10, 0), "c"),
        ((9, 45), (11, 0), "d"),
        ((10, 0), (10, 30), "e"),
        ((11, 0), (13, 0), "f"),
    ];
    for (s, e, l) in spans {
        add_hm(&mut index, s, e, l);
    }
    let layout = index.layout();
    let max_lane = layout.iter().map(|e| e.lane).max().unwrap();
    assert_eq!(index.overlap_degree(), max_lane + 1);
}

#[test]
fn count_covering_at_reports_exact_coverage() {
    let mut index = IntervalLayerIndex::new();
    add_hm(&mut index, (9, 0), (10, 0), "A");
    add_hm(&mut index, (9, 30), (10, 30), "B");
    assert_eq!(index.count_covering_at(8 * 60), 0);
    assert_eq!(index.count_covering_at(9 * 60), 1);
    assert_eq!(index.count_covering_at(9 * 60 + 45), 2);
    assert_eq!(index.count_covering_at(10 * 60), 1);
    assert_eq!(index.count_covering_at(10 * 60 + 30), 0);
}

#[test]
fn labels_at_lists_current_entries_in_traversal_order() {
    let mut index = IntervalLayerIndex::new();
    add_hm(&mut index, (9, 30), (10, 30), "B");
    add_hm(&mut index, (9, 0), (10, 0), "A");
    assert_eq!(index.labels_at(9 * 60 + 45), vec![
        String::from("A"),
        String::from("B"),
    ]);
    assert_eq!(index.labels_at(10 * 60), vec![String::from("B")]);
    assert_eq!(index.labels_at(11 * 60), Vec::<String>::new());
}
