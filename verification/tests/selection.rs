use rayday::selection::{select_after_delete, select_down, select_up};

#[test]
fn moving_up_stops_at_the_first_entry() {
    assert_eq!(select_up(None), Some(0));
    assert_eq!(select_up(Some(0)), Some(0));
    assert_eq!(select_up(Some(3)), Some(2));
}

#[test]
fn moving_down_stops_at_the_last_entry() {
    assert_eq!(select_down(None, 0), Some(0));
    assert_eq!(select_down(None, 4), Some(0));
    assert_eq!(select_down(Some(2), 4), Some(3));
    assert_eq!(select_down(Some(3), 4), Some(3));
}

#[test]
fn deleting_keeps_the_cursor_in_range() {
    assert_eq!(select_after_delete(1, 3), (Some(1), false));
    assert_eq!(select_after_delete(3, 3), (Some(2), false));
    assert_eq!(select_after_delete(0, 0), (None, true));
}
