//! The select-mode cursor: which event of the currently shown day is
//! highlighted. The decisions — where the cursor moves on up/down and where
//! it lands after a deletion — are pure functions of the cursor and the
//! number of listed events; reading keys and touching the store stay with
//! the application.

use vstd::prelude::*;

verus! {

/// Moves the cursor one entry up; entering select mode without a cursor
/// lands on the first entry, and the first entry absorbs further moves.
pub fn select_up(selected: Option<usize>) -> (r: Option<usize>)
    ensures
        selected is None ==> r == Some(0usize),
        selected matches Some(sel) ==> r == Some(
            (if sel > 0 {
                (sel - 1) as usize
            } else {
                0usize
            }),
        ),
{
    match selected {
        Some(sel) => {
            if sel > 0 {
                Some(sel - 1)
            } else {
                Some(0)
            }
        },
        None => Some(0),
    }
}

/// Moves the cursor one entry down among `len` entries; the last entry
/// absorbs further moves, and no cursor becomes the first entry.
pub fn select_down(selected: Option<usize>, len: usize) -> (r: Option<usize>)
    requires
        selected matches Some(sel) ==> sel < len,
    ensures
        selected is None ==> r == Some(0usize),
        selected matches Some(sel) ==> r == Some(
            (if sel + 1 < len {
                (sel + 1) as usize
            } else {
                sel
            }),
        ),
{
    match selected {
        Some(sel) => {
            if sel == len - 1 {
                Some(sel)
            } else {
                Some(sel + 1)
            }
        },
        None => Some(0),
    }
}

/// Where the cursor lands after the entry at `sel` was deleted, leaving
/// `new_len` entries: on the entry that moved into its place, else on the
/// one before it, else nowhere — then select mode is left, which the
/// second result reports.
pub fn select_after_delete(sel: usize, new_len: usize) -> (r: (Option<usize>, bool))
    requires
        sel <= new_len,
    ensures
        sel < new_len ==> r == (Some(sel), false),
        sel >= new_len && new_len > 0 ==> r == (Some((new_len - 1) as usize), false),
        new_len == 0 ==> r == (None::<usize>, true),
{
    if sel < new_len {
        (Some(sel), false)
    } else if new_len > 0 {
        (Some(new_len - 1), false)
    } else {
        (None, true)
    }
}

} // verus!
