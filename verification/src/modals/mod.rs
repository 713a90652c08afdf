//! The dialogs that open over the main screen, and the cursor of their lists.

pub mod create_connection;
pub mod delete_connection;
pub mod keys;
pub mod proxy_jumps;

use vstd::prelude::*;

verus! {

/// A list cursor is either absent or on an item of a list of `len` items.
pub open spec fn selection_in_bounds(sel: Option<usize>, len: int) -> bool {
    match sel {
        Some(i) => i < len,
        None => true,
    }
}

/// The cursor one item further down, wrapping from the last item to the
/// first; an absent cursor goes to the first item; an empty list keeps it.
pub open spec fn next_selection(sel: Option<usize>, len: int) -> Option<usize> {
    if len == 0 {
        sel
    } else {
        match sel {
            Some(i) => if i >= len - 1 { Some(0) } else { Some((i + 1) as usize) },
            None => Some(0),
        }
    }
}

/// The cursor one item further up, wrapping from the first item to the
/// last; an absent cursor goes to the first item; an empty list keeps it.
pub open spec fn previous_selection(sel: Option<usize>, len: int) -> Option<usize> {
    if len == 0 {
        sel
    } else {
        match sel {
            Some(i) => if i == 0 { Some((len - 1) as usize) } else { Some((i - 1) as usize) },
            None => Some(0),
        }
    }
}

/// Moves a list cursor down (see `next_selection`).
pub fn step_down(sel: Option<usize>, len: usize) -> (r: Option<usize>)
    ensures
        r == next_selection(sel, len as int),
{
    if len == 0 {
        return sel;
    }
    match sel {
        Some(i) => if i >= len - 1 { Some(0) } else { Some(i + 1) },
        None => Some(0),
    }
}

/// Moves a list cursor up (see `previous_selection`).
pub fn step_up(sel: Option<usize>, len: usize) -> (r: Option<usize>)
    ensures
        r == previous_selection(sel, len as int),
{
    if len == 0 {
        return sel;
    }
    match sel {
        Some(i) => if i == 0 { Some(len - 1) } else { Some(i - 1) },
        None => Some(0),
    }
}

/// Moving a list cursor down and then up (or up and then down) puts it back on
/// the item where it was; both moves keep a cursor on the list.
pub proof fn lemma_steps_undo(i: usize, len: int)
    requires
        i < len <= usize::MAX,
    ensures
        previous_selection(next_selection(Some(i), len), len) == Some(i),
        next_selection(previous_selection(Some(i), len), len) == Some(i),
        selection_in_bounds(next_selection(Some(i), len), len),
        selection_in_bounds(previous_selection(Some(i), len), len),
{
}

} // verus!
