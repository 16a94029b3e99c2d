//! Moving through lists and keeping the selected entry in view.

use vstd::prelude::*;

verus! {

/// The first row to show so that row `selected` of `total` stands in the middle of `visible`
/// rows, or as near to it as the ends allow.
pub open spec fn centered_scroll(selected: int, total: int, visible: int) -> int {
    let half = visible / 2;
    if total <= visible {
        0
    } else if selected <= half {
        0
    } else if selected + half >= total {
        total - visible
    } else {
        selected - half
    }
}

pub fn scroll_to_center(selected: usize, total: usize, visible: usize) -> (first: usize)
    ensures
        first == centered_scroll(selected as int, total as int, visible as int),
{
    if total <= visible {
        return 0;
    }
    let half = visible / 2;
    if selected <= half {
        0
    } else if selected.saturating_add(half) >= total {
        total - visible
    } else {
        selected - half
    }
}

/// The selected row is always among those in view, and no row is left unused below the list.
pub proof fn centered_scroll_shows_the_selection(selected: int, total: int, visible: int)
    requires
        0 <= selected < total,
        0 < visible,
    ensures
        0 <= centered_scroll(selected, total, visible) <= selected,
        selected < centered_scroll(selected, total, visible) + visible,
        total > visible ==> centered_scroll(selected, total, visible) + visible <= total,
{
}

/// The first row to show so that row `selected` of `total` stands half of `visible` rows below
/// it, or as near to that as the ends allow.
pub open spec fn halfway_scroll(selected: int, total: int, visible: int) -> int {
    let half = visible / 2;
    if total <= visible || selected < half {
        0
    } else if selected > total - half {
        total - visible
    } else {
        selected - half
    }
}

pub fn scroll_halfway(selected: usize, total: usize, visible: usize) -> (first: usize)
    ensures
        first == halfway_scroll(selected as int, total as int, visible as int),
{
    if total <= visible || selected < visible / 2 {
        0
    } else if selected > total - visible / 2 {
        total - visible
    } else {
        selected - visible / 2
    }
}

/// The selected row is always among those in view.
pub proof fn halfway_scroll_shows_the_selection(selected: int, total: int, visible: int)
    requires
        0 <= selected < total,
        0 < visible,
    ensures
        0 <= halfway_scroll(selected, total, visible) <= selected,
        selected < halfway_scroll(selected, total, visible) + visible,
{
}

/// One entry further down, unless it is the last.
pub open spec fn next_in(selected: int, count: int) -> int {
    if selected + 1 < count {
        selected + 1
    } else {
        selected
    }
}

/// One entry further up, unless it is the first.
pub open spec fn prev_in(selected: int) -> int {
    if selected > 0 {
        selected - 1
    } else {
        selected
    }
}

pub fn select_next(selected: usize, count: usize) -> (n: usize)
    ensures
        n == next_in(selected as int, count as int),
{
    if count > 0 && selected < count - 1 {
        selected + 1
    } else {
        selected
    }
}

pub fn select_prev(selected: usize) -> (n: usize)
    ensures
        n == prev_in(selected as int),
{
    selected.saturating_sub(1)
}

/// The selection pulled back to the last entry of a list that is not empty.
pub open spec fn clamped_to(selected: int, count: int) -> int {
    if count > 0 && selected >= count {
        count - 1
    } else {
        selected
    }
}

pub fn clamp_selection(selected: usize, count: usize) -> (n: usize)
    ensures
        n == clamped_to(selected as int, count as int),
{
    if count > 0 && selected >= count {
        count - 1
    } else {
        selected
    }
}

/// The selection goes up and down by one entry and stops at the ends.
pub proof fn selection_steps_by_entries(selected: int, count: int)
    requires
        0 <= selected < count,
    ensures
        selected + 1 < count ==> next_in(selected, count) == selected + 1,
        selected + 1 == count ==> next_in(selected, count) == selected,
        selected > 0 ==> prev_in(selected) == selected - 1,
        selected == 0 ==> prev_in(selected) == 0,
        clamped_to(selected, count) == selected,
        clamped_to(count + selected, count) == count - 1,
{
}

} // verus!
