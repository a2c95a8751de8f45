//! Scroll arithmetic for list panels.

use vstd::prelude::*;

verus! {

/// The smallest scroll offset, within `[0, total_rows - viewport]`, that
/// keeps `cursor` inside a window of `viewport` rows.
pub open spec fn spec_scroll_start(cursor: int, viewport: int, total_rows: int) -> int {
    if viewport == 0 || total_rows <= viewport {
        0
    } else {
        let wanted = if cursor + 1 >= viewport { cursor + 1 - viewport } else { 0 };
        if wanted <= total_rows - viewport { wanted } else { total_rows - viewport }
    }
}

/// Scroll-start for a cursor in a `viewport`-row window: returns the
/// smallest `scroll` that keeps `cursor` visible.
pub fn scroll_start_for_cursor(cursor: usize, viewport: usize, total_rows: usize) -> (scroll: usize)
    ensures
        scroll == spec_scroll_start(cursor as int, viewport as int, total_rows as int),
{
    if viewport == 0 || total_rows <= viewport {
        return 0;
    }
    let wanted = cursor.saturating_add(1).saturating_sub(viewport);
    let limit = total_rows - viewport;
    if wanted < limit { wanted } else { limit }
}

} // verus!
