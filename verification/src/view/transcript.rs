//! Transcript virtualization: which blocks a scrolled viewport touches.

use vstd::prelude::*;

verus! {

/// Total height of the first `i` blocks.
pub open spec fn prefix_height(heights: Seq<u16>, i: int) -> int
    decreases i,
{
    if i <= 0 {
        0
    } else {
        prefix_height(heights, i - 1) + heights[i - 1] as int
    }
}

pub proof fn lemma_prefix_height_monotone(heights: Seq<u16>, i: int, j: int)
    requires
        0 <= i <= j,
    ensures
        prefix_height(heights, i) <= prefix_height(heights, j),
    decreases j - i,
{
    if i < j {
        lemma_prefix_height_monotone(heights, i, j - 1);
    }
}

/// The window `(first, local_scroll, end)` for a viewport of `viewport` rows
/// starting `scroll` rows into the content: `first` is the block containing
/// row `scroll` (on a block boundary, the next block), `local_scroll` the row
/// offset into it, and `end` the first block index at which the blocks taken
/// from `first` cover `local_scroll + viewport` rows (or the block count).
pub open spec fn is_window(
    heights: Seq<u16>,
    scroll: int,
    viewport: int,
    first: int,
    local: int,
    end: int,
) -> bool {
    let budget = local + viewport;
    &&& 0 <= first < heights.len()
    &&& prefix_height(heights, first) <= scroll < prefix_height(heights, first + 1)
    &&& local == scroll - prefix_height(heights, first)
    &&& first < end <= heights.len()
    &&& (end == heights.len() || prefix_height(heights, end) - prefix_height(heights, first)
        >= budget)
    &&& forall|e: int|
        first < e < end ==> prefix_height(heights, e) - prefix_height(heights, first) < budget
}

/// Which blocks the viewport touches, given each block's wrapped height.
///
/// Returns `(first, local_scroll, end)`: render `blocks[first..end]` with a
/// scroll offset of `local_scroll` rows. `None` means there is nothing to
/// draw: a zero viewport, no blocks, or a scroll past the end of the content.
pub fn window_bounds(heights: &[u16], scroll: u16, viewport: u16) -> (r: Option<
    (usize, u16, usize),
>)
    ensures
        r is None <==> (viewport == 0 || heights@.len() == 0 || prefix_height(
            heights@,
            heights@.len() as int,
        ) <= scroll),
        r matches Some(w) ==> is_window(
            heights@,
            scroll as int,
            viewport as int,
            w.0 as int,
            w.1 as int,
            w.2 as int,
        ),
{
    if viewport == 0 || heights.len() == 0 {
        return None;
    }
    let mut skipped: u32 = 0;
    let mut index: usize = 0;
    while index < heights.len() && skipped + heights[index] as u32 <= scroll as u32
        invariant
            index <= heights@.len(),
            skipped == prefix_height(heights@, index as int),
            skipped <= scroll,
        decreases heights@.len() - index,
    {
        skipped += heights[index] as u32;
        index += 1;
    }
    if index == heights.len() {
        return None;
    }
    let first = index;
    proof {
        lemma_prefix_height_monotone(heights@, first + 1, heights@.len() as int);
    }
    let local_scroll = (scroll as u32 - skipped) as u16;
    let budget = local_scroll as u32 + viewport as u32;
    let mut taken: u32 = 0;
    let mut end = first;
    while end < heights.len() && taken < budget
        invariant
            first < heights@.len(),
            first <= end <= heights@.len(),
            skipped == prefix_height(heights@, first as int),
            taken == prefix_height(heights@, end as int) - prefix_height(heights@, first as int),
            budget == local_scroll + viewport,
            local_scroll < 65536,
            viewport > 0,
            end == first || taken >= 0,
            forall|e: int|
                first < e <= end ==> prefix_height(heights@, e) - prefix_height(heights@, first as int)
                    < budget || e == end,
            forall|e: int|
                first < e < end ==> prefix_height(heights@, e) - prefix_height(heights@, first as int)
                    < budget,
        decreases heights@.len() - end,
    {
        taken += heights[end] as u32;
        end += 1;
    }
    Some((first, local_scroll, end))
}

/// The transcript's scroll state.
#[derive(Debug, Clone, Copy, PartialEq, Eq, Structural)]
pub struct TranscriptScroll {
    /// Rows of the viewport.
    pub viewport: u16,
    /// The largest scroll offset: content rows past one viewport.
    pub max_scroll: u16,
    /// Rows scrolled from the top.
    pub scroll: u16,
    /// Whether the view follows the bottom as content grows.
    pub follow: bool,
}

/// Content rows, capped at `u16::MAX`.
pub open spec fn capped_total(heights: Seq<u16>) -> int {
    let t = prefix_height(heights, heights.len() as int);
    if t > 65535 {
        65535
    } else {
        t
    }
}

/// The scroll state after laying out blocks of `heights` in a `width` by
/// `height` area: an empty area keeps the state (its position is not lost);
/// otherwise the viewport is the area's height, the largest offset is the
/// capped content height less one viewport (at least 0), and the offset is 0
/// on the entry screen (no session), the bottom when following, else the
/// previous offset clamped to the new largest.
pub open spec fn spec_transcript_scroll(
    prev: TranscriptScroll,
    has_session: bool,
    heights: Seq<u16>,
    width: u16,
    height: u16,
) -> TranscriptScroll {
    if width == 0 || height == 0 {
        prev
    } else {
        let max = if capped_total(heights) > height {
            (capped_total(heights) - height) as u16
        } else {
            0u16
        };
        TranscriptScroll {
            viewport: height,
            max_scroll: max,
            scroll: if !has_session {
                0u16
            } else if prev.follow {
                max
            } else if prev.scroll < max {
                prev.scroll
            } else {
                max
            },
            follow: prev.follow,
        }
    }
}

/// Update the scroll state for a new layout of the transcript's blocks.
pub fn transcript_scroll(
    prev: TranscriptScroll,
    has_session: bool,
    heights: &Vec<u16>,
    width: u16,
    height: u16,
) -> (r: TranscriptScroll)
    ensures
        r == spec_transcript_scroll(prev, has_session, heights@, width, height),
{
    if width == 0 || height == 0 {
        return prev;
    }
    let mut total: u32 = 0;
    let mut i: usize = 0;
    while i < heights.len()
        invariant
            i <= heights@.len(),
            total == if prefix_height(heights@, i as int) > 65535 {
                65535
            } else {
                prefix_height(heights@, i as int)
            },
        decreases heights@.len() - i,
    {
        proof {
            lemma_prefix_height_monotone(heights@, i as int, i + 1);
        }
        let next: u32 = total + heights[i] as u32;
        total = if next > 65535 {
            65535
        } else {
            next
        };
        i += 1;
    }
    let total16: u16 = total as u16;
    let max: u16 = if total16 > height {
        total16 - height
    } else {
        0
    };
    let scroll: u16 = if !has_session {
        0
    } else if prev.follow {
        max
    } else if prev.scroll < max {
        prev.scroll
    } else {
        max
    };
    TranscriptScroll { viewport: height, max_scroll: max, scroll, follow: prev.follow }
}

/// On a non-empty area the viewport becomes the area's height, the offset
/// never passes the largest one, the largest one leaves exactly one viewport
/// of content below it (or is 0 when the content fits), the entry screen
/// sits at the top, and a following view is pinned to the bottom whatever
/// its previous offset; an empty area changes nothing.
pub proof fn lemma_scroll_follows_bottom(
    prev: TranscriptScroll,
    has_session: bool,
    heights: Seq<u16>,
    width: u16,
    height: u16,
)
    ensures
        (width == 0 || height == 0) ==> spec_transcript_scroll(prev, has_session, heights, width, height)
            == prev,
        width > 0 && height > 0 ==> {
            let r = spec_transcript_scroll(prev, has_session, heights, width, height);
            &&& r.viewport == height
            &&& r.follow == prev.follow
            &&& r.scroll <= r.max_scroll
            &&& capped_total(heights) <= height ==> r.max_scroll == 0
            &&& capped_total(heights) > height ==> r.max_scroll + height == capped_total(heights)
            &&& !has_session ==> r.scroll == 0
            &&& has_session && prev.follow ==> r.scroll == r.max_scroll
            &&& has_session && !prev.follow && prev.scroll <= r.max_scroll ==> r.scroll == prev.scroll
        },
{
}

} // verus!
