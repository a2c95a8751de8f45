//! Heights of the composer and input bars, and the footer of scrolled panels.

use vstd::prelude::*;

use crate::text::{chars_of, decimal, extend_str, push_decimal, string_of};

verus! {

/// Tallest the composer (and the input bar) may grow, in rows.
pub const MAX_COMPOSER_HEIGHT: u16 = 10;

/// Columns of horizontal padding around the composer text.
pub const COMPOSER_HORIZONTAL_PAD: u16 = 4;

/// Height of the composer for text that wraps to `line_count` rows (at the
/// area's width less [`COMPOSER_HORIZONTAL_PAD`]): one row more than the text
/// (at least one text row, counted up to `u16::MAX`), between 2 and the
/// smaller of [`MAX_COMPOSER_HEIGHT`] and the area height less 2 (never under 2).
pub open spec fn spec_composer_height(line_count: nat, area_height: u16) -> int {
    let lines = if line_count < 1 {
        1
    } else if line_count > u16::MAX {
        u16::MAX as int
    } else {
        line_count as int
    };
    let with_border = if lines + 1 > u16::MAX {
        u16::MAX as int
    } else {
        lines + 1
    };
    let room = if area_height < 2 {
        0
    } else {
        area_height - 2
    };
    let max = if room < MAX_COMPOSER_HEIGHT {
        room
    } else {
        MAX_COMPOSER_HEIGHT as int
    };
    let hi = if max < 2 {
        2
    } else {
        max
    };
    if with_border < 2 {
        2
    } else if with_border > hi {
        hi
    } else {
        with_border
    }
}

/// Rows the composer takes.
pub fn composer_height(line_count: usize, area_height: u16) -> (r: u16)
    ensures
        r == spec_composer_height(line_count as nat, area_height),
{
    let lines: u16 = if line_count < 1 {
        1
    } else if line_count > 65535 {
        65535
    } else {
        line_count as u16
    };
    let with_border = lines.saturating_add(1);
    let room = area_height.saturating_sub(2);
    let max = if room < MAX_COMPOSER_HEIGHT {
        room
    } else {
        MAX_COMPOSER_HEIGHT
    };
    let hi = if max < 2 {
        2
    } else {
        max
    };
    if with_border < 2 {
        2
    } else if with_border > hi {
        hi
    } else {
        with_border
    }
}

/// Rows of list a scrolled panel of `rect_height` shows: the height less the
/// two borders and the footer row.
pub fn panel_visible_rows(rect_height: u16) -> (r: usize)
    ensures
        r == (if rect_height < 3 {
            0
        } else {
            rect_height - 3
        }),
{
    rect_height.saturating_sub(2).saturating_sub(1) as usize
}

/// The footer of a scrolled panel: ` — ` for an empty list, otherwise
/// ` <cursor + 1>/<total> `.
pub open spec fn spec_panel_footer(total_rows: nat, cursor: nat) -> Seq<char> {
    if total_rows == 0 {
        " — "@
    } else {
        " "@ + decimal(cursor + 1) + "/"@ + decimal(total_rows) + " "@
    }
}

/// The position footer shown under a scrolled list.
pub fn panel_footer(total_rows: usize, cursor: usize) -> (r: String)
    requires
        cursor < usize::MAX,
    ensures
        r@ == spec_panel_footer(total_rows as nat, cursor as nat),
{
    if total_rows == 0 {
        return string_of(&chars_of(" — "));
    }
    let mut out = chars_of(" ");
    push_decimal(&mut out, (cursor + 1) as u64);
    extend_str(&mut out, "/");
    push_decimal(&mut out, total_rows as u64);
    extend_str(&mut out, " ");
    string_of(&out)
}

} // verus!
