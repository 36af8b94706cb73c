//! Which part of a long line is shown so that the cursor stays in view.
use vstd::prelude::*;

verus! {

/// Columns kept visible ahead of the cursor when a line scrolls.
pub const LOOKAHEAD: u16 = 5;

/// The span of a line drawn in a row `line_width` columns wide: first and
/// end column, and whether the text is shifted right by one cell (a cut
/// was made at its left edge). Short lines show whole; a long line without
/// the cursor shows its beginning; with the cursor, it scrolls so that
/// `LOOKAHEAD` columns after the cursor stay in view.
pub open spec fn span_of(line_len: u16, cur: Option<u16>, line_width: u16) -> (u16, u16, bool) {
    if line_len <= line_width {
        (0, line_len, false)
    } else {
        match cur {
            Some(c) => if line_len < LOOKAHEAD + c {
                ((line_len - line_width + 1) as u16, line_len, true)
            } else if c + LOOKAHEAD <= line_width + 1 {
                (0, (line_width - 1) as u16, false)
            } else {
                ((c + LOOKAHEAD - line_width) as u16, (c + LOOKAHEAD - 2) as u16, true)
            },
            None => (0, (line_width - 1) as u16, false),
        }
    }
}

/// The span of a line of `line_len` bytes to draw, with the cursor at
/// column `cur` if it is on this line.
pub fn visible_span(line_len: u16, cur: Option<u16>, line_width: u16) -> (r: (u16, u16, bool))
    requires
        line_width >= 2,
    ensures
        r == span_of(line_len, cur, line_width),
        r.0 <= r.1 <= line_len,
{
    if line_len <= line_width {
        (0, line_len, false)
    } else {
        match cur {
            Some(c) => {
                let ahead: u32 = c as u32 + LOOKAHEAD as u32;
                if (line_len as u32) < ahead {
                    (line_len - line_width + 1, line_len, true)
                } else if ahead <= line_width as u32 + 1 {
                    (0, line_width - 1, false)
                } else {
                    ((ahead - line_width as u32) as u16, (ahead - 2) as u16, true)
                }
            },
            None => (0, line_width - 1, false),
        }
    }
}

} // verus!
