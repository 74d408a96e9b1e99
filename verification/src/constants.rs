//! Layout and timing constants.
//!
//! The screen targets 80 columns by 24 rows (an 18 by 78 board plus border
//! and scoreboard); smaller terminals get a smaller board, never smaller than
//! the playable minimum.
use vstd::prelude::*;

verus! {

/// Maximum total screen width.
pub const MAX_SCREEN_W: usize = 80;

/// Maximum total screen height.
pub const MAX_SCREEN_H: usize = 24;

/// Smallest playable board width.
pub const MIN_BOARD_W: usize = 20;

/// Smallest playable board height.
pub const MIN_BOARD_H: usize = 6;

/// Rows the interface occupies around the board: title, top border,
/// divider, two scoreboard rows, bottom border and controls hint.
pub const CHROME_ROWS: usize = 7;

/// Scoreboard text height (inside its border).
pub const SCORE_H: usize = 2;

/// Steps between coral life updates.
pub const LIFE_PERIOD: usize = 16;

/// Steps between disease passes.
pub const DISEASE_PERIOD: usize = 14;

/// Score awarded per healthy coral cell on each life update.
pub const SCORE_PER_HEALTHY: i64 = 1;

/// `a - b`, or 0 when `b` exceeds `a`.
pub open spec fn sat_sub(a: int, b: int) -> int {
    if a > b {
        a - b
    } else {
        0
    }
}

/// `v` clamped into `[lo, hi]`, the upper bound applied first.
pub open spec fn clamp(v: int, lo: int, hi: int) -> int {
    let capped = if v < hi {
        v
    } else {
        hi
    };
    if capped > lo {
        capped
    } else {
        lo
    }
}

/// Board width for a terminal `cols` wide: two border columns reserved,
/// capped at the target, floored at the minimum.
pub open spec fn fitted_board_w(cols: int) -> int {
    clamp(sat_sub(cols, 2), MIN_BOARD_W as int, MAX_SCREEN_W - 2)
}

/// Board height for a terminal `rows` tall: the interface rows reserved,
/// capped at the target, floored at the minimum.
pub open spec fn fitted_board_h(rows: int) -> int {
    clamp(sat_sub(rows, CHROME_ROWS as int), MIN_BOARD_H as int, MAX_SCREEN_H - CHROME_ROWS)
}

/// Runtime geometry, computed from the terminal size at startup.
#[derive(Clone, Copy, Debug)]
pub struct Layout {
    /// Playable board width (inside the border).
    pub board_w: usize,
    /// Playable board height (inside the border).
    pub board_h: usize,
}

impl Layout {
    /// Derive a board that fits inside a terminal of `cols` by `rows`, capped
    /// at the 80 by 24 target and floored at the usable minimum.
    pub fn from_size(cols: usize, rows: usize) -> (l: Layout)
        ensures
            l.board_w == fitted_board_w(cols as int),
            l.board_h == fitted_board_h(rows as int),
    {
        // Two columns for the left and right border.
        let w0 = cols.saturating_sub(2);
        let w1 = if w0 < MAX_SCREEN_W - 2 {
            w0
        } else {
            MAX_SCREEN_W - 2
        };
        let board_w = if w1 > MIN_BOARD_W {
            w1
        } else {
            MIN_BOARD_W
        };
        // The interface rows around the board.
        let h0 = rows.saturating_sub(CHROME_ROWS);
        let h1 = if h0 < MAX_SCREEN_H - CHROME_ROWS {
            h0
        } else {
            MAX_SCREEN_H - CHROME_ROWS
        };
        let board_h = if h1 > MIN_BOARD_H {
            h1
        } else {
            MIN_BOARD_H
        };
        Layout { board_w, board_h }
    }

    /// Total framed width: the board plus two border columns.
    pub fn frame_w(&self) -> (r: usize)
        requires
            self.board_w + 2 <= usize::MAX,
        ensures
            r == self.board_w + 2,
    {
        self.board_w + 2
    }

    /// Total rows the rendered interface occupies.
    pub fn total_rows(&self) -> (r: usize)
        requires
            self.board_h + CHROME_ROWS <= usize::MAX,
        ensures
            r == self.board_h + CHROME_ROWS,
    {
        self.board_h + CHROME_ROWS
    }

    /// Smallest terminal `(cols, rows)` at which the game renders unclipped.
    pub fn min_terminal() -> (r: (usize, usize))
        ensures
            r.0 == MIN_BOARD_W + 2,
            r.1 == MIN_BOARD_H + CHROME_ROWS,
    {
        (MIN_BOARD_W + 2, MIN_BOARD_H + CHROME_ROWS)
    }
}

/// Every layout derived from a terminal size stays within the 80 by 24
/// target and above the playable minimum, and once the terminal is at least
/// `Layout::min_terminal()` the framed board fits inside it.
pub proof fn law_layout_fits(cols: int, rows: int)
    ensures
        MIN_BOARD_W <= fitted_board_w(cols) <= MAX_SCREEN_W - 2,
        MIN_BOARD_H <= fitted_board_h(rows) <= MAX_SCREEN_H - CHROME_ROWS,
        fitted_board_w(cols) + 2 <= MAX_SCREEN_W,
        fitted_board_h(rows) + CHROME_ROWS <= MAX_SCREEN_H,
        cols >= MIN_BOARD_W + 2 ==> fitted_board_w(cols) + 2 <= cols,
        rows >= MIN_BOARD_H + CHROME_ROWS ==> fitted_board_h(rows) + CHROME_ROWS <= rows,
{
}

} // verus!
