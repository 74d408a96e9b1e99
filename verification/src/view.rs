//! Screen geometry of the play and game-over screens.
//!
//! Row 0 holds the title; the board's border is drawn with its top-left
//! corner at row 1, so board cell `(x, y)` appears at column `x + 1`, row
//! `y + 2`. The scoreboard follows the bottom border, and the controls hint
//! follows the scoreboard. The drawing itself is done by the terminal
//! front end.
use vstd::prelude::*;

verus! {

/// Controls hint when the rulebook lets the player kill disease.
pub const HINT_WITH_KILL: &'static str = "WASD: move   SPACE: plant/fix   X: kill disease   Q/Esc: quit";

/// Controls hint when it does not.
pub const HINT_PLAIN: &'static str = "WASD: move    SPACE: plant    Q/Esc: quit";

/// Stateless renderer geometry.
pub struct View;

impl View {
    /// Where board cell `(x, y)` is drawn: right of the left border, below
    /// the title and the top border.
    pub fn cell_position(x: usize, y: usize) -> (p: (i32, i32))
        requires
            x + 1 <= i32::MAX,
            y + 2 <= i32::MAX,
        ensures
            p.0 == x + 1,
            p.1 == y + 2,
    {
        (x as i32 + 1, y as i32 + 2)
    }

    /// The first scoreboard row: just below the board's bottom border (title,
    /// two border rows and the board above it).
    pub fn score_row(board_h: i32) -> (r: i32)
        requires
            board_h + 3 <= i32::MAX,
        ensures
            r == board_h + 3,
    {
        board_h + 3
    }

    /// The controls hint row: below the two scoreboard rows and a blank row.
    pub fn status_row(board_h: i32) -> (r: i32)
        requires
            board_h + 6 <= i32::MAX,
        ensures
            r == board_h + 6,
    {
        board_h + 6
    }

    /// The controls hint, naming the kill verb only when the rulebook allows it.
    pub fn controls_hint(can_kill: bool) -> (s: &'static str)
        ensures
            can_kill ==> s == HINT_WITH_KILL,
            !can_kill ==> s == HINT_PLAIN,
    {
        if can_kill {
            HINT_WITH_KILL
        } else {
            HINT_PLAIN
        }
    }

    /// The column at which a text `len` characters long is centred in a
    /// frame `frame_w` wide; 0 when the text is wider than the frame.
    pub fn centered_col(frame_w: i32, len: i32) -> (c: i32)
        requires
            i32::MIN <= frame_w - len <= i32::MAX,
        ensures
            frame_w - len > 0 ==> c == (frame_w - len) / 2,
            frame_w - len <= 0 ==> c == 0,
    {
        let d = frame_w - len;
        if d > 0 {
            d / 2
        } else {
            0
        }
    }

    /// The row at which a block `block_height` rows tall starts when centred
    /// vertically in the board's interior (rows 2 onwards); flush with the
    /// top when the block is taller than the board.
    pub fn block_top(board_h: i32, block_height: i32) -> (r: i32)
        requires
            i32::MIN <= board_h - block_height <= i32::MAX,
        ensures
            board_h - block_height > 0 ==> r == 2 + (board_h - block_height) / 2,
            board_h - block_height <= 0 ==> r == 2,
    {
        let d = board_h - block_height;
        if d > 0 {
            2 + d / 2
        } else {
            2
        }
    }
}

} // verus!
