//! The diver: a one-cell planting cursor the user steers around the reef.
use vstd::prelude::*;

use crate::assets::Asset;
use crate::constants::Layout;

verus! {

/// A cardinal movement direction.
#[derive(Clone, Copy, Debug, PartialEq, Eq, Structural)]
pub enum Direction {
    Up,
    Down,
    Left,
    Right,
}

/// The column after one move in `dir`, clamped to `[0, w)`.
pub open spec fn moved_x(x: usize, dir: Direction, w: usize) -> usize {
    match dir {
        Direction::Left => if x > 0 {
            (x - 1) as usize
        } else {
            x
        },
        Direction::Right => if x + 1 < w {
            (x + 1) as usize
        } else {
            x
        },
        _ => x,
    }
}

/// The row after one move in `dir`, clamped to `[0, h)`.
pub open spec fn moved_y(y: usize, dir: Direction, h: usize) -> usize {
    match dir {
        Direction::Up => if y > 0 {
            (y - 1) as usize
        } else {
            y
        },
        Direction::Down => if y + 1 < h {
            (y + 1) as usize
        } else {
            y
        },
        _ => y,
    }
}

/// The player-controlled cursor.
pub struct Player {
    /// Column on the board.
    pub x: usize,
    /// Row on the board.
    pub y: usize,
    /// Base glyph for the player.
    pub glyph: char,
    /// The loaded sprite asset, kept for a view that would draw it.
    pub sprite: Option<Asset>,
}

impl Player {
    /// The player after one move in `dir` on a `w` by `h` board.
    pub open spec fn moved(self, dir: Direction, w: usize, h: usize) -> Player {
        Player { x: moved_x(self.x, dir, w), y: moved_y(self.y, dir, h), ..self }
    }

    /// Create a player centred on the board described by `layout`.
    pub fn new(sprite: Option<Asset>, layout: Layout) -> (p: Player)
        ensures
            p.x == layout.board_w / 2,
            p.y == layout.board_h / 2,
            p.glyph == '@',
            p.sprite == sprite,
    {
        Player { x: layout.board_w / 2, y: layout.board_h / 2, glyph: '@', sprite }
    }

    /// The glyph drawn for the cursor on top of a board cell.
    pub fn glyph_overlay(&self) -> (c: char)
        ensures
            c == 'X',
    {
        'X'
    }

    /// Move one cell in `dir`, clamped to a `board_w` by `board_h` board so
    /// the cursor never leaves the playable area.
    pub fn move_in(&mut self, dir: Direction, board_w: usize, board_h: usize)
        requires
            dir == Direction::Down ==> old(self).y < usize::MAX,
            dir == Direction::Right ==> old(self).x < usize::MAX,
        ensures
            *final(self) == old(self).moved(dir, board_w, board_h),
    {
        match dir {
            Direction::Up => {
                if self.y > 0 {
                    self.y -= 1;
                }
            },
            Direction::Down => {
                if self.y + 1 < board_h {
                    self.y += 1;
                }
            },
            Direction::Left => {
                if self.x > 0 {
                    self.x -= 1;
                }
            },
            Direction::Right => {
                if self.x + 1 < board_w {
                    self.x += 1;
                }
            },
        }
    }
}

/// A cursor on the board stays on the board, whatever it is moved by.
pub proof fn law_move_stays_on_board(p: Player, dir: Direction, w: usize, h: usize)
    requires
        p.x < w,
        p.y < h,
    ensures
        p.moved(dir, w, h).x < w,
        p.moved(dir, w, h).y < h,
{
}

} // verus!
