//! The interface every coral ruleset implements.
//!
//! A [`Rulebook`] owns the life and disease automata and the appearance of
//! each cell state. It drives the reef only through the [`Board`] interface:
//! dimensions, neighbour-aware cell access, and a parallel per-cell age
//! buffer that timer-based rules rely on.
//!
//! The mathematical model of a board is its width `w`, height `h`, a
//! row-major sequence of `w * h` cells and a parallel sequence of `w * h`
//! ages. Cell `(x, y)` lives at index `y * w + x`; every position outside the
//! board reads as [`Cell::Empty`].
use vstd::prelude::*;
use vstd::arithmetic::div_mod::{lemma_fundamental_div_mod, lemma_fundamental_div_mod_converse};

use crate::coral::Cell;

verus! {

/// The colours a rulebook can give a cell on screen.
#[derive(Clone, Copy, Debug, PartialEq, Eq, Structural)]
pub enum Color {
    Black,
    White,
    Grey,
    Red,
    /// A colour of the 256-colour Xterm palette.
    Xterm(u8),
}

/// A well-formed board: both buffers hold exactly `w * h` entries, and the
/// board is small enough that every coordinate fits an `isize`.
pub open spec fn grid_wf(w: nat, h: nat, cells: Seq<Cell>, ages: Seq<u32>) -> bool {
    &&& cells.len() == w * h
    &&& ages.len() == w * h
    &&& w * h <= isize::MAX
}

/// Whether `(x, y)` lies on a `w` by `h` board.
pub open spec fn in_bounds(w: int, h: int, x: int, y: int) -> bool {
    0 <= x < w && 0 <= y < h
}

/// The cell at `(x, y)`: the stored state on the board, `Empty` elsewhere.
pub open spec fn cell_at(cells: Seq<Cell>, w: int, h: int, x: int, y: int) -> Cell {
    if in_bounds(w, h, x, y) {
        cells[y * w + x]
    } else {
        Cell::Empty
    }
}

/// Column offset of the `k`-th Moore neighbour (row by row, centre skipped).
pub open spec fn neighbor_dx(k: int) -> int {
    if k == 0 || k == 3 || k == 5 {
        -1
    } else if k == 1 || k == 6 {
        0
    } else {
        1
    }
}

/// Row offset of the `k`-th Moore neighbour (row by row, centre skipped).
pub open spec fn neighbor_dy(k: int) -> int {
    if k < 3 {
        -1
    } else if k < 5 {
        0
    } else {
        1
    }
}

/// How many of the first `k` Moore neighbours of `(x, y)` are (when
/// `matching`) or are not (when `!matching`) in state `target`.
pub open spec fn count_neighbors(
    cells: Seq<Cell>,
    w: int,
    h: int,
    x: int,
    y: int,
    target: Cell,
    matching: bool,
    k: nat,
) -> nat
    decreases k,
{
    if k == 0 {
        0
    } else {
        let c = cell_at(cells, w, h, x + neighbor_dx(k - 1), y + neighbor_dy(k - 1));
        count_neighbors(cells, w, h, x, y, target, matching, (k - 1) as nat) + if (c == target)
            == matching {
            1nat
        } else {
            0nat
        }
    }
}

/// Number of live (non-empty) Moore neighbours of `(x, y)`.
pub open spec fn live_neighbor_count(cells: Seq<Cell>, w: int, h: int, x: int, y: int) -> nat {
    count_neighbors(cells, w, h, x, y, Cell::Empty, false, 8)
}

/// Number of Moore neighbours of `(x, y)` in state `target`.
pub open spec fn neighbor_count_of(
    cells: Seq<Cell>,
    w: int,
    h: int,
    x: int,
    y: int,
    target: Cell,
) -> nat {
    count_neighbors(cells, w, h, x, y, target, true, 8)
}

/// A count over the first `k` neighbours never exceeds `k`.
pub proof fn lemma_count_neighbors_bound(
    cells: Seq<Cell>,
    w: int,
    h: int,
    x: int,
    y: int,
    target: Cell,
    matching: bool,
    k: nat,
)
    ensures
        count_neighbors(cells, w, h, x, y, target, matching, k) <= k,
    decreases k,
{
    if k > 0 {
        lemma_count_neighbors_bound(cells, w, h, x, y, target, matching, (k - 1) as nat);
    }
}

/// Position `(x, y)` of a board of width `w` and height `h` has row-major
/// index `y * w + x`, from which `x` and `y` are recovered by `%` and `/`.
pub proof fn lemma_cell_index(w: int, h: int, x: int, y: int)
    requires
        in_bounds(w, h, x, y),
    ensures
        0 <= y * w + x < w * h,
        x <= y * w + x,
        y <= y * w + x,
        (y * w + x) % w == x,
        (y * w + x) / w == y,
{
    lemma_fundamental_div_mod_converse(y * w + x, w, y, x);
    assert(0 <= y * w + x < w * h && y <= y * w) by (nonlinear_arith)
        requires
            0 <= x < w,
            0 <= y < h,
    ;
}

/// Every index of a `w` by `h` board is the index of the position
/// `(i % w, i / w)`, which lies on the board.
pub proof fn lemma_index_cell(w: int, h: int, i: int)
    requires
        w >= 0,
        h >= 0,
        0 <= i < w * h,
    ensures
        w > 0,
        h > 0,
        in_bounds(w, h, i % w, i / w),
        (i / w) * w + i % w == i,
{
    assert(w > 0 && h > 0) by (nonlinear_arith)
        requires
            0 <= i < w * h,
            w >= 0,
            h >= 0,
    ;
    lemma_fundamental_div_mod(i, w);
    assert(0 <= i / w < h) by (nonlinear_arith)
        requires
            0 <= i < w * h,
            w > 0,
            i == w * (i / w) + i % w,
            0 <= i % w < w,
    ;
    assert((i / w) * w == w * (i / w)) by (nonlinear_arith);
}

/// The grid surface a rulebook reads and writes during a step.
///
/// Out-of-bounds reads give `Empty` (and age 0); out-of-bounds writes are
/// ignored. Setting a cell does not itself reset its age: a rulebook decides
/// when to reset, through [`Board::set_age`].
pub trait Board: Sized {
    /// Board width in cells.
    spec fn board_w(&self) -> nat;

    /// Board height in cells.
    spec fn board_h(&self) -> nat;

    /// The cells, row-major.
    spec fn board_cells(&self) -> Seq<Cell>;

    /// The per-cell ages, row-major.
    spec fn board_ages(&self) -> Seq<u32>;

    /// Board width in cells.
    fn width(&self) -> (r: usize)
        requires
            grid_wf(self.board_w(), self.board_h(), self.board_cells(), self.board_ages()),
        ensures
            r == self.board_w(),
    ;

    /// Board height in cells.
    fn height(&self) -> (r: usize)
        requires
            grid_wf(self.board_w(), self.board_h(), self.board_cells(), self.board_ages()),
        ensures
            r == self.board_h(),
    ;

    /// Read a cell; out-of-bounds reads return `Empty`.
    fn cell(&self, x: isize, y: isize) -> (c: Cell)
        requires
            grid_wf(self.board_w(), self.board_h(), self.board_cells(), self.board_ages()),
        ensures
            c == cell_at(
                self.board_cells(),
                self.board_w() as int,
                self.board_h() as int,
                x as int,
                y as int,
            ),
    ;

    /// Write a cell; out-of-range writes are ignored and ages are untouched.
    fn set_cell(&mut self, x: usize, y: usize, cell: Cell)
        requires
            grid_wf(old(self).board_w(), old(self).board_h(), old(self).board_cells(), old(self).board_ages()),
        ensures
            grid_wf(final(self).board_w(), final(self).board_h(), final(self).board_cells(), final(self).board_ages()),
            final(self).board_w() == old(self).board_w(),
            final(self).board_h() == old(self).board_h(),
            final(self).board_ages() == old(self).board_ages(),
            final(self).board_cells() == (if in_bounds(
                old(self).board_w() as int,
                old(self).board_h() as int,
                x as int,
                y as int,
            ) {
                old(self).board_cells().update(y * old(self).board_w() + x, cell)
            } else {
                old(self).board_cells()
            }),
    ;

    /// Read a cell's age; out-of-bounds reads return 0.
    fn age(&self, x: usize, y: usize) -> (a: u32)
        requires
            grid_wf(self.board_w(), self.board_h(), self.board_cells(), self.board_ages()),
        ensures
            a == (if in_bounds(self.board_w() as int, self.board_h() as int, x as int, y as int) {
                self.board_ages()[y * self.board_w() + x]
            } else {
                0
            }),
    ;

    /// Set a cell's age; out-of-range writes are ignored and cells are untouched.
    fn set_age(&mut self, x: usize, y: usize, age: u32)
        requires
            grid_wf(old(self).board_w(), old(self).board_h(), old(self).board_cells(), old(self).board_ages()),
        ensures
            grid_wf(final(self).board_w(), final(self).board_h(), final(self).board_cells(), final(self).board_ages()),
            final(self).board_w() == old(self).board_w(),
            final(self).board_h() == old(self).board_h(),
            final(self).board_cells() == old(self).board_cells(),
            final(self).board_ages() == (if in_bounds(
                old(self).board_w() as int,
                old(self).board_h() as int,
                x as int,
                y as int,
            ) {
                old(self).board_ages().update(y * old(self).board_w() + x, age)
            } else {
                old(self).board_ages()
            }),
    ;

    /// Count live (non-empty) Moore neighbours of `(x, y)`.
    fn live_neighbors(&self, x: usize, y: usize) -> (n: u8)
        requires
            grid_wf(self.board_w(), self.board_h(), self.board_cells(), self.board_ages()),
            x < isize::MAX,
            y < isize::MAX,
        ensures
            n == live_neighbor_count(
                self.board_cells(),
                self.board_w() as int,
                self.board_h() as int,
                x as int,
                y as int,
            ),
    {
        let mut n: u8 = 0;
        let mut k: usize = 0;
        while k < 8
            invariant
                grid_wf(self.board_w(), self.board_h(), self.board_cells(), self.board_ages()),
                x < isize::MAX,
                y < isize::MAX,
                k <= 8,
                n <= k,
                n == count_neighbors(
                    self.board_cells(),
                    self.board_w() as int,
                    self.board_h() as int,
                    x as int,
                    y as int,
                    Cell::Empty,
                    false,
                    k as nat,
                ),
            decreases 8 - k,
        {
            let (dx, dy) = neighbor_offset(k);
            if self.cell(x as isize + dx, y as isize + dy) != Cell::Empty {
                n += 1;
            }
            k += 1;
        }
        n
    }

    /// Count Moore neighbours of `(x, y)` that are exactly `target`.
    fn neighbors_of(&self, x: usize, y: usize, target: Cell) -> (n: u8)
        requires
            grid_wf(self.board_w(), self.board_h(), self.board_cells(), self.board_ages()),
            x < isize::MAX,
            y < isize::MAX,
        ensures
            n == neighbor_count_of(
                self.board_cells(),
                self.board_w() as int,
                self.board_h() as int,
                x as int,
                y as int,
                target,
            ),
    {
        let mut n: u8 = 0;
        let mut k: usize = 0;
        while k < 8
            invariant
                grid_wf(self.board_w(), self.board_h(), self.board_cells(), self.board_ages()),
                x < isize::MAX,
                y < isize::MAX,
                k <= 8,
                n <= k,
                n == count_neighbors(
                    self.board_cells(),
                    self.board_w() as int,
                    self.board_h() as int,
                    x as int,
                    y as int,
                    target,
                    true,
                    k as nat,
                ),
            decreases 8 - k,
        {
            let (dx, dy) = neighbor_offset(k);
            if self.cell(x as isize + dx, y as isize + dy) == target {
                n += 1;
            }
            k += 1;
        }
        n
    }
}

/// A complete coral ruleset: its automata and its appearance.
///
/// `life_step` and `disease_step` are run on their own cadences; each
/// receives the board and the current frame number (so timer logic can
/// compute elapsed frames) and rewrites the board in place. What a step does
/// is stated over the board's model by the rulebook's `life_cells` /
/// `life_ages` and `disease_result`; a disease step may involve chance, so it
/// is stated as a relation between the board before and after it.
pub trait Rulebook: Sized {
    /// The cells after one life step from `cells` / `ages` on a `w` by `h` board.
    spec fn life_cells(&self, cells: Seq<Cell>, ages: Seq<u32>, w: nat, h: nat, frame: usize) -> Seq<
        Cell,
    >;

    /// The ages after one life step.
    spec fn life_ages(&self, cells: Seq<Cell>, ages: Seq<u32>, w: nat, h: nat, frame: usize) -> Seq<
        u32,
    >;

    /// Whether one disease step may take `cells` / `ages` on a `w` by `h`
    /// board to `next_cells` / `next_ages`.
    spec fn disease_result(
        &self,
        cells: Seq<Cell>,
        ages: Seq<u32>,
        w: nat,
        h: nat,
        frame: usize,
        next_cells: Seq<Cell>,
        next_ages: Seq<u32>,
    ) -> bool;

    /// The glyph of a cell state.
    spec fn glyph_of(&self, cell: Cell) -> char;

    /// The colour of a cell state at a board position.
    spec fn color_of(&self, cell: Cell, x: usize, y: usize) -> Color;

    /// Whether the player may kill diseased cells.
    spec fn allows_kill(&self) -> bool;

    /// Advance the life automaton one step.
    fn life_step<B: Board>(&self, board: &mut B, frame: usize)
        requires
            board_wf(old(board)),
        ensures
            board_wf(final(board)),
            final(board).board_w() == old(board).board_w(),
            final(board).board_h() == old(board).board_h(),
            final(board).board_cells() == self.life_cells(
                old(board).board_cells(),
                old(board).board_ages(),
                old(board).board_w(),
                old(board).board_h(),
                frame,
            ),
            final(board).board_ages() == self.life_ages(
                old(board).board_cells(),
                old(board).board_ages(),
                old(board).board_w(),
                old(board).board_h(),
                frame,
            ),
    ;

    /// Advance the disease automaton one step.
    fn disease_step<B: Board>(&self, board: &mut B, frame: usize)
        requires
            board_wf(old(board)),
        ensures
            board_wf(final(board)),
            final(board).board_w() == old(board).board_w(),
            final(board).board_h() == old(board).board_h(),
            self.disease_result(
                old(board).board_cells(),
                old(board).board_ages(),
                old(board).board_w(),
                old(board).board_h(),
                frame,
                final(board).board_cells(),
                final(board).board_ages(),
            ),
    ;

    /// The glyph used to draw a cell of the given state.
    fn cell_glyph(&self, cell: Cell) -> (g: char)
        ensures
            g == self.glyph_of(cell),
    ;

    /// The colour used to draw a cell at board position `(x, y)`.
    fn cell_color(&self, cell: Cell, x: usize, y: usize) -> (c: Color)
        ensures
            c == self.color_of(cell, x, y),
    ;

    /// Whether this rulebook lets the player kill a diseased cell at the cursor.
    fn player_can_kill_disease(&self) -> (b: bool)
        ensures
            b == self.allows_kill(),
    ;
}

/// A board whose buffers match its dimensions.
pub open spec fn board_wf<B: Board>(b: &B) -> bool {
    grid_wf(b.board_w(), b.board_h(), b.board_cells(), b.board_ages())
}

/// Every neighbour is either empty or live, and every live neighbour is
/// healthy, unhealthy or diseased: over the first `k` neighbours the empty
/// and live counts add up to `k`, and the three coral counts add up to the
/// live count.
pub proof fn law_neighbor_counts_partition(
    cells: Seq<Cell>,
    w: int,
    h: int,
    x: int,
    y: int,
    k: nat,
)
    ensures
        count_neighbors(cells, w, h, x, y, Cell::Empty, false, k) + count_neighbors(
            cells,
            w,
            h,
            x,
            y,
            Cell::Empty,
            true,
            k,
        ) == k,
        count_neighbors(cells, w, h, x, y, Cell::Healthy, true, k) + count_neighbors(
            cells,
            w,
            h,
            x,
            y,
            Cell::Unhealthy,
            true,
            k,
        ) + count_neighbors(cells, w, h, x, y, Cell::Diseased, true, k) == count_neighbors(
            cells,
            w,
            h,
            x,
            y,
            Cell::Empty,
            false,
            k,
        ),
    decreases k,
{
    if k > 0 {
        law_neighbor_counts_partition(cells, w, h, x, y, (k - 1) as nat);
    }
}

/// The eight Moore neighbours of `(x, y)` are each empty or live, and the
/// live ones are healthy, unhealthy or diseased.
pub proof fn law_moore_neighbors_partition(cells: Seq<Cell>, w: int, h: int, x: int, y: int)
    ensures
        live_neighbor_count(cells, w, h, x, y) + neighbor_count_of(cells, w, h, x, y, Cell::Empty)
            == 8,
        neighbor_count_of(cells, w, h, x, y, Cell::Healthy) + neighbor_count_of(
            cells,
            w,
            h,
            x,
            y,
            Cell::Unhealthy,
        ) + neighbor_count_of(cells, w, h, x, y, Cell::Diseased) == live_neighbor_count(
            cells,
            w,
            h,
            x,
            y,
        ),
{
    law_neighbor_counts_partition(cells, w, h, x, y, 8);
}

/// Some Moore neighbour of `(x, y)` (one of the eight cells at most one
/// column and one row away, diagonals included) is in state `target`.
pub open spec fn has_neighbor_in(cells: Seq<Cell>, w: int, h: int, x: int, y: int, target: Cell) -> bool {
    exists|dx: int, dy: int|
        -1 <= dx <= 1 && -1 <= dy <= 1 && !(dx == 0 && dy == 0) && #[trigger] cell_at(
            cells,
            w,
            h,
            x + dx,
            y + dy,
        ) == target
}

/// A count over the first `k` neighbours is positive exactly when one of
/// them is in the state counted.
proof fn lemma_count_positive(
    cells: Seq<Cell>,
    w: int,
    h: int,
    x: int,
    y: int,
    target: Cell,
    k: nat,
)
    ensures
        count_neighbors(cells, w, h, x, y, target, true, k) > 0 <==> exists|j: int|
            0 <= j < k && #[trigger] cell_at(cells, w, h, x + neighbor_dx(j), y + neighbor_dy(j))
                == target,
    decreases k,
{
    if k > 0 {
        lemma_count_positive(cells, w, h, x, y, target, (k - 1) as nat);
        if count_neighbors(cells, w, h, x, y, target, true, k) > 0 {
            if count_neighbors(cells, w, h, x, y, target, true, (k - 1) as nat) == 0 {
                let j = k - 1;
                assert(cell_at(cells, w, h, x + neighbor_dx(j), y + neighbor_dy(j)) == target);
            }
        }
    }
}

/// The neighbours counted by `neighbor_count_of` are exactly the Moore
/// neighbours: some neighbour is in state `target` if and only if the count
/// of such neighbours is positive.
pub proof fn law_neighbor_count_is_moore(
    cells: Seq<Cell>,
    w: int,
    h: int,
    x: int,
    y: int,
    target: Cell,
)
    ensures
        neighbor_count_of(cells, w, h, x, y, target) > 0 <==> has_neighbor_in(
            cells,
            w,
            h,
            x,
            y,
            target,
        ),
{
    lemma_count_positive(cells, w, h, x, y, target, 8);
    if neighbor_count_of(cells, w, h, x, y, target) > 0 {
        let j = choose|j: int|
            0 <= j < 8 && #[trigger] cell_at(cells, w, h, x + neighbor_dx(j), y + neighbor_dy(j))
                == target;
        let dx = neighbor_dx(j);
        let dy = neighbor_dy(j);
        assert(-1 <= dx <= 1 && -1 <= dy <= 1 && !(dx == 0 && dy == 0));
        assert(cell_at(cells, w, h, x + dx, y + dy) == target);
    }
    if has_neighbor_in(cells, w, h, x, y, target) {
        let (dx, dy) = choose|dx: int, dy: int|
            -1 <= dx <= 1 && -1 <= dy <= 1 && !(dx == 0 && dy == 0) && #[trigger] cell_at(
                cells,
                w,
                h,
                x + dx,
                y + dy,
            ) == target;
        let j = if dy == -1 {
            dx + 1
        } else if dy == 0 {
            if dx == -1 {
                3
            } else {
                4
            }
        } else {
            dx + 6
        };
        assert(neighbor_dx(j) == dx && neighbor_dy(j) == dy);
        assert(cell_at(cells, w, h, x + neighbor_dx(j), y + neighbor_dy(j)) == target);
    }
}

/// Counting over more neighbours never counts fewer.
pub proof fn lemma_count_neighbors_monotone(
    cells: Seq<Cell>,
    w: int,
    h: int,
    x: int,
    y: int,
    target: Cell,
    matching: bool,
    j: nat,
    k: nat,
)
    requires
        j <= k,
    ensures
        count_neighbors(cells, w, h, x, y, target, matching, j) <= count_neighbors(
            cells,
            w,
            h,
            x,
            y,
            target,
            matching,
            k,
        ),
    decreases k,
{
    if j < k {
        lemma_count_neighbors_monotone(cells, w, h, x, y, target, matching, j, (k - 1) as nat);
    }
}

/// Copy every cell of the board, row-major, so that a step can read the
/// state before the step while it writes the next one.
pub fn snapshot<B: Board>(board: &B) -> (v: Vec<Cell>)
    requires
        board_wf(board),
    ensures
        v@ == board.board_cells(),
{
    let w = board.width();
    let h = board.height();
    let ghost cells = board.board_cells();
    let mut v: Vec<Cell> = Vec::new();
    let mut y: usize = 0;
    while y < h
        invariant
            board_wf(board),
            w == board.board_w(),
            h == board.board_h(),
            cells == board.board_cells(),
            y <= h,
            y * w <= w * h,
            v@ == cells.take(y * w),
        decreases h - y,
    {
        let mut x: usize = 0;
        while x < w
            invariant
                board_wf(board),
                w == board.board_w(),
                h == board.board_h(),
                cells == board.board_cells(),
                y < h,
                x <= w,
                v@ == cells.take(y * w + x),
            decreases w - x,
        {
            proof {
                lemma_cell_index(w as int, h as int, x as int, y as int);
            }
            let c = board.cell(x as isize, y as isize);
            v.push(c);
            assert(v@ =~= cells.take(y * w + x + 1));
            x += 1;
        }
        assert(y * w + w == (y + 1) * w) by (nonlinear_arith);
        assert((y + 1) * w <= w * h) by (nonlinear_arith)
            requires
                y < h,
        ;
        y += 1;
    }
    assert(y * w == w * h) by (nonlinear_arith)
        requires
            y == h,
    ;
    assert(v@ =~= cells);
    v
}

/// Whether `cur` is a well-formed snapshot of a `w` by `h` board.
pub open spec fn snapshot_wf(cur: Seq<Cell>, w: nat, h: nat) -> bool {
    cur.len() == w * h && w * h <= isize::MAX
}

/// Count the live Moore neighbours of `(x, y)` in a snapshot.
pub fn snapshot_live_count(cur: &Vec<Cell>, w: usize, h: usize, x: usize, y: usize) -> (n: u8)
    requires
        snapshot_wf(cur@, w as nat, h as nat),
        in_bounds(w as int, h as int, x as int, y as int),
    ensures
        n == live_neighbor_count(cur@, w as int, h as int, x as int, y as int),
{
    proof {
        lemma_cell_index(w as int, h as int, x as int, y as int);
    }
    let mut n: u8 = 0;
    let mut k: usize = 0;
    while k < 8
        invariant
            snapshot_wf(cur@, w as nat, h as nat),
            in_bounds(w as int, h as int, x as int, y as int),
            x < isize::MAX,
            y < isize::MAX,
            k <= 8,
            n <= k,
            n == count_neighbors(cur@, w as int, h as int, x as int, y as int, Cell::Empty, false, k as nat),
        decreases 8 - k,
    {
        let (dx, dy) = neighbor_offset(k);
        let nx = x as isize + dx;
        let ny = y as isize + dy;
        if !(nx < 0 || ny < 0 || nx as usize >= w || ny as usize >= h) {
            proof {
                lemma_cell_index(w as int, h as int, nx as int, ny as int);
            }
            if cur[ny as usize * w + nx as usize] != Cell::Empty {
                n += 1;
            }
        }
        k += 1;
    }
    n
}

/// Whether any Moore neighbour of `(x, y)` in a snapshot is diseased.
pub fn snapshot_has_diseased(cur: &Vec<Cell>, w: usize, h: usize, x: usize, y: usize) -> (b: bool)
    requires
        snapshot_wf(cur@, w as nat, h as nat),
        in_bounds(w as int, h as int, x as int, y as int),
    ensures
        b == (neighbor_count_of(cur@, w as int, h as int, x as int, y as int, Cell::Diseased) > 0),
{
    proof {
        lemma_cell_index(w as int, h as int, x as int, y as int);
    }
    let mut k: usize = 0;
    while k < 8
        invariant
            snapshot_wf(cur@, w as nat, h as nat),
            in_bounds(w as int, h as int, x as int, y as int),
            x < isize::MAX,
            y < isize::MAX,
            k <= 8,
            count_neighbors(cur@, w as int, h as int, x as int, y as int, Cell::Diseased, true, k as nat) == 0,
        decreases 8 - k,
    {
        let (dx, dy) = neighbor_offset(k);
        let nx = x as isize + dx;
        let ny = y as isize + dy;
        if !(nx < 0 || ny < 0 || nx as usize >= w || ny as usize >= h) {
            proof {
                lemma_cell_index(w as int, h as int, nx as int, ny as int);
            }
            if cur[ny as usize * w + nx as usize] == Cell::Diseased {
                proof {
                    lemma_count_neighbors_monotone(
                        cur@,
                        w as int,
                        h as int,
                        x as int,
                        y as int,
                        Cell::Diseased,
                        true,
                        (k + 1) as nat,
                        8,
                    );
                }
                return true;
            }
        }
        k += 1;
    }
    false
}

/// The offset of the `k`-th Moore neighbour.
pub fn neighbor_offset(k: usize) -> (r: (isize, isize))
    requires
        k < 8,
    ensures
        r.0 == neighbor_dx(k as int),
        r.1 == neighbor_dy(k as int),
{
    let dx: isize = if k == 0 || k == 3 || k == 5 {
        -1
    } else if k == 1 || k == 6 {
        0
    } else {
        1
    };
    let dy: isize = if k < 3 {
        -1
    } else if k < 5 {
        0
    } else {
        1
    };
    (dx, dy)
}

} // verus!
