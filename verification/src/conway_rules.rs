//! A stricter, timer-driven rulebook.
//!
//! - Healthy cells follow Conway's Game of Life (born on exactly 3 live
//!   neighbours, survive on 2 or 3); a healthy cell that dies by Conway
//!   becomes Unhealthy and starts a timer.
//! - Unhealthy cells are inert and temporary: left alone, one disappears once
//!   `unhealthy_lifespan` frames have elapsed since it became unhealthy.
//! - Disease attacks only healthy cells: a diseased cell infects adjacent
//!   healthy neighbours, and dies once `disease_lifespan` frames have elapsed.
//!
//! The board's age buffer holds, for an unhealthy or diseased cell, the frame
//! at which it entered that state.
use vstd::prelude::*;

use crate::coral::Cell;
use crate::rulebook::{
    Board, Color, Rulebook, board_wf, grid_wf, has_neighbor_in, in_bounds, lemma_cell_index,
    law_neighbor_count_is_moore, lemma_count_neighbors_bound,
    live_neighbor_count, neighbor_count_of, snapshot, snapshot_has_diseased, snapshot_live_count,
};
use crate::rules::{colour_cube, colour_cube_vec, rainbow_color};

verus! {

/// Frames elapsed since frame `born`, as the frame counter reads in 32 bits,
/// never below zero.
pub open spec fn elapsed(frame: usize, born: u32) -> int {
    if (frame as u32) > born {
        (frame as u32) - born
    } else {
        0
    }
}

/// The timer-driven, separate-disease-automaton ruleset.
pub struct ConwayRules {
    /// Frames an unhealthy cell persists before disappearing (if not fixed).
    pub unhealthy_lifespan: u32,
    /// Frames a diseased cell persists before dying off to Empty.
    pub disease_lifespan: u32,
    /// Xterm colour codes cycled for healthy coral.
    pub healthy_palette: Vec<u8>,
}

impl Default for ConwayRules {
    fn default() -> (r: ConwayRules)
        ensures
            r.unhealthy_lifespan == 6,
            r.disease_lifespan == 4,
            r.healthy_palette@ == colour_cube(),
    {
        ConwayRules { unhealthy_lifespan: 6, disease_lifespan: 4, healthy_palette: colour_cube_vec() }
    }
}

impl ConwayRules {
    /// The life-step successor of cell `i`.
    pub open spec fn conway_life_cell(
        &self,
        cells: Seq<Cell>,
        ages: Seq<u32>,
        w: nat,
        h: nat,
        frame: usize,
        i: int,
    ) -> Cell {
        let n = live_neighbor_count(cells, w as int, h as int, i % (w as int), i / (w as int));
        match cells[i] {
            Cell::Empty => if n == 3 {
                Cell::Healthy
            } else {
                Cell::Empty
            },
            Cell::Healthy => if n != 2 && n != 3 {
                Cell::Unhealthy
            } else {
                Cell::Healthy
            },
            Cell::Unhealthy => if elapsed(frame, ages[i]) >= self.unhealthy_lifespan {
                Cell::Empty
            } else {
                Cell::Unhealthy
            },
            Cell::Diseased => Cell::Diseased,
        }
    }

    /// The age of cell `i` after the life step: a healthy cell that dies by
    /// Conway starts its timer at `frame`.
    pub open spec fn conway_life_age(
        &self,
        cells: Seq<Cell>,
        ages: Seq<u32>,
        w: nat,
        h: nat,
        frame: usize,
        i: int,
    ) -> u32 {
        let n = live_neighbor_count(cells, w as int, h as int, i % (w as int), i / (w as int));
        if cells[i] == Cell::Healthy && n != 2 && n != 3 {
            frame as u32
        } else {
            ages[i]
        }
    }

    /// Whether cell `i` has a diseased Moore neighbour.
    pub open spec fn exposed(cells: Seq<Cell>, w: nat, h: nat, i: int) -> bool {
        neighbor_count_of(cells, w as int, h as int, i % (w as int), i / (w as int), Cell::Diseased)
            > 0
    }

    /// The disease-step successor of cell `i`.
    pub open spec fn conway_disease_cell(
        &self,
        cells: Seq<Cell>,
        ages: Seq<u32>,
        w: nat,
        h: nat,
        frame: usize,
        i: int,
    ) -> Cell {
        match cells[i] {
            Cell::Healthy => if Self::exposed(cells, w, h, i) {
                Cell::Diseased
            } else {
                Cell::Healthy
            },
            Cell::Diseased => if elapsed(frame, ages[i]) >= self.disease_lifespan {
                Cell::Empty
            } else {
                Cell::Diseased
            },
            other => other,
        }
    }

    /// The age of cell `i` after the disease step: a newly infected cell
    /// starts its timer at `frame`.
    pub open spec fn conway_disease_age(
        &self,
        cells: Seq<Cell>,
        ages: Seq<u32>,
        w: nat,
        h: nat,
        frame: usize,
        i: int,
    ) -> u32 {
        if cells[i] == Cell::Healthy && Self::exposed(cells, w, h, i) {
            frame as u32
        } else {
            ages[i]
        }
    }

    /// The cells after one disease step.
    pub open spec fn conway_disease_cells(
        &self,
        cells: Seq<Cell>,
        ages: Seq<u32>,
        w: nat,
        h: nat,
        frame: usize,
    ) -> Seq<Cell> {
        Seq::new(w * h, |i: int| self.conway_disease_cell(cells, ages, w, h, frame, i))
    }

    /// The ages after one disease step.
    pub open spec fn conway_disease_ages(
        &self,
        cells: Seq<Cell>,
        ages: Seq<u32>,
        w: nat,
        h: nat,
        frame: usize,
    ) -> Seq<u32> {
        Seq::new(w * h, |i: int| self.conway_disease_age(cells, ages, w, h, frame, i))
    }

    /// A stable rainbow colour for a healthy cell from its position.
    fn rainbow(&self, x: usize, y: usize) -> (c: Color)
        ensures
            c == rainbow_color(self.healthy_palette@, x, y),
    {
        if self.healthy_palette.len() == 0 {
            return Color::White;
        }
        let idx = (x.wrapping_mul(7).wrapping_add(y.wrapping_mul(13))) % self.healthy_palette.len();
        Color::Xterm(self.healthy_palette[idx])
    }
}

/// Disease attacks only healthy coral: unhealthy and empty cells keep their
/// state and age through a disease step, and every cell the step leaves
/// diseased was healthy or already diseased.
pub proof fn law_disease_spares_unhealthy(
    r: ConwayRules,
    cells: Seq<Cell>,
    ages: Seq<u32>,
    w: nat,
    h: nat,
    frame: usize,
    i: int,
)
    requires
        0 <= i < cells.len(),
    ensures
        (cells[i] == Cell::Unhealthy || cells[i] == Cell::Empty) ==> r.conway_disease_cell(
            cells,
            ages,
            w,
            h,
            frame,
            i,
        ) == cells[i] && r.conway_disease_age(cells, ages, w, h, frame, i) == ages[i],
        r.conway_disease_cell(cells, ages, w, h, frame, i) == Cell::Diseased ==> (cells[i]
            == Cell::Healthy || cells[i] == Cell::Diseased),
{
}

/// The life step leaves diseased cells to the disease automaton, never turns
/// an unhealthy cell back into coral, and only gives a cell a new timer when
/// healthy coral dies into an unhealthy cell.
pub proof fn law_life_step_roles(
    r: ConwayRules,
    cells: Seq<Cell>,
    ages: Seq<u32>,
    w: nat,
    h: nat,
    frame: usize,
    i: int,
)
    requires
        0 <= i < cells.len(),
    ensures
        cells[i] == Cell::Diseased ==> r.conway_life_cell(cells, ages, w, h, frame, i)
            == Cell::Diseased,
        cells[i] == Cell::Unhealthy ==> (r.conway_life_cell(cells, ages, w, h, frame, i)
            == Cell::Unhealthy || r.conway_life_cell(cells, ages, w, h, frame, i) == Cell::Empty),
        r.conway_life_age(cells, ages, w, h, frame, i) != ages[i] ==> cells[i] == Cell::Healthy
            && r.conway_life_cell(cells, ages, w, h, frame, i) == Cell::Unhealthy,
{
}

/// An unhealthy cell left alone disappears on the first life step at which
/// `unhealthy_lifespan` frames have elapsed since it became unhealthy, and a
/// diseased cell dies on the first disease step at which `disease_lifespan`
/// frames have elapsed.
pub proof fn law_timers_expire(
    r: ConwayRules,
    cells: Seq<Cell>,
    ages: Seq<u32>,
    w: nat,
    h: nat,
    frame: usize,
    i: int,
)
    requires
        0 <= i < cells.len(),
    ensures
        cells[i] == Cell::Unhealthy ==> (r.conway_life_cell(cells, ages, w, h, frame, i)
            == Cell::Empty <==> elapsed(frame, ages[i]) >= r.unhealthy_lifespan),
        cells[i] == Cell::Diseased ==> (r.conway_disease_cell(cells, ages, w, h, frame, i)
            == Cell::Empty <==> elapsed(frame, ages[i]) >= r.disease_lifespan),
{
}

/// One life step on cell `(x, y)`: an empty cell is born healthy on exactly
/// 3 live Moore neighbours and stays empty otherwise; healthy coral survives
/// on 2 or 3 and otherwise becomes unhealthy with its timer set to `frame`;
/// an unhealthy cell vanishes once `unhealthy_lifespan` frames have elapsed
/// since its timer was set and stays otherwise; a diseased cell is left
/// alone. Only a dying healthy cell's age changes.
pub proof fn law_conway_life_cell(
    r: ConwayRules,
    cells: Seq<Cell>,
    ages: Seq<u32>,
    w: nat,
    h: nat,
    frame: usize,
    x: int,
    y: int,
)
    requires
        grid_wf(w, h, cells, ages),
        in_bounds(w as int, h as int, x, y),
    ensures
        ({
            let i = y * w + x;
            let n = live_neighbor_count(cells, w as int, h as int, x, y);
            let next = r.life_cells(cells, ages, w, h, frame);
            let next_ages = r.life_ages(cells, ages, w, h, frame);
            let since = if (frame as u32) > ages[i] {
                (frame as u32) - ages[i]
            } else {
                0
            };
            &&& cells[i] == Cell::Empty ==> next[i] == (if n == 3 {
                Cell::Healthy
            } else {
                Cell::Empty
            }) && next_ages[i] == ages[i]
            &&& cells[i] == Cell::Healthy && (n == 2 || n == 3) ==> next[i] == Cell::Healthy
                && next_ages[i] == ages[i]
            &&& cells[i] == Cell::Healthy && !(n == 2 || n == 3) ==> next[i] == Cell::Unhealthy
                && next_ages[i] == frame as u32
            &&& cells[i] == Cell::Unhealthy ==> next[i] == (if since >= r.unhealthy_lifespan {
                Cell::Empty
            } else {
                Cell::Unhealthy
            }) && next_ages[i] == ages[i]
            &&& cells[i] == Cell::Diseased ==> next[i] == Cell::Diseased && next_ages[i] == ages[i]
        }),
{
    lemma_cell_index(w as int, h as int, x, y);
}

/// One disease step on cell `(x, y)`: healthy coral with a diseased Moore
/// neighbour (diagonals included) becomes diseased with its timer set to
/// `frame`, and stays healthy otherwise; a diseased cell dies once
/// `disease_lifespan` frames have elapsed since its timer was set; unhealthy
/// and empty cells are untouched.
pub proof fn law_conway_disease_cell(
    r: ConwayRules,
    cells: Seq<Cell>,
    ages: Seq<u32>,
    w: nat,
    h: nat,
    frame: usize,
    x: int,
    y: int,
    next: Seq<Cell>,
    next_ages: Seq<u32>,
)
    requires
        grid_wf(w, h, cells, ages),
        in_bounds(w as int, h as int, x, y),
        r.disease_result(cells, ages, w, h, frame, next, next_ages),
    ensures
        ({
            let i = y * w + x;
            let exposed = has_neighbor_in(cells, w as int, h as int, x, y, Cell::Diseased);
            let since = if (frame as u32) > ages[i] {
                (frame as u32) - ages[i]
            } else {
                0
            };
            &&& cells[i] == Cell::Healthy && exposed ==> next[i] == Cell::Diseased && next_ages[i]
                == frame as u32
            &&& cells[i] == Cell::Healthy && !exposed ==> next[i] == Cell::Healthy && next_ages[i]
                == ages[i]
            &&& cells[i] == Cell::Diseased ==> next[i] == (if since >= r.disease_lifespan {
                Cell::Empty
            } else {
                Cell::Diseased
            }) && next_ages[i] == ages[i]
            &&& (cells[i] == Cell::Unhealthy || cells[i] == Cell::Empty) ==> next[i] == cells[i]
                && next_ages[i] == ages[i]
        }),
{
    lemma_cell_index(w as int, h as int, x, y);
    law_neighbor_count_is_moore(cells, w as int, h as int, x, y, Cell::Diseased);
}

impl Rulebook for ConwayRules {
    open spec fn life_cells(
        &self,
        cells: Seq<Cell>,
        ages: Seq<u32>,
        w: nat,
        h: nat,
        frame: usize,
    ) -> Seq<Cell> {
        Seq::new(w * h, |i: int| self.conway_life_cell(cells, ages, w, h, frame, i))
    }

    open spec fn life_ages(
        &self,
        cells: Seq<Cell>,
        ages: Seq<u32>,
        w: nat,
        h: nat,
        frame: usize,
    ) -> Seq<u32> {
        Seq::new(w * h, |i: int| self.conway_life_age(cells, ages, w, h, frame, i))
    }

    open spec fn disease_result(
        &self,
        cells: Seq<Cell>,
        ages: Seq<u32>,
        w: nat,
        h: nat,
        frame: usize,
        next_cells: Seq<Cell>,
        next_ages: Seq<u32>,
    ) -> bool {
        &&& next_cells == self.conway_disease_cells(cells, ages, w, h, frame)
        &&& next_ages == self.conway_disease_ages(cells, ages, w, h, frame)
    }

    open spec fn glyph_of(&self, cell: Cell) -> char {
        match cell {
            Cell::Empty => ' ',
            Cell::Healthy => '@',
            Cell::Unhealthy => 'O',
            Cell::Diseased => '#',
        }
    }

    open spec fn color_of(&self, cell: Cell, x: usize, y: usize) -> Color {
        match cell {
            Cell::Healthy => rainbow_color(self.healthy_palette@, x, y),
            Cell::Unhealthy => Color::Grey,
            Cell::Diseased => Color::Red,
            Cell::Empty => Color::Black,
        }
    }

    open spec fn allows_kill(&self) -> bool {
        true
    }

    /// Healthy cells follow classic Conway against all live cells, but death
    /// routes to Unhealthy (timer started at `frame`) rather than Empty;
    /// unhealthy cells vanish once their lifespan has elapsed; diseased
    /// cells are left to the disease automaton.
    fn life_step<B: Board>(&self, board: &mut B, frame: usize) {
        let w = board.width();
        let h = board.height();
        let current = snapshot(board);
        let ghost cells0 = current@;
        let ghost ages0 = board.board_ages();
        let ghost tc = self.life_cells(cells0, ages0, w as nat, h as nat, frame);
        let ghost ta = self.life_ages(cells0, ages0, w as nat, h as nat, frame);
        let mut y: usize = 0;
        while y < h
            invariant
                board_wf(board),
                board.board_w() == w,
                board.board_h() == h,
                current@ == cells0,
                cells0.len() == w * h,
                ages0.len() == w * h,
                w * h <= isize::MAX,
                tc == self.life_cells(cells0, ages0, w as nat, h as nat, frame),
                ta == self.life_ages(cells0, ages0, w as nat, h as nat, frame),
                y <= h,
                y * w <= w * h,
                forall|j: int|
                    0 <= j < w * h ==> #[trigger] board.board_cells()[j] == if j < y * w {
                        tc[j]
                    } else {
                        cells0[j]
                    },
                forall|j: int|
                    0 <= j < w * h ==> #[trigger] board.board_ages()[j] == if j < y * w {
                        ta[j]
                    } else {
                        ages0[j]
                    },
            decreases h - y,
        {
            let mut x: usize = 0;
            while x < w
                invariant
                    board_wf(board),
                    board.board_w() == w,
                    board.board_h() == h,
                    current@ == cells0,
                    cells0.len() == w * h,
                    ages0.len() == w * h,
                    w * h <= isize::MAX,
                    tc == self.life_cells(cells0, ages0, w as nat, h as nat, frame),
                    ta == self.life_ages(cells0, ages0, w as nat, h as nat, frame),
                    y < h,
                    x <= w,
                    forall|j: int|
                        0 <= j < w * h ==> #[trigger] board.board_cells()[j] == if j < y * w + x {
                            tc[j]
                        } else {
                            cells0[j]
                        },
                    forall|j: int|
                        0 <= j < w * h ==> #[trigger] board.board_ages()[j] == if j < y * w + x {
                            ta[j]
                        } else {
                            ages0[j]
                        },
                decreases w - x,
            {
                proof {
                    lemma_cell_index(w as int, h as int, x as int, y as int);
                    lemma_count_neighbors_bound(
                        cells0,
                        w as int,
                        h as int,
                        x as int,
                        y as int,
                        Cell::Empty,
                        false,
                        8,
                    );
                }
                let ghost i = y * w + x;
                let cell = current[y * w + x];
                let n = snapshot_live_count(&current, w, h, x, y);
                match cell {
                    Cell::Empty => {
                        if n == 3 {
                            board.set_cell(x, y, Cell::Healthy);
                        }
                    },
                    Cell::Healthy => {
                        if n != 2 && n != 3 {
                            board.set_cell(x, y, Cell::Unhealthy);
                            board.set_age(x, y, frame as u32);
                        }
                    },
                    Cell::Unhealthy => {
                        let born = board.age(x, y);
                        if (frame as u32).saturating_sub(born) >= self.unhealthy_lifespan {
                            board.set_cell(x, y, Cell::Empty);
                        }
                    },
                    Cell::Diseased => {},
                }
                assert(board.board_cells()[i] == tc[i]);
                assert(board.board_ages()[i] == ta[i]);
                x += 1;
            }
            assert(y * w + w == (y + 1) * w) by (nonlinear_arith);
            assert((y + 1) * w <= w * h) by (nonlinear_arith)
                requires
                    y < h,
            ;
            y += 1;
        }
        assert(y * w == w * h) by (nonlinear_arith)
            requires
                y == h,
        ;
        assert(board.board_cells() =~= tc);
        assert(board.board_ages() =~= ta);
    }

    /// A healthy cell adjacent to a diseased one becomes diseased (timer
    /// started at `frame`); a diseased cell dies once its lifespan has
    /// elapsed. Unhealthy and empty cells are immune.
    fn disease_step<B: Board>(&self, board: &mut B, frame: usize) {
        let w = board.width();
        let h = board.height();
        let current = snapshot(board);
        let ghost cells0 = current@;
        let ghost ages0 = board.board_ages();
        let ghost tc = self.conway_disease_cells(cells0, ages0, w as nat, h as nat, frame);
        let ghost ta = self.conway_disease_ages(cells0, ages0, w as nat, h as nat, frame);
        let mut y: usize = 0;
        while y < h
            invariant
                board_wf(board),
                board.board_w() == w,
                board.board_h() == h,
                current@ == cells0,
                cells0.len() == w * h,
                ages0.len() == w * h,
                w * h <= isize::MAX,
                tc == self.conway_disease_cells(cells0, ages0, w as nat, h as nat, frame),
                ta == self.conway_disease_ages(cells0, ages0, w as nat, h as nat, frame),
                y <= h,
                y * w <= w * h,
                forall|j: int|
                    0 <= j < w * h ==> #[trigger] board.board_cells()[j] == if j < y * w {
                        tc[j]
                    } else {
                        cells0[j]
                    },
                forall|j: int|
                    0 <= j < w * h ==> #[trigger] board.board_ages()[j] == if j < y * w {
                        ta[j]
                    } else {
                        ages0[j]
                    },
            decreases h - y,
        {
            let mut x: usize = 0;
            while x < w
                invariant
                    board_wf(board),
                    board.board_w() == w,
                    board.board_h() == h,
                    current@ == cells0,
                    cells0.len() == w * h,
                    ages0.len() == w * h,
                    w * h <= isize::MAX,
                    tc == self.conway_disease_cells(cells0, ages0, w as nat, h as nat, frame),
                    ta == self.conway_disease_ages(cells0, ages0, w as nat, h as nat, frame),
                    y < h,
                    x <= w,
                    forall|j: int|
                        0 <= j < w * h ==> #[trigger] board.board_cells()[j] == if j < y * w + x {
                            tc[j]
                        } else {
                            cells0[j]
                        },
                    forall|j: int|
                        0 <= j < w * h ==> #[trigger] board.board_ages()[j] == if j < y * w + x {
                            ta[j]
                        } else {
                            ages0[j]
                        },
                decreases w - x,
            {
                proof {
                    lemma_cell_index(w as int, h as int, x as int, y as int);
                }
                let ghost i = y * w + x;
                match current[y * w + x] {
                    Cell::Healthy => {
                        if snapshot_has_diseased(&current, w, h, x, y) {
                            board.set_cell(x, y, Cell::Diseased);
                            board.set_age(x, y, frame as u32);
                        }
                    },
                    Cell::Diseased => {
                        let born = board.age(x, y);
                        if (frame as u32).saturating_sub(born) >= self.disease_lifespan {
                            board.set_cell(x, y, Cell::Empty);
                        }
                    },
                    _ => {},
                }
                assert(board.board_cells()[i] == tc[i]);
                assert(board.board_ages()[i] == ta[i]);
                x += 1;
            }
            assert(y * w + w == (y + 1) * w) by (nonlinear_arith);
            assert((y + 1) * w <= w * h) by (nonlinear_arith)
                requires
                    y < h,
            ;
            y += 1;
        }
        assert(y * w == w * h) by (nonlinear_arith)
            requires
                y == h,
        ;
        assert(board.board_cells() =~= tc);
        assert(board.board_ages() =~= ta);
    }

    fn cell_glyph(&self, cell: Cell) -> (g: char) {
        match cell {
            Cell::Empty => ' ',
            Cell::Healthy => '@',
            Cell::Unhealthy => 'O',
            Cell::Diseased => '#',
        }
    }

    fn cell_color(&self, cell: Cell, x: usize, y: usize) -> (c: Color) {
        match cell {
            Cell::Healthy => self.rainbow(x, y),
            Cell::Unhealthy => Color::Grey,
            Cell::Diseased => Color::Red,
            Cell::Empty => Color::Black,
        }
    }

    /// This ruleset gives the player a verb to kill diseased cells.
    fn player_can_kill_disease(&self) -> (b: bool) {
        true
    }
}

} // verus!
