//! The classic, tunable rulebook.
//!
//! Living coral walks a health ladder (`Diseased -> Unhealthy -> Healthy`
//! and back down to death): it heals a step when its live-neighbour count is
//! comfortable and declines a step otherwise; empty cells are born on the
//! birth counts. Disease spreads from infected cells to any coral, and
//! diseased cells die off.
use vstd::prelude::*;

use crate::coral::{
    Cell, count_cells, healthy_positions_in, infected, law_seeding_infects_healthy,
    lemma_healthy_indices, lemma_reseeded_effect, reseeded,
};
use crate::random::random_below;
use crate::rulebook::{
    Board, Color, Rulebook, board_wf, grid_wf, has_neighbor_in, in_bounds, lemma_cell_index,
    lemma_index_cell, law_neighbor_count_is_moore,
    live_neighbor_count, neighbor_count_of, snapshot, snapshot_has_diseased, snapshot_live_count,
};

verus! {

/// One step up the health ladder: `Diseased -> Unhealthy -> Healthy`;
/// `Healthy` stays healthy and `Empty` stays empty.
pub open spec fn healed(c: Cell) -> Cell {
    match c {
        Cell::Diseased => Cell::Unhealthy,
        Cell::Unhealthy => Cell::Healthy,
        Cell::Healthy => Cell::Healthy,
        Cell::Empty => Cell::Empty,
    }
}

/// One step down the health ladder, the last one being death:
/// `Healthy -> Unhealthy -> Diseased -> Empty`.
pub open spec fn declined(c: Cell) -> Cell {
    match c {
        Cell::Healthy => Cell::Unhealthy,
        Cell::Unhealthy => Cell::Diseased,
        Cell::Diseased => Cell::Empty,
        Cell::Empty => Cell::Empty,
    }
}

/// Index into a palette of `len` colours for position `(x, y)`, so that
/// neighbouring cells differ and each cell's colour is stable.
pub open spec fn rainbow_index(x: usize, y: usize, len: nat) -> int {
    (x.wrapping_mul(7).wrapping_add(y.wrapping_mul(13))) as int % (len as int)
}

/// The rainbow colour of a healthy cell at `(x, y)`: white for an empty palette.
pub open spec fn rainbow_color(palette: Seq<u8>, x: usize, y: usize) -> Color {
    if palette.len() == 0 {
        Color::White
    } else {
        Color::Xterm(palette[rainbow_index(x, y, palette.len())])
    }
}

/// The Xterm 6x6x6 colour cube, codes 16 to 231.
pub open spec fn colour_cube() -> Seq<u8> {
    Seq::new(216, |i: int| (16 + i) as u8)
}

/// The Xterm colour cube as a vector.
pub fn colour_cube_vec() -> (v: Vec<u8>)
    ensures
        v@ == colour_cube(),
{
    let mut v: Vec<u8> = Vec::new();
    let mut c: u16 = 16;
    while c <= 231
        invariant
            16 <= c <= 232,
            v@ == Seq::new((c - 16) as nat, |i: int| (16 + i) as u8),
        decreases 232 - c,
    {
        v.push(c as u8);
        c += 1;
    }
    assert(v@ =~= colour_cube());
    v
}

/// Whether `n` occurs in `v`.
fn contains_u8(v: &Vec<u8>, n: u8) -> (b: bool)
    ensures
        b == v@.contains(n),
{
    let mut i: usize = 0;
    while i < v.len()
        invariant
            i <= v.len(),
            forall|j: int| 0 <= j < i ==> v@[j] != n,
        decreases v.len() - i,
    {
        if v[i] == n {
            return true;
        }
        i += 1;
    }
    false
}

/// The classic ruleset and its appearance, with every value public for
/// retuning.
#[derive(Clone, Debug)]
pub struct CoralRules {
    /// Neighbour counts at which an empty cell becomes healthy coral.
    pub birth_counts: Vec<u8>,
    /// Neighbour counts at which living coral heals a step; elsewhere it
    /// declines a step.
    pub survival_counts: Vec<u8>,
    /// Whether disease spreads to healthy and unhealthy neighbours.
    pub disease_spreads: bool,
    /// Whether a fresh infection is periodically seeded.
    pub disease_seeds: bool,
    /// Xterm colour codes cycled through for healthy coral.
    pub healthy_palette: Vec<u8>,
}

impl Default for CoralRules {
    /// Classic Conway thresholds (born on 3, heal on 2 or 3), disease that
    /// spreads and self-seeds, and the full colour cube for healthy coral.
    fn default() -> (r: CoralRules)
        ensures
            r.birth_counts@ == seq![3u8],
            r.survival_counts@ == seq![2u8, 3u8],
            r.disease_spreads,
            r.disease_seeds,
            r.healthy_palette@ == colour_cube(),
    {
        CoralRules {
            birth_counts: vec![3],
            survival_counts: vec![2, 3],
            disease_spreads: true,
            disease_seeds: true,
            healthy_palette: colour_cube_vec(),
        }
    }
}

impl CoralRules {
    /// The next state of cell `i` of a `w`-wide board under the life step.
    pub open spec fn classic_life_cell(&self, cells: Seq<Cell>, w: nat, h: nat, i: int) -> Cell {
        let n = live_neighbor_count(cells, w as int, h as int, i % (w as int), i / (w as int));
        if cells[i] == Cell::Empty {
            if self.birth_counts@.contains(n as u8) {
                Cell::Healthy
            } else {
                Cell::Empty
            }
        } else if self.survival_counts@.contains(n as u8) {
            healed(cells[i])
        } else {
            declined(cells[i])
        }
    }

    /// The next state of cell `i` of a `w`-wide board under the disease step.
    pub open spec fn classic_disease_cell(
        &self,
        cells: Seq<Cell>,
        w: nat,
        h: nat,
        i: int,
    ) -> Cell {
        let infected = neighbor_count_of(
            cells,
            w as int,
            h as int,
            i % (w as int),
            i / (w as int),
            Cell::Diseased,
        ) > 0;
        match cells[i] {
            Cell::Healthy | Cell::Unhealthy => if self.disease_spreads && infected {
                Cell::Diseased
            } else {
                cells[i]
            },
            Cell::Diseased => Cell::Empty,
            Cell::Empty => Cell::Empty,
        }
    }

    /// The cells after disease has spread and diseased cells have advanced,
    /// before any fresh infection.
    pub open spec fn spread_cells(&self, cells: Seq<Cell>, w: nat, h: nat) -> Seq<Cell> {
        Seq::new(w * h, |i: int| self.classic_disease_cell(cells, w, h, i))
    }

    /// Infect the `choice`-th healthy cell of the board (in row-major order),
    /// starting its disease clock at `frame`; nothing happens when no cell is
    /// healthy.
    pub fn seed_infection<B: Board>(&self, board: &mut B, frame: usize, choice: usize)
        requires
            board_wf(old(board)),
            count_cells(old(board).board_cells(), Cell::Healthy) == 0 || choice < count_cells(
                old(board).board_cells(),
                Cell::Healthy,
            ),
        ensures
            board_wf(final(board)),
            final(board).board_w() == old(board).board_w(),
            final(board).board_h() == old(board).board_h(),
            count_cells(old(board).board_cells(), Cell::Healthy) == 0 ==> final(board).board_cells()
                == old(board).board_cells() && final(board).board_ages() == old(board).board_ages(),
            count_cells(old(board).board_cells(), Cell::Healthy) > 0 ==> infected(
                old(board).board_cells(),
                old(board).board_ages(),
                final(board).board_cells(),
                final(board).board_ages(),
                frame,
                choice as int,
            ),
    {
        let w = board.width();
        let h = board.height();
        let current = snapshot(board);
        proof {
            lemma_healthy_indices(current@);
        }
        let healthy = healthy_positions_in(&current);
        if healthy.len() == 0 {
            return;
        }
        let pick = healthy[choice];
        proof {
            lemma_index_cell(w as int, h as int, pick as int);
        }
        let x = pick % w;
        let y = pick / w;
        board.set_cell(x, y, Cell::Diseased);
        board.set_age(x, y, frame as u32);
    }

    /// Should an empty cell with `n` live neighbours be born as healthy coral?
    pub fn is_born(&self, n: u8) -> (b: bool)
        ensures
            b == self.birth_counts@.contains(n),
    {
        contains_u8(&self.birth_counts, n)
    }

    /// Is `n` neighbours a comfortable count (coral heals) rather than a
    /// stressful one (coral declines)?
    pub fn survives(&self, n: u8) -> (b: bool)
        ensures
            b == self.survival_counts@.contains(n),
    {
        contains_u8(&self.survival_counts, n)
    }

    /// Move a cell one step up the health ladder.
    pub fn heal(&self, cell: Cell) -> (r: Cell)
        ensures
            r == healed(cell),
    {
        match cell {
            Cell::Diseased => Cell::Unhealthy,
            Cell::Unhealthy => Cell::Healthy,
            Cell::Healthy => Cell::Healthy,
            Cell::Empty => Cell::Empty,
        }
    }

    /// Move a cell one step down the health ladder (the final step is death).
    pub fn decline(&self, cell: Cell) -> (r: Cell)
        ensures
            r == declined(cell),
    {
        match cell {
            Cell::Healthy => Cell::Unhealthy,
            Cell::Unhealthy => Cell::Diseased,
            Cell::Diseased => Cell::Empty,
            Cell::Empty => Cell::Empty,
        }
    }

    /// What a diseased cell becomes on each disease step: it dies.
    pub fn diseased_next(&self, _cell: Cell) -> (r: Cell)
        ensures
            r == Cell::Empty,
    {
        Cell::Empty
    }

    /// A stable rainbow colour for a healthy cell from its position.
    fn rainbow(&self, x: usize, y: usize) -> (c: Color)
        ensures
            c == rainbow_color(self.healthy_palette@, x, y),
    {
        if self.healthy_palette.len() == 0 {
            return Color::White;
        }
        let idx = (x.wrapping_mul(7).wrapping_add(y.wrapping_mul(13))) % self.healthy_palette.len();
        Color::Xterm(self.healthy_palette[idx])
    }

    /// The life-step successor of snapshot cell `(x, y)`.
    fn life_cell_next(&self, cur: &Vec<Cell>, w: usize, h: usize, x: usize, y: usize) -> (c: Cell)
        requires
            cur@.len() == w * h,
            w * h <= isize::MAX,
            in_bounds(w as int, h as int, x as int, y as int),
        ensures
            c == self.classic_life_cell(cur@, w as nat, h as nat, y * w + x),
    {
        proof {
            lemma_cell_index(w as int, h as int, x as int, y as int);
            lemma_count_le_8(cur@, w as int, h as int, x as int, y as int);
        }
        let cell = cur[y * w + x];
        let n = snapshot_live_count(cur, w, h, x, y);
        match cell {
            Cell::Empty => {
                if self.is_born(n) {
                    Cell::Healthy
                } else {
                    Cell::Empty
                }
            },
            _ => {
                if self.survives(n) {
                    self.heal(cell)
                } else {
                    self.decline(cell)
                }
            },
        }
    }

    /// The disease-step successor of snapshot cell `(x, y)`.
    fn disease_cell_next(&self, cur: &Vec<Cell>, w: usize, h: usize, x: usize, y: usize) -> (c:
        Cell)
        requires
            cur@.len() == w * h,
            w * h <= isize::MAX,
            in_bounds(w as int, h as int, x as int, y as int),
        ensures
            c == self.classic_disease_cell(cur@, w as nat, h as nat, y * w + x),
    {
        proof {
            lemma_cell_index(w as int, h as int, x as int, y as int);
        }
        let cell = cur[y * w + x];
        match cell {
            Cell::Healthy | Cell::Unhealthy => {
                if self.disease_spreads && snapshot_has_diseased(cur, w, h, x, y) {
                    Cell::Diseased
                } else {
                    cell
                }
            },
            Cell::Diseased => self.diseased_next(Cell::Diseased),
            Cell::Empty => Cell::Empty,
        }
    }
}

/// Declining healthy or unhealthy coral one step and healing it one step
/// gives it back.
pub proof fn law_heal_undoes_decline(c: Cell)
    requires
        c == Cell::Healthy || c == Cell::Unhealthy,
    ensures
        healed(declined(c)) == c,
{
}

/// Three declines kill any cell: the ladder ends in death.
pub proof fn law_three_declines_kill(c: Cell)
    ensures
        declined(declined(declined(c))) == Cell::Empty,
{
}

/// Two heals bring any living coral to full health; healing never revives
/// an empty cell.
pub proof fn law_two_heals_restore(c: Cell)
    ensures
        c != Cell::Empty ==> healed(healed(c)) == Cell::Healthy,
        c == Cell::Empty ==> healed(c) == Cell::Empty,
{
}

/// With the default thresholds, the classic rules are Conway's: an empty
/// cell is born on exactly 3 live neighbours, and living coral is
/// comfortable on 2 or 3.
pub proof fn law_default_is_conway(r: CoralRules, n: u8)
    requires
        r.birth_counts@ == seq![3u8],
        r.survival_counts@ == seq![2u8, 3u8],
    ensures
        r.birth_counts@.contains(n) <==> n == 3,
        r.survival_counts@.contains(n) <==> (n == 2 || n == 3),
{
    if n == 3 {
        assert(r.birth_counts@[0] == n);
        assert(r.survival_counts@[1] == n);
    }
    if n == 2 {
        assert(r.survival_counts@[0] == n);
    }
}

/// The classic disease step kills every diseased cell and never revives an
/// empty one; only healthy and unhealthy coral can catch the disease.
pub proof fn law_classic_disease(r: CoralRules, cells: Seq<Cell>, w: nat, h: nat, i: int)
    requires
        0 <= i < cells.len(),
    ensures
        cells[i] == Cell::Diseased ==> r.classic_disease_cell(cells, w, h, i) == Cell::Empty,
        cells[i] == Cell::Empty ==> r.classic_disease_cell(cells, w, h, i) == Cell::Empty,
        r.classic_disease_cell(cells, w, h, i) == Cell::Diseased ==> (cells[i] == Cell::Healthy
            || cells[i] == Cell::Unhealthy),
{
}

/// With `disease_seeds` set, the classic disease step infects exactly one
/// more cell than spreading alone whenever healthy coral is left after
/// spreading; with it unset, the step is spreading alone.
pub proof fn law_classic_seeding(
    r: CoralRules,
    cells: Seq<Cell>,
    ages: Seq<u32>,
    w: nat,
    h: nat,
    frame: usize,
    next_cells: Seq<Cell>,
    next_ages: Seq<u32>,
)
    requires
        r.disease_result(cells, ages, w, h, frame, next_cells, next_ages),
    ensures
        r.disease_seeds && count_cells(r.spread_cells(cells, w, h), Cell::Healthy) > 0 ==> {
            &&& count_cells(next_cells, Cell::Healthy) == count_cells(
                r.spread_cells(cells, w, h),
                Cell::Healthy,
            ) - 1
            &&& count_cells(next_cells, Cell::Diseased) == count_cells(
                r.spread_cells(cells, w, h),
                Cell::Diseased,
            ) + 1
        },
        !r.disease_seeds ==> next_cells == r.spread_cells(cells, w, h) && next_ages == ages,
{
    if r.disease_seeds {
        law_seeding_infects_healthy(r.spread_cells(cells, w, h), ages, next_cells, next_ages, frame);
    }
}

/// One classic life step on cell `(x, y)` with `n` live Moore neighbours: an
/// empty cell is born healthy when `n` is a birth count and stays empty
/// otherwise; when `n` is a survival count living coral heals one step
/// (diseased to unhealthy, unhealthy to healthy, healthy stays healthy), and
/// otherwise it declines one step (healthy to unhealthy, unhealthy to
/// diseased, diseased to empty). Ages are untouched.
pub proof fn law_classic_life_cell(
    r: CoralRules,
    cells: Seq<Cell>,
    ages: Seq<u32>,
    w: nat,
    h: nat,
    frame: usize,
    x: int,
    y: int,
)
    requires
        grid_wf(w, h, cells, ages),
        in_bounds(w as int, h as int, x, y),
    ensures
        ({
            let i = y * w + x;
            let n = live_neighbor_count(cells, w as int, h as int, x, y);
            let comfortable = r.survival_counts@.contains(n as u8);
            let next = r.life_cells(cells, ages, w, h, frame);
            &&& n <= 8
            &&& r.life_ages(cells, ages, w, h, frame)[i] == ages[i]
            &&& cells[i] == Cell::Empty ==> next[i] == (if r.birth_counts@.contains(n as u8) {
                Cell::Healthy
            } else {
                Cell::Empty
            })
            &&& cells[i] == Cell::Healthy ==> next[i] == (if comfortable {
                Cell::Healthy
            } else {
                Cell::Unhealthy
            })
            &&& cells[i] == Cell::Unhealthy ==> next[i] == (if comfortable {
                Cell::Healthy
            } else {
                Cell::Diseased
            })
            &&& cells[i] == Cell::Diseased ==> next[i] == (if comfortable {
                Cell::Unhealthy
            } else {
                Cell::Empty
            })
        }),
{
    lemma_cell_index(w as int, h as int, x, y);
    lemma_count_le_8(cells, w as int, h as int, x, y);
}

/// One classic disease step on cell `(x, y)`: a diseased cell dies and an
/// empty cell stays empty; unhealthy coral becomes diseased exactly when
/// disease spreads and some Moore neighbour (diagonals included) is
/// diseased, and stays unhealthy otherwise; healthy coral becomes diseased
/// when disease spreads and some neighbour is diseased, and otherwise stays
/// healthy unless it is the one cell a fresh infection hits (only when
/// `disease_seeds` is set), whose timer is then set to `frame`. Every other
/// age is untouched.
pub proof fn law_classic_disease_cell(
    r: CoralRules,
    cells: Seq<Cell>,
    ages: Seq<u32>,
    w: nat,
    h: nat,
    frame: usize,
    x: int,
    y: int,
    next: Seq<Cell>,
    next_ages: Seq<u32>,
)
    requires
        grid_wf(w, h, cells, ages),
        in_bounds(w as int, h as int, x, y),
        r.disease_result(cells, ages, w, h, frame, next, next_ages),
    ensures
        ({
            let i = y * w + x;
            let catches = r.disease_spreads && has_neighbor_in(
                cells,
                w as int,
                h as int,
                x,
                y,
                Cell::Diseased,
            );
            &&& cells[i] == Cell::Diseased ==> next[i] == Cell::Empty && next_ages[i] == ages[i]
            &&& cells[i] == Cell::Empty ==> next[i] == Cell::Empty && next_ages[i] == ages[i]
            &&& cells[i] == Cell::Unhealthy ==> next[i] == (if catches {
                Cell::Diseased
            } else {
                Cell::Unhealthy
            }) && next_ages[i] == ages[i]
            &&& cells[i] == Cell::Healthy && catches ==> next[i] == Cell::Diseased && next_ages[i]
                == ages[i]
            &&& cells[i] == Cell::Healthy && !catches ==> (next[i] == Cell::Healthy && next_ages[i]
                == ages[i]) || (r.disease_seeds && next[i] == Cell::Diseased && next_ages[i]
                == frame as u32)
        }),
{
    lemma_cell_index(w as int, h as int, x, y);
    law_neighbor_count_is_moore(cells, w as int, h as int, x, y, Cell::Diseased);
    let i = y * w + x;
    let spread = r.spread_cells(cells, w, h);
    if r.disease_seeds {
        lemma_reseeded_effect(spread, ages, next, next_ages, frame);
        assert(next[i] == spread[i] && next_ages[i] == ages[i] || (spread[i] == Cell::Healthy
            && next[i] == Cell::Diseased && next_ages[i] == frame as u32));
    }
}

/// A live-neighbour count is at most 8.
proof fn lemma_count_le_8(cells: Seq<Cell>, w: int, h: int, x: int, y: int)
    ensures
        live_neighbor_count(cells, w, h, x, y) <= 8,
{
    crate::rulebook::lemma_count_neighbors_bound(cells, w, h, x, y, Cell::Empty, false, 8);
}

/// The classic ruleset: a health-ladder life step and a spreading disease,
/// with the rainbow / white / olive palette.
impl Rulebook for CoralRules {
    open spec fn life_cells(
        &self,
        cells: Seq<Cell>,
        ages: Seq<u32>,
        w: nat,
        h: nat,
        frame: usize,
    ) -> Seq<Cell> {
        Seq::new(w * h, |i: int| self.classic_life_cell(cells, w, h, i))
    }

    open spec fn life_ages(
        &self,
        cells: Seq<Cell>,
        ages: Seq<u32>,
        w: nat,
        h: nat,
        frame: usize,
    ) -> Seq<u32> {
        ages
    }

    open spec fn disease_result(
        &self,
        cells: Seq<Cell>,
        ages: Seq<u32>,
        w: nat,
        h: nat,
        frame: usize,
        next_cells: Seq<Cell>,
        next_ages: Seq<u32>,
    ) -> bool {
        let spread = self.spread_cells(cells, w, h);
        if self.disease_seeds {
            reseeded(spread, ages, next_cells, next_ages, frame)
        } else {
            next_cells == spread && next_ages == ages
        }
    }

    open spec fn glyph_of(&self, cell: Cell) -> char {
        match cell {
            Cell::Empty => ' ',
            Cell::Healthy => '@',
            Cell::Unhealthy => 'o',
            Cell::Diseased => '#',
        }
    }

    open spec fn color_of(&self, cell: Cell, x: usize, y: usize) -> Color {
        match cell {
            Cell::Healthy => rainbow_color(self.healthy_palette@, x, y),
            Cell::Unhealthy => Color::White,
            Cell::Diseased => Color::Xterm(64),
            Cell::Empty => Color::Black,
        }
    }

    open spec fn allows_kill(&self) -> bool {
        false
    }


    /// Empty cells are born on `birth_counts`; living cells heal on
    /// `survival_counts` and decline otherwise. Every cell reads the board as
    /// it was before the step.
    fn life_step<B: Board>(&self, board: &mut B, frame: usize) {
        let w = board.width();
        let h = board.height();
        let current = snapshot(board);
        let ghost cells0 = current@;
        let ghost ages0 = board.board_ages();
        let ghost target = self.life_cells(cells0, ages0, w as nat, h as nat, frame);
        let mut y: usize = 0;
        while y < h
            invariant
                board_wf(board),
                board.board_w() == w,
                board.board_h() == h,
                board.board_ages() == ages0,
                current@ == cells0,
                cells0.len() == w * h,
                w * h <= isize::MAX,
                target == self.life_cells(cells0, ages0, w as nat, h as nat, frame),
                y <= h,
                y * w <= w * h,
                forall|j: int|
                    0 <= j < w * h ==> #[trigger] board.board_cells()[j] == if j < y * w {
                        target[j]
                    } else {
                        cells0[j]
                    },
            decreases h - y,
        {
            let mut x: usize = 0;
            while x < w
                invariant
                    board_wf(board),
                    board.board_w() == w,
                    board.board_h() == h,
                    board.board_ages() == ages0,
                    current@ == cells0,
                    cells0.len() == w * h,
                    w * h <= isize::MAX,
                    target == self.life_cells(cells0, ages0, w as nat, h as nat, frame),
                    y < h,
                    x <= w,
                    forall|j: int|
                        0 <= j < w * h ==> #[trigger] board.board_cells()[j] == if j < y * w + x {
                            target[j]
                        } else {
                            cells0[j]
                        },
                decreases w - x,
            {
                proof {
                    lemma_cell_index(w as int, h as int, x as int, y as int);
                }
                let new_cell = self.life_cell_next(&current, w, h, x, y);
                board.set_cell(x, y, new_cell);
                x += 1;
            }
            assert(y * w + w == (y + 1) * w) by (nonlinear_arith);
            assert((y + 1) * w <= w * h) by (nonlinear_arith)
                requires
                    y < h,
            ;
            y += 1;
        }
        assert(y * w == w * h) by (nonlinear_arith)
            requires
                y == h,
        ;
        assert(board.board_cells() =~= target);
    }

    /// Infection spreads to healthy and unhealthy neighbours of diseased
    /// cells (when `disease_spreads`), diseased cells advance through
    /// `diseased_next`, and a fresh infection is seeded on a random healthy
    /// cell (when `disease_seeds`). Every cell reads the board as it was
    /// before the step.
    fn disease_step<B: Board>(&self, board: &mut B, frame: usize) {
        let w = board.width();
        let h = board.height();
        let current = snapshot(board);
        let ghost cells0 = current@;
        let ghost ages0 = board.board_ages();
        let ghost target = self.spread_cells(cells0, w as nat, h as nat);
        let mut y: usize = 0;
        while y < h
            invariant
                board_wf(board),
                board.board_w() == w,
                board.board_h() == h,
                board.board_ages() == ages0,
                current@ == cells0,
                cells0.len() == w * h,
                w * h <= isize::MAX,
                target == self.spread_cells(cells0, w as nat, h as nat),
                y <= h,
                y * w <= w * h,
                forall|j: int|
                    0 <= j < w * h ==> #[trigger] board.board_cells()[j] == if j < y * w {
                        target[j]
                    } else {
                        cells0[j]
                    },
            decreases h - y,
        {
            let mut x: usize = 0;
            while x < w
                invariant
                    board_wf(board),
                    board.board_w() == w,
                    board.board_h() == h,
                    board.board_ages() == ages0,
                    current@ == cells0,
                    cells0.len() == w * h,
                    w * h <= isize::MAX,
                    target == self.spread_cells(cells0, w as nat, h as nat),
                    y < h,
                    x <= w,
                    forall|j: int|
                        0 <= j < w * h ==> #[trigger] board.board_cells()[j] == if j < y * w + x {
                            target[j]
                        } else {
                            cells0[j]
                        },
                decreases w - x,
            {
                proof {
                    lemma_cell_index(w as int, h as int, x as int, y as int);
                }
                let new_cell = self.disease_cell_next(&current, w, h, x, y);
                if new_cell != current[y * w + x] {
                    board.set_cell(x, y, new_cell);
                }
                x += 1;
            }
            assert(y * w + w == (y + 1) * w) by (nonlinear_arith);
            assert((y + 1) * w <= w * h) by (nonlinear_arith)
                requires
                    y < h,
            ;
            y += 1;
        }
        assert(y * w == w * h) by (nonlinear_arith)
            requires
                y == h,
        ;
        assert(board.board_cells() =~= target);
        if self.disease_seeds {
            let spread = snapshot(board);
            proof {
                lemma_healthy_indices(spread@);
            }
            let healthy = healthy_positions_in(&spread);
            if healthy.len() > 0 {
                let choice = random_below(healthy.len());
                self.seed_infection(board, frame, choice);
            }
        }
    }

    fn cell_glyph(&self, cell: Cell) -> (g: char) {
        match cell {
            Cell::Empty => ' ',
            Cell::Healthy => '@',
            Cell::Unhealthy => 'o',
            Cell::Diseased => '#',
        }
    }

    fn cell_color(&self, cell: Cell, x: usize, y: usize) -> (c: Color) {
        match cell {
            Cell::Healthy => self.rainbow(x, y),
            Cell::Unhealthy => Color::White,
            Cell::Diseased => Color::Xterm(64),
            Cell::Empty => Color::Black,
        }
    }

    /// The classic rules give the player no verb against disease.
    fn player_can_kill_disease(&self) -> (b: bool) {
        false
    }
}

} // verus!
