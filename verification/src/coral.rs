//! The living reef: the grid of cells, its per-cell ages, and the player's
//! verbs on it.
use vstd::prelude::*;

use crate::assets::{Asset, rows_view};
use crate::constants::Layout;
use crate::random::random_below;
use crate::rulebook::{
    Board, Rulebook, board_wf, cell_at, grid_wf, in_bounds, lemma_cell_index, lemma_index_cell,
};
use crate::stamps::StampSet;

verus! {

/// The state of a single board cell.
#[derive(Clone, Copy, Debug, PartialEq, Eq, Structural)]
pub enum Cell {
    /// No coral here.
    Empty,
    /// Thriving coral.
    Healthy,
    /// Stressed or dying coral.
    Unhealthy,
    /// Diseased coral.
    Diseased,
}

/// Whether stamping `rows` with its top-left corner at `(ox, oy)` puts coral
/// at `(x, y)`: the asset has a non-space character there.
pub open spec fn stamp_covers(rows: Seq<Seq<char>>, ox: int, oy: int, x: int, y: int) -> bool {
    &&& 0 <= y - oy < rows.len()
    &&& 0 <= x - ox < rows[y - oy].len()
    &&& rows[y - oy][x - ox] != ' '
}

/// Every non-space character of `rows`, stamped at `(ox, oy)`, lands on a
/// coordinate that a `usize` can hold.
pub open spec fn stamp_in_range(rows: Seq<Seq<char>>, ox: int, oy: int) -> bool {
    forall|r: int, c: int|
        0 <= r < rows.len() && 0 <= c < rows[r].len() && rows[r][c] != ' ' ==> ox + c
            <= usize::MAX && oy + r <= usize::MAX
}

/// The cells of a `w`-wide board after stamping `rows` at `(ox, oy)`: every
/// covered cell becomes healthy, every other cell is left as it was.
pub open spec fn stamped_cells(cells: Seq<Cell>, w: nat, rows: Seq<Seq<char>>, ox: int, oy: int) -> Seq<Cell> {
    Seq::new(
        cells.len(),
        |i: int|
            if stamp_covers(rows, ox, oy, i % (w as int), i / (w as int)) {
                Cell::Healthy
            } else {
                cells[i]
            },
    )
}

/// The ages after stamping: every covered cell starts its clock at 0.
pub open spec fn stamped_ages(ages: Seq<u32>, w: nat, rows: Seq<Seq<char>>, ox: int, oy: int) -> Seq<u32> {
    Seq::new(
        ages.len(),
        |i: int|
            if stamp_covers(rows, ox, oy, i % (w as int), i / (w as int)) {
                0
            } else {
                ages[i]
            },
    )
}

/// `cells` / `ages` came from `cells0` / `ages0` by planting coral: every
/// cell either kept its state and age, or became healthy with age 0.
pub open spec fn planted(cells0: Seq<Cell>, ages0: Seq<u32>, cells: Seq<Cell>, ages: Seq<u32>) -> bool {
    &&& cells.len() == cells0.len()
    &&& ages.len() == ages0.len()
    &&& forall|i: int|
        0 <= i < cells.len() ==> (#[trigger] cells[i] == cells0[i] && ages[i] == ages0[i]) || (
        cells[i] == Cell::Healthy && ages[i] == 0)
}

/// `cells` / `ages` came from `cells0` / `ages0` by infecting the
/// `choice`-th healthy cell, whose disease clock starts at `frame`.
pub open spec fn infected(
    cells0: Seq<Cell>,
    ages0: Seq<u32>,
    cells: Seq<Cell>,
    ages: Seq<u32>,
    frame: usize,
    choice: int,
) -> bool {
    let i = healthy_indices(cells0)[choice];
    &&& cells == cells0.update(i, Cell::Diseased)
    &&& ages == ages0.update(i, frame as u32)
}

/// `cells` / `ages` came from `cells0` / `ages0` by seeding one infection:
/// unchanged when no cell is healthy, otherwise some healthy cell infected.
pub open spec fn reseeded(
    cells0: Seq<Cell>,
    ages0: Seq<u32>,
    cells: Seq<Cell>,
    ages: Seq<u32>,
    frame: usize,
) -> bool {
    if count_cells(cells0, Cell::Healthy) == 0 {
        cells == cells0 && ages == ages0
    } else {
        exists|choice: int|
            0 <= choice < count_cells(cells0, Cell::Healthy) && infected(
                cells0,
                ages0,
                cells,
                ages,
                frame,
                choice,
            )
    }
}

/// Every cell of `s` is in exactly one state, so the four counts add up to
/// the number of cells.
pub proof fn law_census_partitions_board(s: Seq<Cell>)
    ensures
        count_cells(s, Cell::Healthy) + count_cells(s, Cell::Unhealthy) + count_cells(
            s,
            Cell::Diseased,
        ) + count_cells(s, Cell::Empty) == s.len(),
    decreases s.len(),
{
    if s.len() > 0 {
        law_census_partitions_board(s.drop_last());
    }
}

/// Stamping never removes coral: every cell either keeps its state and age or
/// becomes healthy with its clock reset, and every covered cell (whatever it
/// was, diseased and unhealthy included) becomes healthy.
pub proof fn law_stamp_keeps_coral(
    cells: Seq<Cell>,
    ages: Seq<u32>,
    w: nat,
    rows: Seq<Seq<char>>,
    ox: int,
    oy: int,
)
    requires
        ages.len() == cells.len(),
    ensures
        planted(cells, ages, stamped_cells(cells, w, rows, ox, oy), stamped_ages(ages, w, rows, ox, oy)),
        forall|i: int|
            0 <= i < cells.len() && stamp_covers(rows, ox, oy, i % (w as int), i / (w as int))
                ==> #[trigger] stamped_cells(cells, w, rows, ox, oy)[i] == Cell::Healthy,
        forall|i: int|
            0 <= i < cells.len() && cells[i] != Cell::Empty ==> #[trigger] stamped_cells(
                cells,
                w,
                rows,
                ox,
                oy,
            )[i] != Cell::Empty,
{
}

/// Killing disease touches only diseased cells of the 3 by 3 area, turning
/// them empty, and removes at most 9 of them.
pub proof fn law_kill_touches_only_disease(
    cells: Seq<Cell>,
    ages: Seq<u32>,
    w: nat,
    h: nat,
    x: int,
    y: int,
)
    requires
        ages.len() == cells.len(),
    ensures
        forall|i: int|
            0 <= i < cells.len() && #[trigger] killed_cells(cells, w, x, y)[i] != cells[i] ==> cells[i]
                == Cell::Diseased && killed_cells(cells, w, x, y)[i] == Cell::Empty && in_kill_zone(
                w as int,
                x,
                y,
                i,
            ),
        zone_diseased(cells, w as int, h as int, x, y, 9) <= 9,
{
    lemma_zone_bound(cells, w as int, h as int, x, y, 9);
}

/// At most `k` of the first `k` cells of a 3 by 3 area are diseased.
pub proof fn lemma_zone_bound(cells: Seq<Cell>, w: int, h: int, x: int, y: int, k: nat)
    ensures
        zone_diseased(cells, w, h, x, y, k) <= k,
    decreases k,
{
    if k > 0 {
        lemma_zone_bound(cells, w, h, x, y, (k - 1) as nat);
    }
}

/// Turning a healthy cell diseased lowers the healthy count by one and
/// raises the diseased count by one.
pub proof fn lemma_count_infect(s: Seq<Cell>, i: int)
    requires
        0 <= i < s.len(),
        s[i] == Cell::Healthy,
    ensures
        count_cells(s.update(i, Cell::Diseased), Cell::Healthy) == count_cells(s, Cell::Healthy) - 1,
        count_cells(s.update(i, Cell::Diseased), Cell::Diseased) == count_cells(s, Cell::Diseased)
            + 1,
    decreases s.len(),
{
    let t = s.update(i, Cell::Diseased);
    if i == s.len() - 1 {
        assert(t.drop_last() =~= s.drop_last());
    } else {
        lemma_count_infect(s.drop_last(), i);
        assert(t.drop_last() =~= s.drop_last().update(i, Cell::Diseased));
    }
}

/// Seeding infects a healthy cell when there is one: the reef then has one
/// healthy cell fewer and one diseased cell more.
pub proof fn law_seeding_infects_healthy(
    cells0: Seq<Cell>,
    ages0: Seq<u32>,
    cells: Seq<Cell>,
    ages: Seq<u32>,
    frame: usize,
)
    requires
        reseeded(cells0, ages0, cells, ages, frame),
    ensures
        count_cells(cells0, Cell::Healthy) > 0 ==> count_cells(cells, Cell::Healthy) == count_cells(
            cells0,
            Cell::Healthy,
        ) - 1 && count_cells(cells, Cell::Diseased) == count_cells(cells0, Cell::Diseased) + 1,
        count_cells(cells0, Cell::Healthy) == 0 ==> cells == cells0,
{
    if count_cells(cells0, Cell::Healthy) > 0 {
        let choice = choose|choice: int|
            0 <= choice < count_cells(cells0, Cell::Healthy) && infected(
                cells0,
                ages0,
                cells,
                ages,
                frame,
                choice,
            );
        lemma_healthy_indices(cells0);
        let i = healthy_indices(cells0)[choice];
        lemma_count_infect(cells0, i);
    }
}

/// The exclusive upper bound of a spawn origin coordinate, on a board `board`
/// cells long, for a stamp `size` cells long: room for the whole stamp, and
/// at least one position.
pub open spec fn spawn_limit(board: int, size: int) -> int {
    let room = if board > size {
        board - size
    } else {
        0
    };
    if room > 1 {
        room
    } else {
        1
    }
}

/// A run of spawned stamps: `cells[j + 1]` / `ages[j + 1]` come from
/// `cells[j]` / `ages[j]` by stamping shape `picks[j].0` of `shapes` at the
/// origin `(picks[j].1, picks[j].2)`, an origin that leaves room for the
/// whole stamp when the board has it.
pub open spec fn is_spawn(
    shapes: Seq<Asset>,
    w: nat,
    h: nat,
    cells: Seq<Seq<Cell>>,
    ages: Seq<Seq<u32>>,
    picks: Seq<(int, int, int)>,
) -> bool {
    &&& cells.len() == picks.len() + 1
    &&& ages.len() == picks.len() + 1
    &&& forall|j: int|
        #![trigger picks[j]]
        0 <= j < picks.len() ==> {
            let k = picks[j].0;
            let ox = picks[j].1;
            let oy = picks[j].2;
            &&& 0 <= k < shapes.len()
            &&& 0 <= ox < spawn_limit(w as int, shapes[k].width as int)
            &&& 0 <= oy < spawn_limit(h as int, shapes[k].height as int)
            &&& cells[j + 1] == stamped_cells(cells[j], w, rows_view(shapes[k].rows@), ox, oy)
            &&& ages[j + 1] == stamped_ages(ages[j], w, rows_view(shapes[k].rows@), ox, oy)
        }
}

/// Seeding changes at most one cell, a healthy one, which becomes diseased
/// with its timer set to `frame`; every other cell keeps its state and age.
pub proof fn lemma_reseeded_effect(
    cells0: Seq<Cell>,
    ages0: Seq<u32>,
    cells: Seq<Cell>,
    ages: Seq<u32>,
    frame: usize,
)
    requires
        reseeded(cells0, ages0, cells, ages, frame),
        ages0.len() == cells0.len(),
    ensures
        cells.len() == cells0.len(),
        ages.len() == ages0.len(),
        forall|i: int|
            0 <= i < cells0.len() ==> (#[trigger] cells[i] == cells0[i] && ages[i] == ages0[i]) || (
            cells0[i] == Cell::Healthy && cells[i] == Cell::Diseased && ages[i] == frame as u32),
{
    if count_cells(cells0, Cell::Healthy) > 0 {
        let choice = choose|choice: int|
            0 <= choice < count_cells(cells0, Cell::Healthy) && infected(
                cells0,
                ages0,
                cells,
                ages,
                frame,
                choice,
            );
        lemma_healthy_indices(cells0);
    }
}

/// Whether index `i` of a `w`-wide board lies in the 3 by 3 area centred
/// on `(x, y)`.
pub open spec fn in_kill_zone(w: int, x: int, y: int, i: int) -> bool {
    x - 1 <= i % w <= x + 1 && y - 1 <= i / w <= y + 1
}

/// Column offset of the `k`-th cell of a 3 by 3 area, row by row.
pub open spec fn zone_dx(k: int) -> int {
    k % 3 - 1
}

/// Row offset of the `k`-th cell of a 3 by 3 area, row by row.
pub open spec fn zone_dy(k: int) -> int {
    k / 3 - 1
}

/// How many of the first `k` cells of the 3 by 3 area centred on `(x, y)`
/// are on the board and diseased.
pub open spec fn zone_diseased(cells: Seq<Cell>, w: int, h: int, x: int, y: int, k: nat) -> nat
    decreases k,
{
    if k == 0 {
        0
    } else {
        zone_diseased(cells, w, h, x, y, (k - 1) as nat) + if cell_at(
            cells,
            w,
            h,
            x + zone_dx(k - 1),
            y + zone_dy(k - 1),
        ) == Cell::Diseased {
            1nat
        } else {
            0nat
        }
    }
}

/// The cells after killing the disease around `(x, y)`.
pub open spec fn killed_cells(cells: Seq<Cell>, w: nat, x: int, y: int) -> Seq<Cell> {
    Seq::new(
        cells.len(),
        |i: int|
            if in_kill_zone(w as int, x, y, i) && cells[i] == Cell::Diseased {
                Cell::Empty
            } else {
                cells[i]
            },
    )
}

/// The ages after killing the disease around `(x, y)`: cleared cells restart at 0.
pub open spec fn killed_ages(cells: Seq<Cell>, ages: Seq<u32>, w: nat, x: int, y: int) -> Seq<u32> {
    Seq::new(
        ages.len(),
        |i: int|
            if in_kill_zone(w as int, x, y, i) && cells[i] == Cell::Diseased {
                0
            } else {
                ages[i]
            },
    )
}

/// How many cells of `s` are in state `c`.
pub open spec fn count_cells(s: Seq<Cell>, c: Cell) -> nat
    decreases s.len(),
{
    if s.len() == 0 {
        0
    } else {
        count_cells(s.drop_last(), c) + if s.last() == c {
            1nat
        } else {
            0nat
        }
    }
}

/// The indices of the healthy cells of `s`, in increasing order.
pub open spec fn healthy_indices(s: Seq<Cell>) -> Seq<int>
    decreases s.len(),
{
    if s.len() == 0 {
        seq![]
    } else {
        let r = healthy_indices(s.drop_last());
        if s.last() == Cell::Healthy {
            r.push(s.len() - 1)
        } else {
            r
        }
    }
}

/// There are as many healthy indices as healthy cells, and each is the
/// index of a healthy cell.
pub proof fn lemma_healthy_indices(s: Seq<Cell>)
    ensures
        healthy_indices(s).len() == count_cells(s, Cell::Healthy),
        forall|j: int|
            0 <= j < healthy_indices(s).len() ==> 0 <= #[trigger] healthy_indices(s)[j] < s.len()
                && s[healthy_indices(s)[j]] == Cell::Healthy,
    decreases s.len(),
{
    if s.len() > 0 {
        lemma_healthy_indices(s.drop_last());
        let r = healthy_indices(s.drop_last());
        assert forall|j: int| 0 <= j < healthy_indices(s).len() implies 0
            <= #[trigger] healthy_indices(s)[j] < s.len() && s[healthy_indices(s)[j]]
            == Cell::Healthy by {
            if j < r.len() {
                assert(healthy_indices(s)[j] == r[j]);
                assert(s.drop_last()[r[j]] == s[r[j]]);
            }
        }
    }
}

/// The indices of the healthy cells of `cells`, in increasing order.
pub fn healthy_positions_in(cells: &Vec<Cell>) -> (v: Vec<usize>)
    ensures
        v@.len() == healthy_indices(cells@).len(),
        forall|j: int| 0 <= j < v@.len() ==> v@[j] == healthy_indices(cells@)[j],
{
    let ghost s = cells@;
    let mut v: Vec<usize> = Vec::new();
    let mut i: usize = 0;
    while i < cells.len()
        invariant
            s == cells@,
            i <= s.len(),
            v@.len() == healthy_indices(s.take(i as int)).len(),
            forall|j: int| 0 <= j < v@.len() ==> v@[j] == healthy_indices(s.take(i as int))[j],
        decreases s.len() - i,
    {
        assert(s.take(i + 1).drop_last() =~= s.take(i as int));
        if cells[i] == Cell::Healthy {
            v.push(i);
        }
        i += 1;
    }
    assert(s.take(i as int) =~= s);
    v
}

/// The reef's cells and their ages, row-major, with the board's size.
pub struct Grid {
    cells: Vec<Cell>,
    ages: Vec<u32>,
    w: usize,
    h: usize,
}

impl Grid {
    /// An all-empty `w` by `h` grid with every age 0.
    pub fn new(w: usize, h: usize) -> (g: Grid)
        requires
            w * h <= isize::MAX,
        ensures
            grid_wf(g.board_w(), g.board_h(), g.board_cells(), g.board_ages()),
            g.board_w() == w,
            g.board_h() == h,
            g.board_cells() == Seq::new((w * h) as nat, |i: int| Cell::Empty),
            g.board_ages() == Seq::new((w * h) as nat, |i: int| 0u32),
    {
        let n = w * h;
        let mut cells: Vec<Cell> = Vec::new();
        let mut ages: Vec<u32> = Vec::new();
        let mut i: usize = 0;
        while i < n
            invariant
                i <= n,
                cells@ == Seq::new(i as nat, |j: int| Cell::Empty),
                ages@ == Seq::new(i as nat, |j: int| 0u32),
            decreases n - i,
        {
            cells.push(Cell::Empty);
            ages.push(0);
            i += 1;
        }
        Grid { cells, ages, w, h }
    }

    /// Stamp `rows` with its top-left corner at `(ox, oy)`: every non-space
    /// character on the board becomes healthy coral with its clock reset;
    /// spaces leave the cell below untouched.
    fn stamp(&mut self, asset: &Asset, ox: usize, oy: usize)
        requires
            board_wf(old(self)),
            stamp_in_range(rows_view(asset.rows@), ox as int, oy as int),
        ensures
            board_wf(final(self)),
            final(self).board_w() == old(self).board_w(),
            final(self).board_h() == old(self).board_h(),
            final(self).board_cells() == stamped_cells(
                old(self).board_cells(),
                old(self).board_w(),
                rows_view(asset.rows@),
                ox as int,
                oy as int,
            ),
            final(self).board_ages() == stamped_ages(
                old(self).board_ages(),
                old(self).board_w(),
                rows_view(asset.rows@),
                ox as int,
                oy as int,
            ),
    {
        let ghost rows = rows_view(asset.rows@);
        let ghost cells0 = self.cells@;
        let ghost ages0 = self.ages@;
        let ghost w = self.w as int;
        let ghost h = self.h as int;
        let mut dy: usize = 0;
        while dy < asset.rows.len()
            invariant
                board_wf(self),
                self.w == w,
                self.h == h,
                rows == rows_view(asset.rows@),
                stamp_in_range(rows, ox as int, oy as int),
                cells0.len() == w * h,
                ages0.len() == w * h,
                dy <= rows.len(),
                forall|i: int|
                    0 <= i < w * h ==> #[trigger] self.cells@[i] == if stamp_covers(
                        rows,
                        ox as int,
                        oy as int,
                        i % w,
                        i / w,
                    ) && i / w - oy < dy {
                        Cell::Healthy
                    } else {
                        cells0[i]
                    },
                forall|i: int|
                    0 <= i < w * h ==> #[trigger] self.ages@[i] == if stamp_covers(
                        rows,
                        ox as int,
                        oy as int,
                        i % w,
                        i / w,
                    ) && i / w - oy < dy {
                        0
                    } else {
                        ages0[i]
                    },
            decreases asset.rows.len() - dy,
        {
            let row = &asset.rows[dy];
            let mut dx: usize = 0;
            while dx < row.len()
                invariant
                    board_wf(self),
                    self.w == w,
                    self.h == h,
                    rows == rows_view(asset.rows@),
                    stamp_in_range(rows, ox as int, oy as int),
                    cells0.len() == w * h,
                    ages0.len() == w * h,
                    dy < rows.len(),
                    row@ == rows[dy as int],
                    dx <= row.len(),
                    forall|i: int|
                        0 <= i < w * h ==> #[trigger] self.cells@[i] == if stamp_covers(
                            rows,
                            ox as int,
                            oy as int,
                            i % w,
                            i / w,
                        ) && (i / w - oy < dy || (i / w - oy == dy && i % w - ox < dx)) {
                            Cell::Healthy
                        } else {
                            cells0[i]
                        },
                    forall|i: int|
                        0 <= i < w * h ==> #[trigger] self.ages@[i] == if stamp_covers(
                            rows,
                            ox as int,
                            oy as int,
                            i % w,
                            i / w,
                        ) && (i / w - oy < dy || (i / w - oy == dy && i % w - ox < dx)) {
                            0
                        } else {
                            ages0[i]
                        },
                decreases row.len() - dx,
            {
                if row[dx] != ' ' {
                    let x = ox + dx;
                    let y = oy + dy;
                    if x < self.w && y < self.h {
                        proof {
                            lemma_cell_index(w, h, x as int, y as int);
                        }
                        let i = y * self.w + x;
                        self.cells.set(i, Cell::Healthy);
                        self.ages.set(i, 0);
                    }
                }
                proof {
                    assert forall|i: int| 0 <= i < w * h implies #[trigger] self.cells@[i] == if stamp_covers(
                        rows,
                        ox as int,
                        oy as int,
                        i % w,
                        i / w,
                    ) && (i / w - oy < dy || (i / w - oy == dy && i % w - ox < dx + 1)) {
                        Cell::Healthy
                    } else {
                        cells0[i]
                    } by {
                        lemma_index_cell(w, h, i);
                        if i / w - oy == dy && i % w - ox == dx {
                            lemma_cell_index(w, h, i % w, i / w);
                        }
                    }
                    assert forall|i: int| 0 <= i < w * h implies #[trigger] self.ages@[i] == if stamp_covers(
                        rows,
                        ox as int,
                        oy as int,
                        i % w,
                        i / w,
                    ) && (i / w - oy < dy || (i / w - oy == dy && i % w - ox < dx + 1)) {
                        0
                    } else {
                        ages0[i]
                    } by {
                        lemma_index_cell(w, h, i);
                        if i / w - oy == dy && i % w - ox == dx {
                            lemma_cell_index(w, h, i % w, i / w);
                        }
                    }
                }
                dx += 1;
            }
            dy += 1;
        }
        proof {
            assert(self.cells@ =~= stamped_cells(cells0, w as nat, rows, ox as int, oy as int));
            assert(self.ages@ =~= stamped_ages(ages0, w as nat, rows, ox as int, oy as int));
        }
    }
}

impl Board for Grid {
    closed spec fn board_w(&self) -> nat {
        self.w as nat
    }

    closed spec fn board_h(&self) -> nat {
        self.h as nat
    }

    closed spec fn board_cells(&self) -> Seq<Cell> {
        self.cells@
    }

    closed spec fn board_ages(&self) -> Seq<u32> {
        self.ages@
    }

    fn width(&self) -> (r: usize) {
        self.w
    }

    fn height(&self) -> (r: usize) {
        self.h
    }

    fn cell(&self, x: isize, y: isize) -> (c: Cell) {
        if x < 0 || y < 0 || x as usize >= self.w || y as usize >= self.h {
            Cell::Empty
        } else {
            proof {
                lemma_cell_index(self.w as int, self.h as int, x as int, y as int);
            }
            self.cells[y as usize * self.w + x as usize]
        }
    }

    fn set_cell(&mut self, x: usize, y: usize, cell: Cell) {
        if x < self.w && y < self.h {
            proof {
                lemma_cell_index(self.w as int, self.h as int, x as int, y as int);
            }
            let i = y * self.w + x;
            self.cells.set(i, cell);
        }
    }

    fn age(&self, x: usize, y: usize) -> (a: u32) {
        if x < self.w && y < self.h {
            proof {
                lemma_cell_index(self.w as int, self.h as int, x as int, y as int);
            }
            self.ages[y * self.w + x]
        } else {
            0
        }
    }

    fn set_age(&mut self, x: usize, y: usize, age: u32) {
        if x < self.w && y < self.h {
            proof {
                lemma_cell_index(self.w as int, self.h as int, x as int, y as int);
            }
            let i = y * self.w + x;
            self.ages.set(i, age);
        }
    }
}

/// Which of `0..limit` lies `d - 1` away from `v` (for `d` in 0..3), if any.
fn shifted(v: usize, d: usize, limit: usize) -> (r: Option<usize>)
    requires
        d < 3,
    ensures
        r matches Some(n) ==> n == v + d - 1 && n < limit,
        r is None ==> !(0 <= v + d - 1 < limit),
{
    if d == 0 {
        if v == 0 || v - 1 >= limit {
            None
        } else {
            Some(v - 1)
        }
    } else if d == 1 {
        if v < limit {
            Some(v)
        } else {
            None
        }
    } else {
        if limit > 0 && v < limit - 1 {
            Some(v + 1)
        } else {
            None
        }
    }
}

/// The reef grid plus its active rulebook.
pub struct Coral<R: Rulebook> {
    /// The cells and their ages.
    board: Grid,
    /// The library of coral shapes the player can stamp.
    stamps: StampSet,
    /// The active ruleset: its automata and appearance.
    pub rules: R,
}

impl<R: Rulebook> Coral<R> {
    /// The cells, row-major.
    pub closed spec fn cells(&self) -> Seq<Cell> {
        self.board.board_cells()
    }

    /// The per-cell ages, row-major.
    pub closed spec fn ages(&self) -> Seq<u32> {
        self.board.board_ages()
    }

    /// Board width in cells.
    pub closed spec fn spec_width(&self) -> nat {
        self.board.board_w()
    }

    /// Board height in cells.
    pub closed spec fn spec_height(&self) -> nat {
        self.board.board_h()
    }

    /// The active rulebook.
    pub closed spec fn rulebook(&self) -> R {
        self.rules
    }

    /// The stamp library.
    pub closed spec fn stamp_set(&self) -> StampSet {
        self.stamps
    }

    /// `other` is this reef with only its cells and ages changed.
    pub open spec fn same_setting(self, other: Self) -> bool {
        &&& other.wf()
        &&& other.spec_width() == self.spec_width()
        &&& other.spec_height() == self.spec_height()
        &&& other.stamp_set() == self.stamp_set()
        &&& other.rulebook() == self.rulebook()
    }

    /// The buffers match the board's size.
    pub open spec fn wf(&self) -> bool {
        grid_wf(self.spec_width(), self.spec_height(), self.cells(), self.ages())
    }

    /// Build an empty reef sized to `layout`, planting from `stamps` and
    /// stepping by `rules`.
    pub fn new(stamps: StampSet, rules: R, layout: Layout) -> (c: Coral<R>)
        requires
            layout.board_w * layout.board_h * 4 <= isize::MAX,
        ensures
            c.wf(),
            c.spec_width() == layout.board_w,
            c.spec_height() == layout.board_h,
            c.cells() == Seq::new((layout.board_w * layout.board_h) as nat, |i: int| Cell::Empty),
            c.ages() == Seq::new((layout.board_w * layout.board_h) as nat, |i: int| 0u32),
            c.stamp_set() == stamps,
            c.rulebook() == rules,
    {
        Coral { board: Grid::new(layout.board_w, layout.board_h), stamps, rules }
    }

    /// Board width in cells.
    pub fn width(&self) -> (r: usize)
        ensures
            r == self.spec_width(),
    {
        self.board.w
    }

    /// Board height in cells.
    pub fn height(&self) -> (r: usize)
        ensures
            r == self.spec_height(),
    {
        self.board.h
    }

    /// Read a cell; out-of-bounds reads return `Empty`, so edges behave as
    /// dead space.
    pub fn get(&self, x: isize, y: isize) -> (c: Cell)
        requires
            self.wf(),
        ensures
            c == cell_at(
                self.cells(),
                self.spec_width() as int,
                self.spec_height() as int,
                x as int,
                y as int,
            ),
    {
        self.board.cell(x, y)
    }

    /// Write a cell the way the player and stamps do: bounds-checked, and
    /// the cell's age is reset to 0. Out-of-range writes are ignored.
    pub fn set(&mut self, x: usize, y: usize, cell: Cell)
        requires
            old(self).wf(),
        ensures
            final(self).wf(),
            final(self).spec_width() == old(self).spec_width(),
            final(self).spec_height() == old(self).spec_height(),
            final(self).stamp_set() == old(self).stamp_set(),
            final(self).rulebook() == old(self).rulebook(),
            in_bounds(old(self).spec_width() as int, old(self).spec_height() as int, x as int, y as int)
                ==> final(self).cells() == old(self).cells().update(
                y * old(self).spec_width() + x,
                cell,
            ) && final(self).ages() == old(self).ages().update(y * old(self).spec_width() + x, 0),
            !in_bounds(old(self).spec_width() as int, old(self).spec_height() as int, x as int, y as int)
                ==> final(self).cells() == old(self).cells() && final(self).ages() == old(self).ages(),
    {
        if x < self.board.w && y < self.board.h {
            self.board.set_cell(x, y, cell);
            self.board.set_age(x, y, 0);
        }
    }

    /// Stamp `asset` with its top-left corner at `(ox, oy)`: non-space
    /// characters become healthy coral (with their clock reset), spaces are
    /// skipped so that coral around the shape is kept. Stamping over
    /// diseased or unhealthy coral heals it.
    pub fn stamp_asset(&mut self, asset: &Asset, ox: usize, oy: usize)
        requires
            old(self).wf(),
            stamp_in_range(rows_view(asset.rows@), ox as int, oy as int),
        ensures
            final(self).wf(),
            final(self).spec_width() == old(self).spec_width(),
            final(self).spec_height() == old(self).spec_height(),
            final(self).stamp_set() == old(self).stamp_set(),
            final(self).rulebook() == old(self).rulebook(),
            final(self).cells() == stamped_cells(
                old(self).cells(),
                old(self).spec_width(),
                rows_view(asset.rows@),
                ox as int,
                oy as int,
            ),
            final(self).ages() == stamped_ages(
                old(self).ages(),
                old(self).spec_width(),
                rows_view(asset.rows@),
                ox as int,
                oy as int,
            ),
    {
        self.board.stamp(asset, ox, oy);
    }

    /// Stamp a random coral shape of the library at `(ox, oy)`: the player's
    /// plant action. Which shape is drawn is left to chance.
    pub fn stamp_random(&mut self, ox: usize, oy: usize)
        requires
            old(self).wf(),
            forall|k: int|
                0 <= k < old(self).stamp_set().shapes().len() ==> stamp_in_range(
                    rows_view(#[trigger] old(self).stamp_set().shapes()[k].rows@),
                    ox as int,
                    oy as int,
                ),
        ensures
            final(self).wf(),
            final(self).spec_width() == old(self).spec_width(),
            final(self).spec_height() == old(self).spec_height(),
            final(self).stamp_set() == old(self).stamp_set(),
            final(self).rulebook() == old(self).rulebook(),
            exists|k: int|
                0 <= k < old(self).stamp_set().shapes().len() && {
                    let rows = rows_view(#[trigger] old(self).stamp_set().shapes()[k].rows@);
                    &&& final(self).cells() == stamped_cells(
                        old(self).cells(),
                        old(self).spec_width(),
                        rows,
                        ox as int,
                        oy as int,
                    )
                    &&& final(self).ages() == stamped_ages(
                        old(self).ages(),
                        old(self).spec_width(),
                        rows,
                        ox as int,
                        oy as int,
                    )
                },
    {
        let asset = self.stamps.random();
        let ghost k = choose|k: int| 0 <= k < self.stamps.shapes().len() && self.stamps.shapes()[k] == *asset;
        assert(old(self).stamp_set().shapes()[k] == *asset);
        assert(stamp_in_range(rows_view(old(self).stamp_set().shapes()[k].rows@), ox as int, oy as int));
        self.board.stamp(asset, ox, oy);
    }

    /// Seed the reef with `count` random stamps at random positions, each
    /// origin chosen so that the stamp fits on the board when it can. Which
    /// stamps land where is left to chance; every cell either keeps its state
    /// and age or becomes healthy coral with its clock reset.
    pub fn seed_spawn(&mut self, count: usize)
        requires
            old(self).wf(),
            forall|k: int|
                0 <= k < old(self).stamp_set().shapes().len() ==> stamp_in_range(
                    rows_view(#[trigger] old(self).stamp_set().shapes()[k].rows@),
                    old(self).spec_width() as int,
                    old(self).spec_height() as int,
                ),
        ensures
            final(self).wf(),
            final(self).spec_width() == old(self).spec_width(),
            final(self).spec_height() == old(self).spec_height(),
            final(self).stamp_set() == old(self).stamp_set(),
            final(self).rulebook() == old(self).rulebook(),
            planted(old(self).cells(), old(self).ages(), final(self).cells(), final(self).ages()),
            exists|cs: Seq<Seq<Cell>>, ags: Seq<Seq<u32>>, picks: Seq<(int, int, int)>|
                {
                    &&& picks.len() == count
                    &&& is_spawn(
                        old(self).stamp_set().shapes(),
                        old(self).spec_width(),
                        old(self).spec_height(),
                        cs,
                        ags,
                        picks,
                    )
                    &&& cs[0] == old(self).cells()
                    &&& ags[0] == old(self).ages()
                    &&& cs.last() == final(self).cells()
                    &&& ags.last() == final(self).ages()
                },
    {
        let ghost cells0 = self.cells();
        let ghost ages0 = self.ages();
        let w = self.board.w;
        let h = self.board.h;
        assert forall|k: int| 0 <= k < self.stamps.shapes().len() implies stamp_in_range(
            rows_view(#[trigger] self.stamps.shapes()[k].rows@),
            w as int,
            h as int,
        ) by {
            assert(old(self).stamp_set().shapes()[k] == self.stamps.shapes()[k]);
        }
        let ghost mut cs: Seq<Seq<Cell>> = seq![cells0];
        let ghost mut ags: Seq<Seq<u32>> = seq![ages0];
        let ghost mut picks: Seq<(int, int, int)> = seq![];
        let mut n: usize = 0;
        while n < count
            invariant
                board_wf(&self.board),
                self.board.w == w,
                self.board.h == h,
                self.stamps == old(self).stamps,
                self.rules == old(self).rules,
                cells0 == old(self).cells(),
                ages0 == old(self).ages(),
                forall|k: int|
                    0 <= k < self.stamps.shapes().len() ==> stamp_in_range(
                        rows_view(#[trigger] self.stamps.shapes()[k].rows@),
                        w as int,
                        h as int,
                    ),
                n <= count,
                planted(cells0, ages0, self.board.cells@, self.board.ages@),
                picks.len() == n,
                is_spawn(self.stamps.shapes(), w as nat, h as nat, cs, ags, picks),
                cs[0] == cells0,
                ags[0] == ages0,
                cs.last() == self.board.cells@,
                ags.last() == self.board.ages@,
            decreases count - n,
        {
            let asset = self.stamps.random();
            // Keep the whole stamp on the board: the origin range leaves room
            // for its width and height.
            let room_x = if w > asset.width {
                w - asset.width
            } else {
                0
            };
            let max_x = if room_x > 1 {
                room_x
            } else {
                1
            };
            let room_y = if h > asset.height {
                h - asset.height
            } else {
                0
            };
            let max_y = if room_y > 1 {
                room_y
            } else {
                1
            };
            let ox = random_below(max_x);
            let oy = random_below(max_y);
            let ghost k = choose|k: int|
                0 <= k < self.stamps.shapes().len() && self.stamps.shapes()[k] == *asset;
            assert(self.stamps.shapes()[k] == *asset);
            self.board.stamp(asset, ox, oy);
            proof {
                let ncs = cs.push(self.board.cells@);
                let nags = ags.push(self.board.ages@);
                let npicks = picks.push((k, ox as int, oy as int));
                assert forall|j: int| #![trigger npicks[j]] 0 <= j < npicks.len() implies {
                    let kk = npicks[j].0;
                    let px = npicks[j].1;
                    let py = npicks[j].2;
                    let shapes = self.stamps.shapes();
                    &&& 0 <= kk < shapes.len()
                    &&& 0 <= px < spawn_limit(w as int, shapes[kk].width as int)
                    &&& 0 <= py < spawn_limit(h as int, shapes[kk].height as int)
                    &&& ncs[j + 1] == stamped_cells(ncs[j], w as nat, rows_view(shapes[kk].rows@), px, py)
                    &&& nags[j + 1] == stamped_ages(nags[j], w as nat, rows_view(shapes[kk].rows@), px, py)
                } by {
                    if j < picks.len() {
                        assert(npicks[j] == picks[j]);
                    }
                }
                cs = ncs;
                ags = nags;
                picks = npicks;
            }
            n += 1;
        }
        assert(picks.len() == count && is_spawn(old(self).stamp_set().shapes(), w as nat, h as nat, cs, ags, picks));
    }

    /// Run the rulebook's life automaton for `frame`.
    pub fn life_step(&mut self, frame: usize)
        requires
            old(self).wf(),
        ensures
            final(self).wf(),
            final(self).spec_width() == old(self).spec_width(),
            final(self).spec_height() == old(self).spec_height(),
            final(self).stamp_set() == old(self).stamp_set(),
            final(self).rulebook() == old(self).rulebook(),
            final(self).cells() == old(self).rulebook().life_cells(
                old(self).cells(),
                old(self).ages(),
                old(self).spec_width(),
                old(self).spec_height(),
                frame,
            ),
            final(self).ages() == old(self).rulebook().life_ages(
                old(self).cells(),
                old(self).ages(),
                old(self).spec_width(),
                old(self).spec_height(),
                frame,
            ),
    {
        self.rules.life_step(&mut self.board, frame);
    }

    /// Run the rulebook's disease automaton for `frame`.
    pub fn disease_step(&mut self, frame: usize)
        requires
            old(self).wf(),
        ensures
            final(self).wf(),
            final(self).spec_width() == old(self).spec_width(),
            final(self).spec_height() == old(self).spec_height(),
            final(self).stamp_set() == old(self).stamp_set(),
            final(self).rulebook() == old(self).rulebook(),
            old(self).rulebook().disease_result(
                old(self).cells(),
                old(self).ages(),
                old(self).spec_width(),
                old(self).spec_height(),
                frame,
                final(self).cells(),
                final(self).ages(),
            ),
    {
        self.rules.disease_step(&mut self.board, frame);
    }

    /// Player verb: kill every diseased cell in the 3 by 3 area centred on
    /// `(x, y)` (the cursor cell and its 8 neighbours), turning each to Empty
    /// with its clock reset. Only acts when the rulebook permits it. Returns
    /// how many diseased cells were removed.
    pub fn kill_disease(&mut self, x: usize, y: usize) -> (killed: usize)
        requires
            old(self).wf(),
        ensures
            final(self).wf(),
            final(self).spec_width() == old(self).spec_width(),
            final(self).spec_height() == old(self).spec_height(),
            final(self).stamp_set() == old(self).stamp_set(),
            final(self).rulebook() == old(self).rulebook(),
            !old(self).rulebook().allows_kill() ==> killed == 0 && *final(self) == *old(self),
            old(self).rulebook().allows_kill() ==> {
                &&& final(self).cells() == killed_cells(
                    old(self).cells(),
                    old(self).spec_width(),
                    x as int,
                    y as int,
                )
                &&& final(self).ages() == killed_ages(
                    old(self).cells(),
                    old(self).ages(),
                    old(self).spec_width(),
                    x as int,
                    y as int,
                )
                &&& killed == zone_diseased(
                    old(self).cells(),
                    old(self).spec_width() as int,
                    old(self).spec_height() as int,
                    x as int,
                    y as int,
                    9,
                )
            },
    {
        if !self.rules.player_can_kill_disease() {
            return 0;
        }
        let w = self.board.w;
        let h = self.board.h;
        let ghost wi = w as int;
        let ghost hi = h as int;
        let ghost cells0 = self.board.cells@;
        let ghost ages0 = self.board.ages@;
        let mut killed: usize = 0;
        let mut k: usize = 0;
        while k < 9
            invariant
                board_wf(&self.board),
                self.board.w == w,
                self.board.h == h,
                wi == w,
                hi == h,
                self.stamps == old(self).stamps,
                self.rules == old(self).rules,
                cells0 == old(self).cells(),
                ages0 == old(self).ages(),
                cells0.len() == wi * hi,
                ages0.len() == wi * hi,
                k <= 9,
                killed <= k,
                killed == zone_diseased(cells0, wi, hi, x as int, y as int, k as nat),
                forall|i: int|
                    0 <= i < wi * hi ==> #[trigger] self.board.cells@[i] == if in_kill_zone(
                        wi,
                        x as int,
                        y as int,
                        i,
                    ) && (i / wi - y + 1) * 3 + (i % wi - x + 1) < k && cells0[i]
                        == Cell::Diseased {
                        Cell::Empty
                    } else {
                        cells0[i]
                    },
                forall|i: int|
                    0 <= i < wi * hi ==> #[trigger] self.board.ages@[i] == if in_kill_zone(
                        wi,
                        x as int,
                        y as int,
                        i,
                    ) && (i / wi - y + 1) * 3 + (i % wi - x + 1) < k && cells0[i]
                        == Cell::Diseased {
                        0
                    } else {
                        ages0[i]
                    },
            decreases 9 - k,
        {
            let ghost kk = k as int;
            assert(zone_dx(kk) == kk % 3 - 1 && zone_dy(kk) == kk / 3 - 1);
            assert((kk / 3) * 3 + kk % 3 == kk);
            let nx = shifted(x, k % 3, w);
            let ny = shifted(y, k / 3, h);
            let ghost px = x + zone_dx(kk);
            let ghost py = y + zone_dy(kk);
            match (nx, ny) {
                (Some(cx), Some(cy)) => {
                    proof {
                        lemma_cell_index(wi, hi, cx as int, cy as int);
                    }
                    let i = cy * w + cx;
                    if self.board.cells[i] == Cell::Diseased {
                        self.board.cells.set(i, Cell::Empty);
                        self.board.ages.set(i, 0);
                        killed += 1;
                    }
                },
                _ => {},
            }
            proof {
                assert forall|i: int| 0 <= i < wi * hi implies #[trigger] self.board.cells@[i] == if in_kill_zone(
                    wi,
                    x as int,
                    y as int,
                    i,
                ) && (i / wi - y + 1) * 3 + (i % wi - x + 1) < k + 1 && cells0[i]
                    == Cell::Diseased {
                    Cell::Empty
                } else {
                    cells0[i]
                } by {
                    lemma_index_cell(wi, hi, i);
                    if in_kill_zone(wi, x as int, y as int, i) && (i / wi - y + 1) * 3 + (i % wi
                        - x + 1) == kk {
                        assert(i % wi == px && i / wi == py);
                        lemma_cell_index(wi, hi, px, py);
                    }
                }
                assert forall|i: int| 0 <= i < wi * hi implies #[trigger] self.board.ages@[i] == if in_kill_zone(
                    wi,
                    x as int,
                    y as int,
                    i,
                ) && (i / wi - y + 1) * 3 + (i % wi - x + 1) < k + 1 && cells0[i]
                    == Cell::Diseased {
                    0
                } else {
                    ages0[i]
                } by {
                    lemma_index_cell(wi, hi, i);
                    if in_kill_zone(wi, x as int, y as int, i) && (i / wi - y + 1) * 3 + (i % wi
                        - x + 1) == kk {
                        assert(i % wi == px && i / wi == py);
                        lemma_cell_index(wi, hi, px, py);
                    }
                }
            }
            k += 1;
        }
        proof {
            assert forall|i: int| 0 <= i < wi * hi && in_kill_zone(wi, x as int, y as int, i) implies (
            i / wi - y + 1) * 3 + (i % wi - x + 1) < 9 by {}
            assert(self.board.cells@ =~= killed_cells(cells0, w as nat, x as int, y as int));
            assert(self.board.ages@ =~= killed_ages(cells0, ages0, w as nat, x as int, y as int));
        }
        killed
    }

    /// The indices of the healthy cells, in increasing order.
    fn healthy_positions(&self) -> (v: Vec<usize>)
        requires
            self.wf(),
        ensures
            v@.len() == healthy_indices(self.cells()).len(),
            forall|j: int| 0 <= j < v@.len() ==> v@[j] == healthy_indices(self.cells())[j],
    {
        healthy_positions_in(&self.board.cells)
    }

    /// Infect the `choice`-th healthy cell (in row-major order), starting its
    /// disease clock at `frame`; nothing happens when no cell is healthy.
    pub fn seed_disease_at(&mut self, frame: usize, choice: usize)
        requires
            old(self).wf(),
            count_cells(old(self).cells(), Cell::Healthy) == 0 || choice < count_cells(
                old(self).cells(),
                Cell::Healthy,
            ),
        ensures
            final(self).wf(),
            final(self).spec_width() == old(self).spec_width(),
            final(self).spec_height() == old(self).spec_height(),
            final(self).stamp_set() == old(self).stamp_set(),
            final(self).rulebook() == old(self).rulebook(),
            count_cells(old(self).cells(), Cell::Healthy) == 0 ==> final(self).cells() == old(
                self,
            ).cells() && final(self).ages() == old(self).ages(),
            count_cells(old(self).cells(), Cell::Healthy) > 0 ==> infected(
                old(self).cells(),
                old(self).ages(),
                final(self).cells(),
                final(self).ages(),
                frame,
                choice as int,
            ),
    {
        proof {
            lemma_healthy_indices(self.board.cells@);
        }
        let healthy = self.healthy_positions();
        if healthy.len() == 0 {
            return;
        }
        let pick = healthy[choice];
        self.board.cells.set(pick, Cell::Diseased);
        self.board.ages.set(pick, frame as u32);
    }

    /// Seed one new infection on a random healthy cell, if any exists,
    /// starting its disease clock at `frame`. Which healthy cell is infected
    /// is left to chance.
    pub fn seed_disease(&mut self, frame: usize)
        requires
            old(self).wf(),
        ensures
            final(self).wf(),
            final(self).spec_width() == old(self).spec_width(),
            final(self).spec_height() == old(self).spec_height(),
            final(self).stamp_set() == old(self).stamp_set(),
            final(self).rulebook() == old(self).rulebook(),
            reseeded(old(self).cells(), old(self).ages(), final(self).cells(), final(self).ages(), frame),
    {
        let (healthy, _, _) = self.census();
        if healthy > 0 {
            let choice = random_below(healthy);
            self.seed_disease_at(frame, choice);
        }
    }

    /// Count cells by state: `(healthy, unhealthy, diseased)`.
    pub fn census(&self) -> (r: (usize, usize, usize))
        requires
            self.wf(),
        ensures
            r.0 == count_cells(self.cells(), Cell::Healthy),
            r.1 == count_cells(self.cells(), Cell::Unhealthy),
            r.2 == count_cells(self.cells(), Cell::Diseased),
    {
        let ghost cells = self.board.cells@;
        let mut h: usize = 0;
        let mut u: usize = 0;
        let mut d: usize = 0;
        let mut i: usize = 0;
        while i < self.board.cells.len()
            invariant
                cells == self.board.cells@,
                cells.len() <= isize::MAX,
                i <= cells.len(),
                h == count_cells(cells.take(i as int), Cell::Healthy),
                u == count_cells(cells.take(i as int), Cell::Unhealthy),
                d == count_cells(cells.take(i as int), Cell::Diseased),
                h + u + d <= i,
            decreases cells.len() - i,
        {
            assert(cells.take(i + 1).drop_last() =~= cells.take(i as int));
            match self.board.cells[i] {
                Cell::Healthy => h += 1,
                Cell::Unhealthy => u += 1,
                Cell::Diseased => d += 1,
                Cell::Empty => {},
            }
            i += 1;
        }
        assert(cells.take(i as int) =~= cells);
        (h, u, d)
    }

    /// The raw grid, row-major, for rendering.
    pub fn grid(&self) -> (g: &[Cell])
        ensures
            g@ == self.cells(),
    {
        self.board.cells.as_slice()
    }

    /// Whether the active rulebook lets the player kill diseased cells.
    pub fn player_can_kill_disease(&self) -> (b: bool)
        ensures
            b == self.rulebook().allows_kill(),
    {
        self.rules.player_can_kill_disease()
    }
}

} // verus!
