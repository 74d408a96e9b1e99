//! All mutable game state and the rules that evolve it: the player, the reef,
//! the score and the frame counter.
//!
//! Periodic events fire when the step counter crosses a period boundary, so
//! the simulation's pace does not depend on the render framerate. Once the
//! reef has held coral and then died out completely, the game is over
//! and the model is frozen.
use vstd::prelude::*;

use crate::assets::rows_view;
use crate::constants::{DISEASE_PERIOD, LIFE_PERIOD, SCORE_PER_HEALTHY};
use crate::coral::{
    Cell, Coral, count_cells, killed_ages, killed_cells, law_census_partitions_board, reseeded, stamp_in_range,
    stamped_ages, stamped_cells, zone_diseased, lemma_zone_bound,
};
use crate::player::{Direction, Player};
use crate::rulebook::Rulebook;

verus! {

/// Points for each manual plant.
pub const PLANT_SCORE: i64 = 2;

/// Points for each diseased cell the player kills.
pub const KILL_SCORE: i64 = 3;

/// All game state.
pub struct Model<R: Rulebook> {
    /// The player cursor.
    pub player: Player,
    /// The living reef.
    pub coral: Coral<R>,
    /// Running score.
    pub score: i64,
    /// Last step processed, so that period boundaries are detected even at
    /// an irregular call cadence.
    pub frames: usize,
    /// Set once the reef has lived and then died out.
    pub game_over: bool,
    /// Whether the reef has ever held coral, so that an empty starting board
    /// is not read as a lost game.
    pub had_coral: bool,
}

impl<R: Rulebook> Model<R> {
    /// Every stamp of the library can be planted at `(x, y)` without its
    /// coordinates overflowing.
    pub open spec fn can_plant_at(&self, x: usize, y: usize) -> bool {
        forall|k: int|
            0 <= k < self.coral.stamp_set().shapes().len() ==> stamp_in_range(
                rows_view(#[trigger] self.coral.stamp_set().shapes()[k].rows@),
                x as int,
                y as int,
            )
    }

    /// `next` is this model after moving the player in `dir`.
    pub open spec fn moved_by(self, dir: Direction, next: Self) -> bool {
        if self.game_over {
            next == self
        } else {
            next == Model {
                player: self.player.moved(
                    dir,
                    self.coral.spec_width() as usize,
                    self.coral.spec_height() as usize,
                ),
                ..self
            }
        }
    }

    /// `next` is this model after planting a random stamp at the cursor.
    pub open spec fn planted_by(self, next: Self) -> bool {
        if self.game_over {
            next == self
        } else {
            &&& next.player == self.player
            &&& next.frames == self.frames
            &&& next.game_over == self.game_over
            &&& next.had_coral == self.had_coral
            &&& next.score == self.score + PLANT_SCORE
            &&& self.coral.same_setting(next.coral)
            &&& exists|k: int|
                0 <= k < self.coral.stamp_set().shapes().len() && {
                    let rows = rows_view(#[trigger] self.coral.stamp_set().shapes()[k].rows@);
                    &&& next.coral.cells() == stamped_cells(
                        self.coral.cells(),
                        self.coral.spec_width(),
                        rows,
                        self.player.x as int,
                        self.player.y as int,
                    )
                    &&& next.coral.ages() == stamped_ages(
                        self.coral.ages(),
                        self.coral.spec_width(),
                        rows,
                        self.player.x as int,
                        self.player.y as int,
                    )
                }
        }
    }

    /// The number of diseased cells around the cursor.
    pub open spec fn diseased_near_cursor(self) -> nat {
        zone_diseased(
            self.coral.cells(),
            self.coral.spec_width() as int,
            self.coral.spec_height() as int,
            self.player.x as int,
            self.player.y as int,
            9,
        )
    }

    /// `next` is this model after the player's kill verb at the cursor.
    pub open spec fn cleaned_by(self, next: Self) -> bool {
        if self.game_over || !self.coral.rulebook().allows_kill() {
            next == self
        } else {
            &&& next.player == self.player
            &&& next.frames == self.frames
            &&& next.game_over == self.game_over
            &&& next.had_coral == self.had_coral
            &&& next.score == self.score + KILL_SCORE * self.diseased_near_cursor()
            &&& self.coral.same_setting(next.coral)
            &&& next.coral.cells() == killed_cells(
                self.coral.cells(),
                self.coral.spec_width(),
                self.player.x as int,
                self.player.y as int,
            )
            &&& next.coral.ages() == killed_ages(
                self.coral.cells(),
                self.coral.ages(),
                self.coral.spec_width(),
                self.player.x as int,
                self.player.y as int,
            )
        }
    }

    /// `next` is this model after advancing to step `step`: the life step
    /// runs on multiples of `LIFE_PERIOD`, the disease step and a fresh
    /// infection on multiples of `DISEASE_PERIOD`; healthy coral scores on
    /// each life update; the game ends once a reef that held coral has died
    /// out completely, with no coral of any kind left.
    pub open spec fn ticked(self, step: usize, next: Self) -> bool {
        if self.game_over || step == self.frames {
            next == self
        } else {
            let w = self.coral.spec_width();
            let h = self.coral.spec_height();
            let r = self.coral.rulebook();
            let c0 = self.coral.cells();
            let a0 = self.coral.ages();
            let life = step % LIFE_PERIOD == 0;
            let c1 = if life {
                r.life_cells(c0, a0, w, h, step)
            } else {
                c0
            };
            let a1 = if life {
                r.life_ages(c0, a0, w, h, step)
            } else {
                a0
            };
            let dis = step % DISEASE_PERIOD == 0;
            let healthy = count_cells(next.coral.cells(), Cell::Healthy);
            let total = healthy + count_cells(next.coral.cells(), Cell::Unhealthy) + count_cells(
                next.coral.cells(),
                Cell::Diseased,
            );
            &&& self.coral.same_setting(next.coral)
            &&& if dis {
                exists|c2: Seq<Cell>, a2: Seq<u32>|
                    r.disease_result(c1, a1, w, h, step, c2, a2) && #[trigger] reseeded(
                        c2,
                        a2,
                        next.coral.cells(),
                        next.coral.ages(),
                        step,
                    )
            } else {
                next.coral.cells() == c1 && next.coral.ages() == a1
            }
            &&& next.player == self.player
            &&& next.frames == step
            &&& next.score == self.score + if life {
                healthy * SCORE_PER_HEALTHY
            } else {
                0
            }
            &&& next.had_coral == (self.had_coral || total > 0)
            &&& next.game_over == (next.had_coral && total == 0)
        }
    }

    /// Assemble a model from its parts.
    pub fn new(player: Player, coral: Coral<R>) -> (m: Model<R>)
        ensures
            m.player == player,
            m.coral == coral,
            m.score == 0,
            m.frames == 0,
            !m.game_over,
            !m.had_coral,
    {
        Model { player, coral, score: 0, frames: 0, game_over: false, had_coral: false }
    }

    /// Move the player cursor within the reef's bounds. Inert after game over.
    pub fn move_player(&mut self, dir: Direction)
        requires
            dir == Direction::Down ==> old(self).player.y < usize::MAX,
            dir == Direction::Right ==> old(self).player.x < usize::MAX,
        ensures
            old(self).moved_by(dir, *final(self)),
    {
        if self.game_over {
            return;
        }
        let w = self.coral.width();
        let h = self.coral.height();
        self.player.move_in(dir, w, h);
    }

    /// Plant a random coral shape at the cursor, for a small immediate score
    /// bump. Stamping writes healthy coral, so this is also how the player
    /// fixes unhealthy or diseased cells. Inert after game over.
    pub fn plant(&mut self)
        requires
            old(self).coral.wf(),
            old(self).can_plant_at(old(self).player.x, old(self).player.y),
            !old(self).game_over ==> old(self).score + PLANT_SCORE <= i64::MAX,
        ensures
            final(self).coral.wf(),
            old(self).planted_by(*final(self)),
    {
        if self.game_over {
            return;
        }
        self.coral.stamp_random(self.player.x, self.player.y);
        self.score += PLANT_SCORE;
    }

    /// Kill the diseased cells around the cursor, if the rulebook allows it,
    /// scoring for each one removed. Inert after game over.
    pub fn kill_disease(&mut self)
        requires
            old(self).coral.wf(),
            !old(self).game_over && old(self).coral.rulebook().allows_kill() ==> old(self).score
                + KILL_SCORE * old(self).diseased_near_cursor() <= i64::MAX,
        ensures
            final(self).coral.wf(),
            old(self).cleaned_by(*final(self)),
    {
        if self.game_over {
            return;
        }
        let killed = self.coral.kill_disease(self.player.x, self.player.y);
        proof {
            lemma_zone_bound(
                old(self).coral.cells(),
                old(self).coral.spec_width() as int,
                old(self).coral.spec_height() as int,
                old(self).player.x as int,
                old(self).player.y as int,
                9,
            );
        }
        self.score += killed as i64 * KILL_SCORE;
    }

    /// Advance the simulation to step `step`: run the periodic life and
    /// disease updates when `step` crosses their period boundaries, score
    /// healthy coral on each life update, and check the lose condition. A
    /// repeated step, and any step after game over, changes nothing. A life
    /// update scores at most one board's area, so the score must leave that
    /// much room then.
    pub fn tick(&mut self, step: usize)
        requires
            old(self).coral.wf(),
            !old(self).game_over && step != old(self).frames && step % LIFE_PERIOD == 0 ==> old(
                self,
            ).score + old(self).coral.spec_width() * old(self).coral.spec_height()
                * SCORE_PER_HEALTHY <= i64::MAX,
        ensures
            final(self).coral.wf(),
            old(self).ticked(step, *final(self)),
    {
        if self.game_over {
            return;
        }
        if step == self.frames {
            return;
        }
        self.frames = step;
        let mut ran_life = false;
        if step % LIFE_PERIOD == 0 {
            self.coral.life_step(step);
            ran_life = true;
        }
        let ghost c1 = self.coral.cells();
        let ghost a1 = self.coral.ages();
        let ghost mut c2 = c1;
        let ghost mut a2 = a1;
        if step % DISEASE_PERIOD == 0 {
            self.coral.disease_step(step);
            proof {
                c2 = self.coral.cells();
                a2 = self.coral.ages();
            }
            self.coral.seed_disease(step);
        }
        proof {
            let r = old(self).coral.rulebook();
            let w = old(self).coral.spec_width();
            let h = old(self).coral.spec_height();
            if step % DISEASE_PERIOD == 0 {
                assert(r.disease_result(c1, a1, w, h, step, c2, a2));
                assert(reseeded(c2, a2, self.coral.cells(), self.coral.ages(), step));
            }
        }
        let (healthy, unhealthy, diseased) = self.coral.census();
        proof {
            law_census_partitions_board(self.coral.cells());
        }
        if ran_life {
            self.score += healthy as i64 * SCORE_PER_HEALTHY;
        }
        let total = healthy + unhealthy + diseased;
        if total > 0 {
            self.had_coral = true;
        }
        if self.had_coral && total == 0 {
            self.game_over = true;
        }
        proof {
            let r = old(self).coral.rulebook();
            let w = old(self).coral.spec_width();
            let h = old(self).coral.spec_height();
            let life = step % LIFE_PERIOD == 0;
            assert(c1 == if life {
                r.life_cells(old(self).coral.cells(), old(self).coral.ages(), w, h, step)
            } else {
                old(self).coral.cells()
            });
            assert(a1 == if life {
                r.life_ages(old(self).coral.cells(), old(self).coral.ages(), w, h, step)
            } else {
                old(self).coral.ages()
            });
            assert(old(self).coral.same_setting(self.coral));
            if step % DISEASE_PERIOD == 0 {
                assert(exists|c: Seq<Cell>, a: Seq<u32>|
                    r.disease_result(c1, a1, w, h, step, c, a) && #[trigger] reseeded(
                        c,
                        a,
                        self.coral.cells(),
                        self.coral.ages(),
                        step,
                    ));
            }
        }
    }
}

/// Once the game is over the model is frozen: no move, plant, kill or tick
/// changes anything.
pub proof fn law_frozen_after_game_over<R: Rulebook>(
    m0: Model<R>,
    m1: Model<R>,
    step: usize,
    dir: Direction,
)
    requires
        m0.game_over,
    ensures
        m0.moved_by(dir, m1) ==> m1 == m0,
        m0.planted_by(m1) ==> m1 == m0,
        m0.cleaned_by(m1) ==> m1 == m0,
        m0.ticked(step, m1) ==> m1 == m0,
{
}

/// The score never decreases, whatever the player or the simulation does.
pub proof fn law_score_never_decreases<R: Rulebook>(
    m0: Model<R>,
    m1: Model<R>,
    step: usize,
    dir: Direction,
)
    ensures
        m0.moved_by(dir, m1) ==> m1.score >= m0.score,
        m0.planted_by(m1) ==> m1.score >= m0.score,
        m0.cleaned_by(m1) ==> m1.score >= m0.score,
        m0.ticked(step, m1) ==> m1.score >= m0.score,
{
}

/// A tick that runs the life step raises the score by exactly
/// `SCORE_PER_HEALTHY` for each healthy cell on the reef after the tick:
/// unhealthy and diseased coral score nothing. A tick without a life step
/// leaves the score as it was.
pub proof fn law_tick_scores_healthy_coral<R: Rulebook>(m0: Model<R>, m1: Model<R>, step: usize)
    requires
        m0.ticked(step, m1),
        !m0.game_over,
        step != m0.frames,
    ensures
        step % LIFE_PERIOD == 0 ==> m1.score == m0.score + SCORE_PER_HEALTHY * count_cells(
            m1.coral.cells(),
            Cell::Healthy,
        ),
        step % LIFE_PERIOD != 0 ==> m1.score == m0.score,
        step % LIFE_PERIOD == 0 && count_cells(m1.coral.cells(), Cell::Healthy) == 0 ==> m1.score
            == m0.score,
{
}

/// Ticking twice to the same step is the same as ticking once.
pub proof fn law_tick_repeat_is_noop<R: Rulebook>(
    m0: Model<R>,
    m1: Model<R>,
    m2: Model<R>,
    step: usize,
)
    requires
        m0.ticked(step, m1),
        m1.ticked(step, m2),
    ensures
        m2 == m1,
{
}

/// The game ends only once the reef has held coral and then died out
/// completely; while any coral (healthy, unhealthy or diseased) is left the
/// game goes on, an empty starting board is not a lost game, and a reef that
/// has held coral is remembered to have.
pub proof fn law_game_over_only_when_reef_died<R: Rulebook>(
    m0: Model<R>,
    m1: Model<R>,
    step: usize,
)
    requires
        m0.ticked(step, m1),
        !m0.game_over,
    ensures
        m1.game_over ==> m1.had_coral && count_cells(m1.coral.cells(), Cell::Healthy) + count_cells(
            m1.coral.cells(),
            Cell::Unhealthy,
        ) + count_cells(m1.coral.cells(), Cell::Diseased) == 0,
        count_cells(m1.coral.cells(), Cell::Healthy) + count_cells(
            m1.coral.cells(),
            Cell::Unhealthy,
        ) + count_cells(m1.coral.cells(), Cell::Diseased) > 0 ==> !m1.game_over,
        !m0.had_coral && count_cells(m1.coral.cells(), Cell::Healthy) + count_cells(
            m1.coral.cells(),
            Cell::Unhealthy,
        ) + count_cells(m1.coral.cells(), Cell::Diseased) == 0 ==> !m1.game_over,
        m0.had_coral ==> m1.had_coral,
{
}

} // verus!
