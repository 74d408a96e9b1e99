//! The mapping from keyboard input to model changes, and the only place
//! where key input becomes game state.
//!
//! Discrete presses plant, kill disease and quit, so that each tap is one
//! action; held keys move the cursor, so that holding a direction glides it.
use vstd::prelude::*;

use crate::coral::lemma_zone_bound;
use crate::model::Model;
use crate::player::Direction;
use crate::rulebook::Rulebook;

verus! {

/// The keys the game reads.
#[derive(Clone, Copy, Debug, PartialEq, Eq, Structural)]
pub enum Key {
    W,
    A,
    S,
    D,
    Space,
    X,
    Q,
    Esc,
    /// Any other key.
    Other,
}

/// A change the player asks of the model.
#[derive(Clone, Copy, Debug, PartialEq, Eq, Structural)]
pub enum Action {
    /// Plant a random stamp at the cursor.
    Plant,
    /// Kill the diseased cells around the cursor.
    KillDisease,
    /// Move the cursor one cell.
    Move(Direction),
}

/// What pressing `k` asks for: Space plants, X kills disease.
pub open spec fn pressed_action(k: Key) -> Option<Action> {
    match k {
        Key::Space => Some(Action::Plant),
        Key::X => Some(Action::KillDisease),
        _ => None,
    }
}

/// What holding `k` asks for: W, S, A and D move up, down, left and right.
pub open spec fn held_action(k: Key) -> Option<Action> {
    match k {
        Key::W => Some(Action::Move(Direction::Up)),
        Key::S => Some(Action::Move(Direction::Down)),
        Key::A => Some(Action::Move(Direction::Left)),
        Key::D => Some(Action::Move(Direction::Right)),
        _ => None,
    }
}

/// The actions asked for by a sequence of keys, in order: by presses when
/// `pressed`, by held keys otherwise.
pub open spec fn key_actions(keys: Seq<Key>, pressed: bool) -> Seq<Action>
    decreases keys.len(),
{
    if keys.len() == 0 {
        seq![]
    } else {
        let rest = key_actions(keys.drop_last(), pressed);
        match if pressed {
            pressed_action(keys.last())
        } else {
            held_action(keys.last())
        } {
            Some(a) => rest.push(a),
            None => rest,
        }
    }
}

/// Whether Q or Esc was pressed.
pub open spec fn quit_requested(pressed: Seq<Key>) -> bool {
    exists|i: int| 0 <= i < pressed.len() && (pressed[i] == Key::Q || pressed[i] == Key::Esc)
}

/// `m1` is `m0` after action `a`.
pub open spec fn acted<R: Rulebook>(m0: Model<R>, a: Action, m1: Model<R>) -> bool {
    &&& m1.coral.wf()
    &&& match a {
        Action::Plant => m0.planted_by(m1),
        Action::KillDisease => m0.cleaned_by(m1),
        Action::Move(d) => m0.moved_by(d, m1),
    }
}

/// `trace` is a run of the actions `acts`: each model in it is the one
/// before after the action at the same position.
pub open spec fn is_run<R: Rulebook>(trace: Seq<Model<R>>, acts: Seq<Action>) -> bool {
    &&& trace.len() == acts.len() + 1
    &&& forall|i: int| 0 <= i < acts.len() ==> acted(trace[i], #[trigger] acts[i], trace[i + 1])
}

/// Stateless input handler.
pub struct Controller;

impl Controller {
    /// Apply this frame's input to the model: first the presses in order
    /// (Space plants, X kills disease), then the held keys in order (W, S, A,
    /// D move the cursor). Returns `false` when Q or Esc was pressed, asking
    /// the caller to quit.
    ///
    /// A press scores at most 27 points (3 for each diseased cell of the
    /// 3 by 3 area), so the score must leave that much room per press.
    pub fn process<R: Rulebook>(pressed: &[Key], held: &[Key], model: &mut Model<R>) -> (keep_running:
        bool)
        requires
            old(model).coral.wf(),
            old(model).can_plant_at(old(model).player.x, old(model).player.y),
            old(model).player.x < usize::MAX,
            old(model).player.y < usize::MAX,
            old(model).score + 27 * pressed@.len() <= i64::MAX,
        ensures
            keep_running == !quit_requested(pressed@),
            exists|t1: Seq<Model<R>>, t2: Seq<Model<R>>|
                is_run(t1, key_actions(pressed@, true)) && is_run(t2, key_actions(held@, false))
                    && t1[0] == *old(model) && t2[0] == t1.last() && t2.last() == *final(model),
    {
        let ghost m0 = *model;
        let ghost mut t1: Seq<Model<R>> = seq![*model];
        let mut keep_running = true;
        let mut i: usize = 0;
        while i < pressed.len()
            invariant
                i <= pressed@.len(),
                model.coral.wf(),
                model.player == m0.player,
                model.coral.stamp_set() == m0.coral.stamp_set(),
                m0.can_plant_at(m0.player.x, m0.player.y),
                model.score <= m0.score + 27 * i,
                m0.score + 27 * pressed@.len() <= i64::MAX,
                m0.score >= i64::MIN,
                is_run(t1, key_actions(pressed@.take(i as int), true)),
                t1[0] == m0,
                t1.last() == *model,
                keep_running == !quit_requested(pressed@.take(i as int)),
            decreases pressed@.len() - i,
        {
            let ghost before = *model;
            assert(pressed@.take(i + 1).drop_last() =~= pressed@.take(i as int));
            match pressed[i] {
                Key::Q | Key::Esc => {
                    keep_running = false;
                },
                Key::Space => {
                    model.plant();
                    assert(before.planted_by(*model));
                },
                Key::X => {
                    proof {
                        lemma_zone_bound(
                            model.coral.cells(),
                            model.coral.spec_width() as int,
                            model.coral.spec_height() as int,
                            model.player.x as int,
                            model.player.y as int,
                            9,
                        );
                    }
                    model.kill_disease();
                    assert(before.cleaned_by(*model));
                },
                _ => {},
            }
            proof {
                let prev = key_actions(pressed@.take(i as int), true);
                let acts = key_actions(pressed@.take(i + 1), true);
                assert(pressed@.take(i + 1).last() == pressed@[i as int]);
                match pressed_action(pressed@[i as int]) {
                    Some(a) => {
                        assert(acts == prev.push(a));
                        assert(acts.drop_last() =~= prev);
                        assert(acted(before, a, *model));
                        let t = t1.push(*model);
                        assert forall|j: int| 0 <= j < acts.len() implies acted(
                            t[j],
                            #[trigger] acts[j],
                            t[j + 1],
                        ) by {
                            if j < prev.len() {
                                assert(acts[j] == prev[j]);
                            }
                        }
                        t1 = t;
                    },
                    None => {
                        assert(acts == prev);
                    },
                }
                if keep_running {
                    assert forall|j: int| 0 <= j < i + 1 implies !(#[trigger] pressed@.take(i + 1)[j]
                        == Key::Q || pressed@.take(i + 1)[j] == Key::Esc) by {
                        if j < i {
                            assert(pressed@.take(i + 1)[j] == pressed@.take(i as int)[j]);
                        }
                    }
                } else {
                    assert(pressed@.take(i + 1)[i as int] == Key::Q || pressed@.take(i + 1)[i as int]
                        == Key::Esc || quit_requested(pressed@.take(i as int)));
                    if quit_requested(pressed@.take(i as int)) {
                        let j = choose|j: int|
                            0 <= j < i && (pressed@.take(i as int)[j] == Key::Q || pressed@.take(
                                i as int,
                            )[j] == Key::Esc);
                        assert(pressed@.take(i + 1)[j] == pressed@.take(i as int)[j]);
                    }
                }
            }
            i += 1;
        }
        assert(pressed@.take(i as int) =~= pressed@);
        let ghost m1 = *model;
        let ghost mut t2: Seq<Model<R>> = seq![*model];
        let mut k: usize = 0;
        while k < held.len()
            invariant
                k <= held@.len(),
                model.coral.wf(),
                model.player.x < usize::MAX,
                model.player.y < usize::MAX,
                is_run(t2, key_actions(held@.take(k as int), false)),
                t2[0] == m1,
                t2.last() == *model,
            decreases held@.len() - k,
        {
            let ghost before = *model;
            assert(held@.take(k + 1).drop_last() =~= held@.take(k as int));
            match held[k] {
                Key::W => {
                    model.move_player(Direction::Up);
                    assert(before.moved_by(Direction::Up, *model));
                },
                Key::S => {
                    model.move_player(Direction::Down);
                    assert(before.moved_by(Direction::Down, *model));
                },
                Key::A => {
                    model.move_player(Direction::Left);
                    assert(before.moved_by(Direction::Left, *model));
                },
                Key::D => {
                    model.move_player(Direction::Right);
                    assert(before.moved_by(Direction::Right, *model));
                },
                _ => {},
            }
            proof {
                let prev = key_actions(held@.take(k as int), false);
                let acts = key_actions(held@.take(k + 1), false);
                assert(held@.take(k + 1).last() == held@[k as int]);
                match held_action(held@[k as int]) {
                    Some(a) => {
                        assert(acts == prev.push(a));
                        assert(acts.drop_last() =~= prev);
                        assert(acted(before, a, *model));
                        let t = t2.push(*model);
                        assert forall|j: int| 0 <= j < acts.len() implies acted(
                            t[j],
                            #[trigger] acts[j],
                            t[j + 1],
                        ) by {
                            if j < prev.len() {
                                assert(acts[j] == prev[j]);
                            }
                        }
                        t2 = t;
                    },
                    None => {
                        assert(acts == prev);
                    },
                }
            }
            k += 1;
        }
        assert(held@.take(k as int) =~= held@);
        keep_running
    }
}

} // verus!
