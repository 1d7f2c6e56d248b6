//! The game-state owner: the one worker allowed to mutate the progress
//! counter. It drains its mailbox of [`GameEvent`]s, applies one bounded
//! transition per event, and forwards the resulting value to the renderer.

use vstd::arithmetic::div_mod::lemma_mod_add_multiples_vanish;
use vstd::math::max;
use vstd::prelude::*;

verus! {

/// Game completion, always in `[0, PROGRESS_DONE]`.
pub type Progress = usize;

/// The progress value at which a bake is complete.
pub const PROGRESS_DONE: usize = 100;

/// How much progress one chaos event destroys (saturating at 0).
pub const CHAOS_STEP: usize = 5;

/// One message to the game-state owner. Carries no payload beyond its tag;
/// produced by the button monitors and the motion monitor, consumed exactly
/// once by [`Game`].
#[derive(Clone, Copy, Debug, PartialEq, Eq, Structural)]
pub enum GameEvent {
    /// Start over from zero progress.
    Restart,
    /// One unit of baking progress (a press of the bake button).
    Progressed,
    /// A shock was detected: the bake suffers a setback.
    ChaosInflicted,
}

/// What one event does to a progress value, before the completion check:
/// `Progressed` adds 1 saturating at the top, `ChaosInflicted` removes up to
/// `CHAOS_STEP` saturating at 0, `Restart` resets unconditionally.
pub open spec fn apply_event(p: int, e: GameEvent) -> int {
    match e {
        GameEvent::Progressed => if p < PROGRESS_DONE as int {
            p + 1
        } else {
            p
        },
        GameEvent::ChaosInflicted => if p >= CHAOS_STEP as int {
            p - CHAOS_STEP as int
        } else {
            0
        },
        GameEvent::Restart => 0,
    }
}

/// The completion check: a finished bake collapses straight back to the
/// initial state.
pub open spec fn settle(p: int) -> int {
    if p >= PROGRESS_DONE as int {
        0
    } else {
        p
    }
}

/// One full transition cycle of the game-state owner.
pub open spec fn step(p: int, e: GameEvent) -> int {
    settle(apply_event(p, e))
}

/// The progress reached after a whole sequence of events, applied in order.
pub open spec fn run(p: int, es: Seq<GameEvent>) -> int
    decreases es.len(),
{
    if es.len() == 0 {
        p
    } else {
        run(step(p, es[0]), es.skip(1))
    }
}

/// The canonical progress counter and the rules that mutate it.
pub struct Game {
    /// Current completion of the bake.
    pub progress: Progress,
}

impl Game {
    /// The counter never leaves its bounds; after a transition it is even
    /// strictly below `PROGRESS_DONE`, but the weaker bound is all callers
    /// need.
    pub open spec fn wf(&self) -> bool {
        self.progress <= PROGRESS_DONE as int
    }

    /// A fresh game starts with nothing baked.
    pub fn new() -> (g: Game)
        ensures
            g.progress == 0,
            g.wf(),
    {
        Game { progress: 0 }
    }

    /// Applies one event and returns the value to forward to the renderer.
    ///
    /// Policy for a completed bake: the counter collapses to 0 *before* the
    /// value is forwarded, so the display shows a fresh empty grid rather
    /// than one full frame; the returned value always equals the stored one.
    pub fn handle_event(&mut self, event: GameEvent) -> (shown: Progress)
        requires
            old(self).wf(),
        ensures
            final(self).progress == step(old(self).progress as int, event),
            shown == final(self).progress,
            final(self).wf(),
    {
        match event {
            GameEvent::Progressed => {
                if self.progress < PROGRESS_DONE {
                    self.progress = self.progress + 1;
                }
            },
            GameEvent::ChaosInflicted => {
                if self.progress >= CHAOS_STEP {
                    self.progress = self.progress - CHAOS_STEP;
                } else {
                    self.progress = 0;
                }
            },
            GameEvent::Restart => {
                self.progress = 0;
            },
        }
        if self.progress >= PROGRESS_DONE {
            self.progress = 0;
        }
        self.progress
    }

    /// Drains a whole batch of queued events in order.
    pub fn handle_all(&mut self, events: &Vec<GameEvent>)
        requires
            old(self).wf(),
        ensures
            final(self).progress == run(old(self).progress as int, events@),
            final(self).wf(),
    {
        let ghost p0: int = self.progress as int;
        let mut i: usize = 0;
        while i < events.len()
            invariant
                i <= events.len(),
                self.progress == run(p0, events@.take(i as int)),
                self.wf(),
            decreases events.len() - i,
        {
            let _ = self.handle_event(events[i]);
            proof {
                lemma_run_snoc(p0, events@.take(i as int), events@[i as int]);
                assert(events@.take(i as int).push(events@[i as int]) =~= events@.take(
                    i as int + 1,
                ));
            }
            i = i + 1;
        }
        proof {
            assert(events@.take(events@.len() as int) =~= events@);
        }
    }
}

/// A history made only of `Progressed` events.
pub open spec fn all_progressed(es: Seq<GameEvent>) -> bool {
    forall|i: int| 0 <= i < es.len() ==> (#[trigger] es[i]) == GameEvent::Progressed
}

/// A history made only of `ChaosInflicted` events.
pub open spec fn all_chaos(es: Seq<GameEvent>) -> bool {
    forall|i: int| 0 <= i < es.len() ==> (#[trigger] es[i]) == GameEvent::ChaosInflicted
}

/// Under `Progressed` events alone, the counter cycles: starting anywhere
/// below the top, it climbs by one per event and wraps to 0 at the top.
pub proof fn lemma_progressed_run_from(p: int, es: Seq<GameEvent>)
    requires
        0 <= p < PROGRESS_DONE as int,
        all_progressed(es),
    ensures
        run(p, es) == (p + es.len()) % (PROGRESS_DONE as int),
    decreases es.len(),
{
    if es.len() == 0 {
    } else {
        assert(es[0] == GameEvent::Progressed);
        let q = step(p, es[0]);
        assert forall|i: int| 0 <= i < es.skip(1).len() implies (#[trigger] es.skip(1)[i])
            == GameEvent::Progressed by {
            assert(es.skip(1)[i] == es[i + 1]);
        }
        lemma_progressed_run_from(q, es.skip(1));
        if p + 1 == PROGRESS_DONE as int {
            lemma_mod_add_multiples_vanish(es.len() - 1, PROGRESS_DONE as int);
        }
    }
}

/// Starting from a fresh game, a run of only `Progressed` events leaves the
/// counter at the event count modulo the completion value: each completed
/// bake collapses back to 0 and the climb starts over.
pub proof fn lemma_progressed_cycle(es: Seq<GameEvent>)
    requires
        all_progressed(es),
    ensures
        run(0, es) == es.len() as int % (PROGRESS_DONE as int),
{
    lemma_progressed_run_from(0, es);
}

/// Starting from a fresh game, fewer than `PROGRESS_DONE` `Progressed`
/// events with nothing interleaved leave the counter at exactly the event
/// count (the smaller branch of `min(count, PROGRESS_DONE)`; at the count
/// `PROGRESS_DONE` itself the bake completes and the counter collapses, see
/// `lemma_completion_restarts`).
pub proof fn lemma_progress_counts(es: Seq<GameEvent>)
    requires
        all_progressed(es),
        es.len() < PROGRESS_DONE as int,
    ensures
        run(0, es) == es.len(),
{
    lemma_progressed_cycle(es);
}

/// Reaching the top is not a retained state: the `PROGRESS_DONE`-th
/// `Progressed` event collapses the counter to 0 in the same cycle, and one
/// further event starts a fresh climb at 1 — not 101, and not a second
/// observable 0.
pub proof fn lemma_completion_restarts(es: Seq<GameEvent>)
    requires
        all_progressed(es),
    ensures
        es.len() == PROGRESS_DONE as int ==> run(0, es) == 0,
        es.len() == PROGRESS_DONE as int + 1 ==> run(0, es) == 1,
{
    lemma_progressed_cycle(es);
    if es.len() == PROGRESS_DONE as int + 1 {
        lemma_mod_add_multiples_vanish(1, PROGRESS_DONE as int);
    }
}

/// A run of only `ChaosInflicted` events removes `CHAOS_STEP` per event,
/// saturating at 0: from progress `p`, after `n` such events the counter
/// stands at `max(0, p - CHAOS_STEP * n)`.
pub proof fn lemma_chaos_run(p: int, es: Seq<GameEvent>)
    requires
        0 <= p <= PROGRESS_DONE as int,
        all_chaos(es),
    ensures
        run(p, es) == max(0, p - CHAOS_STEP as int * es.len()),
    decreases es.len(),
{
    if es.len() == 0 {
    } else {
        assert(es[0] == GameEvent::ChaosInflicted);
        let q = step(p, es[0]);
        assert forall|i: int| 0 <= i < es.skip(1).len() implies (#[trigger] es.skip(1)[i])
            == GameEvent::ChaosInflicted by {
            assert(es.skip(1)[i] == es[i + 1]);
        }
        lemma_chaos_run(q, es.skip(1));
    }
}

/// A `Restart` wipes the counter whatever came before it: any history
/// followed by one `Restart` ends at progress 0, from any starting value.
pub proof fn lemma_restart_resets(p: int, es: Seq<GameEvent>)
    ensures
        run(p, es.push(GameEvent::Restart)) == 0,
{
    lemma_run_snoc(p, es, GameEvent::Restart);
}

/// Appending one event to a history runs the history first and then takes a
/// single step on the result.
pub proof fn lemma_run_snoc(p: int, es: Seq<GameEvent>, e: GameEvent)
    ensures
        run(p, es.push(e)) == step(run(p, es), e),
    decreases es.len(),
{
    reveal_with_fuel(run, 2);
    if es.len() == 0 {
        assert(es.push(e)[0] == e);
        assert(es.push(e).skip(1) =~= es);
    } else {
        assert(es.push(e)[0] == es[0]);
        assert(es.push(e).skip(1) =~= es.skip(1).push(e));
        lemma_run_snoc(step(p, es[0]), es.skip(1), e);
    }
}

} // verus!
