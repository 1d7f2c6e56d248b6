//! The forward path of the worker topology: events fan in to the game-state
//! owner, and every transition fans out through the renderer toward the
//! display. This module wires the two stateful workers together, so that a
//! single dispatch applies the transition and rebuilds the frame the display
//! driver is to show next.

use crate::game::{run, step, Game, GameEvent};
use crate::render::{frame_of, ProgressBar};
use vstd::prelude::*;

verus! {

/// The game-state owner wired to its renderer.
pub struct Bakery {
    pub game: Game,
    pub bar: ProgressBar,
}

impl Bakery {
    /// The frame always reflects the counter: this invariant holds after
    /// construction and after every dispatch.
    pub open spec fn wf(&self) -> bool {
        &&& self.game.wf()
        &&& self.bar.wf()
        &&& self.bar.frame@ == frame_of(self.game.progress as int)
    }

    /// A fresh game showing an empty grid.
    pub fn new() -> (b: Bakery)
        ensures
            b.wf(),
            b.game.progress == 0,
    {
        Bakery { game: Game::new(), bar: ProgressBar::new() }
    }

    /// Applies one event to the counter and forwards the new value to the
    /// renderer, which rebuilds the frame. Pushing the finished frame to the
    /// display hardware is the display driver's job and is best-effort: a
    /// failed apply leaves the next dispatch unaffected, which is why no
    /// result flows back here.
    pub fn dispatch(&mut self, event: GameEvent)
        requires
            old(self).wf(),
        ensures
            final(self).wf(),
            final(self).game.progress == step(old(self).game.progress as int, event),
    {
        let shown = self.game.handle_event(event);
        self.bar.render(shown);
    }

    /// Applies a whole sequence of queued events in order; the frame ends up
    /// reflecting the final counter.
    pub fn dispatch_all(&mut self, events: &Vec<GameEvent>)
        requires
            old(self).wf(),
        ensures
            final(self).wf(),
            final(self).game.progress == run(old(self).game.progress as int, events@),
    {
        let ghost p0: int = self.game.progress as int;
        let mut i: usize = 0;
        while i < events.len()
            invariant
                i <= events.len(),
                self.wf(),
                self.game.progress == run(p0, events@.take(i as int)),
            decreases events.len() - i,
        {
            self.dispatch(events[i]);
            proof {
                crate::game::lemma_run_snoc(p0, events@.take(i as int), events@[i as int]);
                assert(events@.take(i as int).push(events@[i as int]) =~= events@.take(
                    i as int + 1,
                ));
            }
            i = i + 1;
        }
        proof {
            assert(events@.take(events@.len() as int) =~= events@);
        }
    }
}

} // verus!
