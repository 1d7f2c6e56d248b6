//! The input monitor for the bake button: it waits for press edges on its
//! hardware line and translates each detected press into exactly one
//! semantic event for the game-state owner — no rate limiting, no long-press
//! distinction, one event per edge.

use crate::game::GameEvent;
use vstd::prelude::*;

verus! {

/// The bake-button worker. The hardware line and the edge detection belong
/// to the board; this worker only decides what a press means.
pub struct ButtonBaker {}

impl ButtonBaker {
    pub fn new() -> (b: ButtonBaker) {
        ButtonBaker {}
    }

    /// One detected press edge yields exactly one `Progressed` event.
    pub fn on_press(&self) -> (e: GameEvent)
        ensures
            e == GameEvent::Progressed,
    {
        GameEvent::Progressed
    }
}

} // verus!
