//! The motion monitor: the one worker that owns the accelerometer. It polls
//! the sensor on a fixed cadence and compares each fresh sample against the
//! previous one, axis by axis; every axis that jumps beyond the noise
//! threshold costs the baker one `ChaosInflicted` event.

use crate::game::GameEvent;
use vstd::prelude::*;

verus! {

/// Largest per-axis change between consecutive samples that still counts as
/// noise, in raw sensor units.
pub const MAX_OFFSET: i32 = 100;

/// One 3-axis accelerometer reading. It never leaves the motion monitor:
/// only the derived events do.
#[derive(Clone, Copy, Debug, PartialEq, Eq, Structural)]
pub struct MotionSample {
    pub x: i32,
    pub y: i32,
    pub z: i32,
}

/// Whether one axis moved beyond the noise threshold, in either direction,
/// between the previous and the current reading.
pub open spec fn axis_deviates(prev: int, cur: int) -> bool {
    cur > prev + MAX_OFFSET as int || cur < prev - MAX_OFFSET as int
}

/// How many axes moved beyond the threshold between two samples: each one
/// costs a separate event, so a harder shock inflicts more chaos.
pub open spec fn anomaly_count(prev: MotionSample, cur: MotionSample) -> int {
    (if axis_deviates(prev.x as int, cur.x as int) {
        1int
    } else {
        0int
    }) + (if axis_deviates(prev.y as int, cur.y as int) {
        1int
    } else {
        0int
    }) + (if axis_deviates(prev.z as int, cur.z as int) {
        1int
    } else {
        0int
    })
}

/// The motion monitor's private state: the reference reading every fresh
/// sample is measured against. Deviations are incremental — sample against
/// previous sample — so the detector reacts to jerks and shocks, not to
/// orientation or sustained tilt.
pub struct ChaosMonkey {
    /// The most recent sample, the baseline for the next comparison.
    pub reference: MotionSample,
}

impl ChaosMonkey {
    /// Starts the detector from its first valid reading. No anomaly can be
    /// reported before this baseline exists.
    pub fn new(baseline: MotionSample) -> (m: ChaosMonkey)
        ensures
            m.reference == baseline,
    {
        ChaosMonkey { reference: baseline }
    }

    /// Judges one fresh sample: returns one `ChaosInflicted` event per axis
    /// that jumped beyond `MAX_OFFSET` since the previous sample, and makes
    /// the fresh sample the new reference whether or not anything fired.
    pub fn observe(&mut self, sample: MotionSample) -> (events: Vec<GameEvent>)
        ensures
            final(self).reference == sample,
            events@.len() == anomaly_count(old(self).reference, sample),
            forall|i: int|
                0 <= i < events@.len() ==> (#[trigger] events@[i]) == GameEvent::ChaosInflicted,
    {
        let mut events: Vec<GameEvent> = Vec::new();
        if (sample.x as i64) > (self.reference.x as i64) + (MAX_OFFSET as i64) || (sample.x as i64)
            < (self.reference.x as i64) - (MAX_OFFSET as i64) {
            events.push(GameEvent::ChaosInflicted);
        }
        if (sample.y as i64) > (self.reference.y as i64) + (MAX_OFFSET as i64) || (sample.y as i64)
            < (self.reference.y as i64) - (MAX_OFFSET as i64) {
            events.push(GameEvent::ChaosInflicted);
        }
        if (sample.z as i64) > (self.reference.z as i64) + (MAX_OFFSET as i64) || (sample.z as i64)
            < (self.reference.z as i64) - (MAX_OFFSET as i64) {
            events.push(GameEvent::ChaosInflicted);
        }
        self.reference = sample;
        events
    }
}

} // verus!
