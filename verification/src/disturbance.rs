//! One external stimulus event.

use vstd::prelude::*;

verus! {

use crate::fixed::UNIT;

/// Largest representable duration: a hundred thousand time units in
/// fixed-point form, far beyond any simulated event.
pub const DURATION_MAX: i64 = 1_000_000_000;

/// A disturbance value outside its documented range.
#[derive(Clone, Copy, Debug, PartialEq, Eq, Structural)]
pub struct InvalidDisturbance;

/// An immutable external stimulus: how strong, how long, how abrupt.
/// Fields are fixed-point scalars (`UNIT` is 1.0).
#[derive(Clone, Copy, Debug, PartialEq, Eq, Structural)]
pub struct Disturbance {
    /// Strength of the stimulus, 0 to `UNIT`.
    pub intensity: i64,
    /// Length of the stimulus in time units, 0 to `DURATION_MAX`.
    pub duration: i64,
    /// Abruptness, 0 (smooth) to `UNIT` (shock).
    pub suddenness: i64,
}

impl Disturbance {
    /// The documented ranges of the three fields.
    pub open spec fn wf(self) -> bool {
        &&& 0 <= self.intensity <= UNIT
        &&& 0 <= self.duration <= DURATION_MAX
        &&& 0 <= self.suddenness <= UNIT
    }

    /// Builds a disturbance; the caller supplies values in range, which is
    /// not re-checked here (`validated` is the checking constructor).
    pub fn new(intensity: i64, duration: i64, suddenness: i64) -> (d: Disturbance)
        requires
            0 <= intensity <= UNIT,
            0 <= duration <= DURATION_MAX,
            0 <= suddenness <= UNIT,
        ensures
            d == (Disturbance { intensity, duration, suddenness }),
            d.wf(),
    {
        Disturbance { intensity, duration, suddenness }
    }

    /// Builds a disturbance from arbitrary values, rejecting exactly those
    /// outside the documented ranges.
    pub fn validated(intensity: i64, duration: i64, suddenness: i64) -> (r: Result<
        Disturbance,
        InvalidDisturbance,
    >)
        ensures
            r is Ok <==> (Disturbance { intensity, duration, suddenness }).wf(),
            r matches Ok(d) ==> d == (Disturbance { intensity, duration, suddenness }),
    {
        if 0 <= intensity && intensity <= UNIT && 0 <= duration && duration <= DURATION_MAX && 0
            <= suddenness && suddenness <= UNIT {
            Ok(Disturbance { intensity, duration, suddenness })
        } else {
            Err(InvalidDisturbance)
        }
    }
}

} // verus!
