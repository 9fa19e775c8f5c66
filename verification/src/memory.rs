//! Raw experience traces: the record of one state transition.

use vstd::prelude::*;

verus! {

use crate::disturbance::Disturbance;
use crate::fixed::UNIT;
use crate::fixed::clamp_spec;

/// Upper clamp of the tension scalar (1.5); stability and energy stop at
/// `UNIT`.
pub const TENSION_MAX: i64 = 15_000;

/// One state transition: the physiological scalars before a disturbance,
/// the disturbance itself, and the scalars after it. Never mutated.
#[derive(Clone, Copy, Debug, PartialEq, Eq, Structural)]
pub struct ExperienceTrace {
    pub tension_before: i64,
    pub stability_before: i64,
    pub energy_before: i64,
    pub disturbance: Disturbance,
    pub tension_after: i64,
    pub stability_after: i64,
    pub energy_after: i64,
}

/// The documented ranges of the three physiological scalars.
pub open spec fn physio_wf(tension: int, stability: int, energy: int) -> bool {
    &&& 0 <= tension <= TENSION_MAX
    &&& 0 <= stability <= UNIT
    &&& 0 <= energy <= UNIT
}

/// The three scalars forced back into their documented ranges.
pub open spec fn physio_clamped(tension: int, stability: int, energy: int) -> (int, int, int) {
    (
        clamp_spec(tension, 0, TENSION_MAX as int),
        clamp_spec(stability, 0, UNIT as int),
        clamp_spec(energy, 0, UNIT as int),
    )
}

impl ExperienceTrace {
    /// Both snapshots lie in their documented ranges and the recorded
    /// disturbance does too.
    pub open spec fn wf(self) -> bool {
        &&& physio_wf(self.tension_before as int, self.stability_before as int, self.energy_before as int)
        &&& physio_wf(self.tension_after as int, self.stability_after as int, self.energy_after as int)
        &&& self.disturbance.wf()
    }
}

} // verus!
