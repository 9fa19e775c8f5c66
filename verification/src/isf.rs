//! The internal state field: physiology, plasticity and both memory
//! subsystems, driven by external disturbances and autonomous ticks.

use vstd::prelude::*;

verus! {

use vstd::math::abs;
use crate::bias::BiasField;
use crate::bias::BiasRepertoire;
use crate::bias::PREF_MAX;
use crate::bias::all_wf;
use crate::bias::dominant_idx;
use crate::bias::lemma_dominant_in_max;
use crate::bias::recorded;
use crate::disturbance::Disturbance;
use crate::fixed::FACTOR_MAX;
use crate::fixed::UNIT;
use crate::fixed::clamp_spec;
use crate::fixed::clamp64;
use crate::fixed::div_trunc;
use crate::fixed::lemma_mul_abs_bound;
use crate::fixed::lemma_trunc_div_bounds;
use crate::fixed::lemma_trunc_div_multiple_bound;
use crate::fixed::mul_div;
use crate::fixed::trunc_div;
use crate::memory::ExperienceTrace;
use crate::memory::TENSION_MAX;
use crate::memory::physio_clamped;
use crate::memory::physio_wf;

/// Birth defaults of the physiological scalars.
pub const TENSION_INIT: i64 = 5_000;

pub const STABILITY_INIT: i64 = 1_000;

pub const ENERGY_INIT: i64 = 5_000;

/// Birth defaults and clamped ranges of the plasticity scalars.
pub const SHOCK_SENSITIVITY_INIT: i64 = 2_000;

pub const SHOCK_SENSITIVITY_MIN: i64 = 500;

pub const SHOCK_SENSITIVITY_MAX: i64 = 5_000;

pub const STABILITY_GAIN_INIT: i64 = 500;

pub const STABILITY_GAIN_MIN: i64 = 100;

pub const STABILITY_GAIN_MAX: i64 = 2_000;

pub const ENERGY_GAIN_INIT: i64 = 1_000;

pub const ENERGY_GAIN_MIN: i64 = 500;

pub const ENERGY_GAIN_MAX: i64 = 3_000;

/// Well-regulated shock above this gate desensitizes (shock > 0.3 with
/// stability > 0.6).
pub const SHOCK_GATE: i64 = 3_000;

pub const STABILITY_GATE: i64 = 6_000;

/// Multipliers of the three plasticity adaptations (0.98, 1.02, 0.99).
pub const DESENSITIZE_FACTOR: i64 = 9_800;

pub const STABILITY_LEARN_FACTOR: i64 = 10_200;

pub const ENERGY_ADAPT_FACTOR: i64 = 9_900;

/// Shock costs energy at half the energy gain rate.
pub const SHOCK_ENERGY_COST_DIV: i64 = 2;

/// Homeostasis: tension below 0.4 consolidates regulation, energy
/// self-balances toward the band between 0.4 and 0.6, by steps of 0.01.
pub const LOW_TENSION: i64 = 4_000;

pub const ENERGY_HIGH: i64 = 6_000;

pub const ENERGY_LOW: i64 = 4_000;

pub const HOMEOSTASIS_STEP: i64 = 100;

/// A structural-bias tick drifts by 0.05 of the dominant direction,
/// scaled by its strength.
pub const DRIFT_FACTOR: i64 = 500;

/// A trace tick replays 0.2 of the nearest trace's recorded change.
pub const REPLAY_FACTOR: i64 = 2_000;

/// Which strategy an autonomous tick uses.
#[derive(Clone, Copy, Debug, PartialEq, Eq, Structural)]
pub enum ReplayMode {
    /// Replay the raw experience trace nearest to the current state.
    TraceBased,
    /// Drift along the dominant bias attractor.
    StructuralBias,
}

/// The physiological state of one simulated subject, its plasticity
/// parameters, its raw trace memory and its bias repertoire.
#[derive(Debug)]
pub struct InternalStateField {
    /// Nervous arousal, 0 to `TENSION_MAX`.
    pub tension: i64,
    /// Regulation capacity, 0 to `UNIT`.
    pub stability: i64,
    /// Activation energy, 0 to `UNIT`.
    pub energy: i64,
    /// How strongly shock raises tension.
    pub shock_sensitivity: i64,
    /// How fast stability grows during calm.
    pub stability_gain_rate: i64,
    /// How energy reacts to stimulation.
    pub energy_gain_rate: i64,
    /// Raw experience traces. The retention policy is append-only: one
    /// trace per disturbance, never evicted, so the memory grows without
    /// bound in long trace-replay runs.
    pub memory: Vec<ExperienceTrace>,
    /// Directional structural memory.
    pub biases: BiasRepertoire,
    /// Strategy of the next autonomous tick.
    pub replay_mode: ReplayMode,
}

/// Shock: the product of intensity and suddenness.
pub open spec fn shock_of(d: Disturbance) -> int {
    trunc_div(d.intensity * d.suddenness, UNIT as int)
}

/// Calm: the product of duration and smoothness.
pub open spec fn calm_of(d: Disturbance) -> int {
    trunc_div(d.duration * (UNIT - d.suddenness), UNIT as int)
}

/// The raw physiological response to a disturbance, before clamping:
/// shock raises tension, calm raises stability, intensity feeds energy
/// while shock drains it at half the gain rate.
pub open spec fn physio_response(
    t: int,
    s: int,
    e: int,
    sens: int,
    srate: int,
    erate: int,
    d: Disturbance,
) -> (int, int, int) {
    let shock = shock_of(d);
    let calm = calm_of(d);
    (
        t + trunc_div(shock * sens, UNIT as int),
        s + trunc_div(calm * srate, UNIT as int),
        e + trunc_div(d.intensity * erate, UNIT as int) - trunc_div(
            shock * trunc_div(erate, SHOCK_ENERGY_COST_DIV as int),
            UNIT as int,
        ),
    )
}

/// The plasticity scalars after one disturbance. Each rule reads the
/// already-updated (unclamped) physiological state of the current step;
/// the results are clamped to their documented ranges.
pub open spec fn plasticity_adapted(
    sens: int,
    srate: int,
    erate: int,
    shock: int,
    calm: int,
    t1: int,
    s1: int,
) -> (int, int, int) {
    let sens1 = if shock > SHOCK_GATE && s1 > STABILITY_GATE {
        trunc_div(sens * DESENSITIZE_FACTOR, UNIT as int)
    } else {
        sens
    };
    let srate1 = if calm > UNIT {
        trunc_div(srate * STABILITY_LEARN_FACTOR, UNIT as int)
    } else {
        srate
    };
    let erate1 = if t1 > UNIT {
        trunc_div(erate * ENERGY_ADAPT_FACTOR, UNIT as int)
    } else {
        erate
    };
    (
        clamp_spec(sens1, SHOCK_SENSITIVITY_MIN as int, SHOCK_SENSITIVITY_MAX as int),
        clamp_spec(srate1, STABILITY_GAIN_MIN as int, STABILITY_GAIN_MAX as int),
        clamp_spec(erate1, ENERGY_GAIN_MIN as int, ENERGY_GAIN_MAX as int),
    )
}

/// The clamped physiological state after one disturbance.
pub open spec fn disturbed_physio(
    t: int,
    s: int,
    e: int,
    sens: int,
    srate: int,
    erate: int,
    d: Disturbance,
) -> (int, int, int) {
    let (t1, s1, e1) = physio_response(t, s, e, sens, srate, erate, d);
    physio_clamped(t1, s1, e1)
}

/// The plasticity scalars after one disturbance.
pub open spec fn disturbed_plasticity(
    t: int,
    s: int,
    e: int,
    sens: int,
    srate: int,
    erate: int,
    d: Disturbance,
) -> (int, int, int) {
    let (t1, s1, e1) = physio_response(t, s, e, sens, srate, erate, d);
    plasticity_adapted(sens, srate, erate, shock_of(d), calm_of(d), t1, s1)
}

/// The per-tick drift a structural-bias tick applies: 0.05 of the
/// attractor's preferred direction, scaled by its strength.
pub open spec fn drift_of(b: BiasField) -> (int, int, int) {
    (
        trunc_div(trunc_div(b.dt_pref * b.strength, UNIT as int) * DRIFT_FACTOR, UNIT as int),
        trunc_div(trunc_div(b.ds_pref * b.strength, UNIT as int) * DRIFT_FACTOR, UNIT as int),
        trunc_div(trunc_div(b.de_pref * b.strength, UNIT as int) * DRIFT_FACTOR, UNIT as int),
    )
}

/// The physiological state after a structural-bias step: a drift along the
/// dominant attractor, clamped; unchanged while the repertoire is empty.
pub open spec fn bias_stepped(attrs: Seq<BiasField>, t: int, s: int, e: int) -> (int, int, int) {
    if attrs.len() == 0 {
        (t, s, e)
    } else {
        let b = attrs[dominant_idx(attrs)];
        let (ddt, dds, dde) = drift_of(b);
        physio_clamped(t + ddt, s + dds, e + dde)
    }
}

/// L1 distance between a trace's before-state and the current state.
pub open spec fn trace_score(tr: ExperienceTrace, t: int, s: int, e: int) -> int {
    abs(t - tr.tension_before) + abs(s - tr.stability_before) + abs(
        e - tr.energy_before,
    ) as int
}

/// Index of the trace whose before-state is nearest to the current state
/// among the first `n`; the earliest on a tie.
pub open spec fn best_trace_in(
    mem: Seq<ExperienceTrace>,
    t: int,
    s: int,
    e: int,
    n: int,
) -> int
    decreases n,
{
    if n <= 1 {
        0
    } else {
        let prev = best_trace_in(mem, t, s, e, n - 1);
        if trace_score(mem[n - 1], t, s, e) < trace_score(mem[prev], t, s, e) {
            n - 1
        } else {
            prev
        }
    }
}

/// Index of the nearest trace of the whole memory.
pub open spec fn best_trace_idx(mem: Seq<ExperienceTrace>, t: int, s: int, e: int) -> int
    recommends
        mem.len() > 0,
{
    best_trace_in(mem, t, s, e, mem.len() as int)
}

/// What a trace tick replays: 0.2 of the trace's recorded change.
pub open spec fn replay_of(tr: ExperienceTrace) -> (int, int, int) {
    (
        trunc_div((tr.tension_after - tr.tension_before) * REPLAY_FACTOR, UNIT as int),
        trunc_div((tr.stability_after - tr.stability_before) * REPLAY_FACTOR, UNIT as int),
        trunc_div((tr.energy_after - tr.energy_before) * REPLAY_FACTOR, UNIT as int),
    )
}

/// The physiological state after a trace step: a partial replay of the
/// nearest trace, clamped; unchanged while the memory is empty.
pub open spec fn trace_stepped(mem: Seq<ExperienceTrace>, t: int, s: int, e: int) -> (
    int,
    int,
    int,
) {
    if mem.len() == 0 {
        (t, s, e)
    } else {
        let tr = mem[best_trace_idx(mem, t, s, e)];
        let (ddt, dds, dde) = replay_of(tr);
        physio_clamped(t + ddt, s + dds, e + dde)
    }
}

/// The shared homeostasis of every tick: low tension consolidates
/// regulation, energy self-balances toward its mid-band, and the result
/// is clamped.
pub open spec fn homeostasis(t: int, s: int, e: int) -> (int, int, int) {
    let s1 = if t < LOW_TENSION {
        s + HOMEOSTASIS_STEP
    } else {
        s
    };
    let e1 = if e > ENERGY_HIGH {
        e - HOMEOSTASIS_STEP
    } else if e < ENERGY_LOW {
        e + HOMEOSTASIS_STEP
    } else {
        e
    };
    physio_clamped(t, s1, e1)
}

/// The mode-selected part of a tick.
pub open spec fn mode_stepped(
    mode: ReplayMode,
    attrs: Seq<BiasField>,
    mem: Seq<ExperienceTrace>,
    t: int,
    s: int,
    e: int,
) -> (int, int, int) {
    match mode {
        ReplayMode::TraceBased => trace_stepped(mem, t, s, e),
        ReplayMode::StructuralBias => bias_stepped(attrs, t, s, e),
    }
}

/// The physiological state after one full autonomous tick: the
/// mode-selected step, then the shared homeostasis.
pub open spec fn tick_physio(
    mode: ReplayMode,
    attrs: Seq<BiasField>,
    mem: Seq<ExperienceTrace>,
    t: int,
    s: int,
    e: int,
) -> (int, int, int) {
    let (t1, s1, e1) = mode_stepped(mode, attrs, mem, t, s, e);
    homeostasis(t1, s1, e1)
}

impl InternalStateField {
    /// Every scalar in its documented range, every attractor and every
    /// stored trace well-formed.
    pub open spec fn wf(self) -> bool {
        &&& physio_wf(self.tension as int, self.stability as int, self.energy as int)
        &&& SHOCK_SENSITIVITY_MIN <= self.shock_sensitivity <= SHOCK_SENSITIVITY_MAX
        &&& STABILITY_GAIN_MIN <= self.stability_gain_rate <= STABILITY_GAIN_MAX
        &&& ENERGY_GAIN_MIN <= self.energy_gain_rate <= ENERGY_GAIN_MAX
        &&& self.biases.wf()
        &&& forall|i: int| 0 <= i < self.memory@.len() ==> (#[trigger] self.memory@[i]).wf()
    }

    /// A newborn state field: fixed birth defaults, no memory, no
    /// attractors, structural-bias replay.
    pub fn new() -> (r: InternalStateField)
        ensures
            r.tension == TENSION_INIT,
            r.stability == STABILITY_INIT,
            r.energy == ENERGY_INIT,
            r.shock_sensitivity == SHOCK_SENSITIVITY_INIT,
            r.stability_gain_rate == STABILITY_GAIN_INIT,
            r.energy_gain_rate == ENERGY_GAIN_INIT,
            r.memory@ == Seq::<ExperienceTrace>::empty(),
            r.biases.attractors@ == Seq::<BiasField>::empty(),
            r.replay_mode == ReplayMode::StructuralBias,
            r.wf(),
    {
        InternalStateField {
            tension: TENSION_INIT,
            stability: STABILITY_INIT,
            energy: ENERGY_INIT,
            shock_sensitivity: SHOCK_SENSITIVITY_INIT,
            stability_gain_rate: STABILITY_GAIN_INIT,
            energy_gain_rate: ENERGY_GAIN_INIT,
            memory: Vec::new(),
            biases: BiasRepertoire::new(),
            replay_mode: ReplayMode::StructuralBias,
        }
    }

    /// The plasticity adaptation rules, applied in fixed order after the
    /// physiological response of the current step.
    fn update_plasticity(&mut self, shock: i64, calm: i64)
        requires
            SHOCK_SENSITIVITY_MIN <= old(self).shock_sensitivity <= SHOCK_SENSITIVITY_MAX,
            STABILITY_GAIN_MIN <= old(self).stability_gain_rate <= STABILITY_GAIN_MAX,
            ENERGY_GAIN_MIN <= old(self).energy_gain_rate <= ENERGY_GAIN_MAX,
        ensures
            ({
                let (sens2, srate2, erate2) = plasticity_adapted(
                    old(self).shock_sensitivity as int,
                    old(self).stability_gain_rate as int,
                    old(self).energy_gain_rate as int,
                    shock as int,
                    calm as int,
                    old(self).tension as int,
                    old(self).stability as int,
                );
                &&& final(self).shock_sensitivity == sens2
                &&& final(self).stability_gain_rate == srate2
                &&& final(self).energy_gain_rate == erate2
            }),
            final(self).tension == old(self).tension,
            final(self).stability == old(self).stability,
            final(self).energy == old(self).energy,
            final(self).memory == old(self).memory,
            final(self).biases == old(self).biases,
            final(self).replay_mode == old(self).replay_mode,
            SHOCK_SENSITIVITY_MIN <= final(self).shock_sensitivity <= SHOCK_SENSITIVITY_MAX,
            STABILITY_GAIN_MIN <= final(self).stability_gain_rate <= STABILITY_GAIN_MAX,
            ENERGY_GAIN_MIN <= final(self).energy_gain_rate <= ENERGY_GAIN_MAX,
    {
        if shock > SHOCK_GATE && self.stability > STABILITY_GATE {
            self.shock_sensitivity = mul_div(self.shock_sensitivity, DESENSITIZE_FACTOR, UNIT);
        }
        if calm > UNIT {
            self.stability_gain_rate = mul_div(self.stability_gain_rate, STABILITY_LEARN_FACTOR, UNIT);
        }
        if self.tension > UNIT {
            self.energy_gain_rate = mul_div(self.energy_gain_rate, ENERGY_ADAPT_FACTOR, UNIT);
        }
        self.shock_sensitivity = clamp64(
            self.shock_sensitivity,
            SHOCK_SENSITIVITY_MIN,
            SHOCK_SENSITIVITY_MAX,
        );
        self.stability_gain_rate = clamp64(
            self.stability_gain_rate,
            STABILITY_GAIN_MIN,
            STABILITY_GAIN_MAX,
        );
        self.energy_gain_rate = clamp64(self.energy_gain_rate, ENERGY_GAIN_MIN, ENERGY_GAIN_MAX);
    }

    /// Apply one external disturbance: physiological response, plasticity
    /// adaptation, clamping, reinforcement of the bias repertoire with the
    /// observed direction of change, and one appended experience trace.
    pub fn apply_disturbance(&mut self, d: &Disturbance)
        requires
            old(self).wf(),
            d.wf(),
        ensures
            final(self).wf(),
            ({
                let (t2, s2, e2) = disturbed_physio(
                    old(self).tension as int,
                    old(self).stability as int,
                    old(self).energy as int,
                    old(self).shock_sensitivity as int,
                    old(self).stability_gain_rate as int,
                    old(self).energy_gain_rate as int,
                    *d,
                );
                let (sens2, srate2, erate2) = disturbed_plasticity(
                    old(self).tension as int,
                    old(self).stability as int,
                    old(self).energy as int,
                    old(self).shock_sensitivity as int,
                    old(self).stability_gain_rate as int,
                    old(self).energy_gain_rate as int,
                    *d,
                );
                &&& final(self).tension == t2
                &&& final(self).stability == s2
                &&& final(self).energy == e2
                &&& final(self).shock_sensitivity == sens2
                &&& final(self).stability_gain_rate == srate2
                &&& final(self).energy_gain_rate == erate2
                &&& final(self).biases.attractors@ == recorded(
                    old(self).biases.attractors@,
                    t2 - old(self).tension,
                    s2 - old(self).stability,
                    e2 - old(self).energy,
                )
            }),
            final(self).memory@ == old(self).memory@.push(
                (ExperienceTrace {
                    tension_before: old(self).tension,
                    stability_before: old(self).stability,
                    energy_before: old(self).energy,
                    disturbance: *d,
                    tension_after: final(self).tension,
                    stability_after: final(self).stability,
                    energy_after: final(self).energy,
                }),
            ),
            final(self).replay_mode == old(self).replay_mode,
    {
        let before_tension: i64 = self.tension;
        let before_stability: i64 = self.stability;
        let before_energy: i64 = self.energy;

        let shock: i64 = mul_div(d.intensity, d.suddenness, UNIT);
        let calm: i64 = mul_div(d.duration, UNIT - d.suddenness, UNIT);
        proof {
            lemma_mul_abs_bound(d.intensity as int, d.suddenness as int, UNIT as int, UNIT as int);
            lemma_trunc_div_multiple_bound(d.intensity * d.suddenness, UNIT as int, UNIT as int);
            lemma_mul_abs_bound(
                d.duration as int,
                UNIT - d.suddenness,
                crate::disturbance::DURATION_MAX as int,
                UNIT as int,
            );
            lemma_trunc_div_multiple_bound(
                d.duration * (UNIT - d.suddenness),
                UNIT as int,
                crate::disturbance::DURATION_MAX as int,
            );
            lemma_mul_abs_bound(
                shock as int,
                self.shock_sensitivity as int,
                UNIT as int,
                SHOCK_SENSITIVITY_MAX as int,
            );
            lemma_trunc_div_multiple_bound(
                shock * self.shock_sensitivity,
                UNIT as int,
                SHOCK_SENSITIVITY_MAX as int,
            );
            lemma_mul_abs_bound(
                calm as int,
                self.stability_gain_rate as int,
                crate::disturbance::DURATION_MAX as int,
                STABILITY_GAIN_MAX as int,
            );
            lemma_trunc_div_multiple_bound(
                calm * self.stability_gain_rate,
                UNIT as int,
                crate::disturbance::DURATION_MAX as int * STABILITY_GAIN_MAX as int / UNIT as int,
            );
            lemma_mul_abs_bound(
                d.intensity as int,
                self.energy_gain_rate as int,
                UNIT as int,
                ENERGY_GAIN_MAX as int,
            );
            lemma_trunc_div_multiple_bound(
                d.intensity * self.energy_gain_rate,
                UNIT as int,
                ENERGY_GAIN_MAX as int,
            );
            lemma_trunc_div_bounds(self.energy_gain_rate as int, SHOCK_ENERGY_COST_DIV as int);
        }
        self.tension = self.tension + mul_div(shock, self.shock_sensitivity, UNIT);
        self.stability = self.stability + mul_div(calm, self.stability_gain_rate, UNIT);
        let half_rate: i64 = div_trunc(self.energy_gain_rate, SHOCK_ENERGY_COST_DIV);
        proof {
            lemma_mul_abs_bound(shock as int, half_rate as int, UNIT as int, ENERGY_GAIN_MAX as int);
            lemma_trunc_div_multiple_bound(shock * half_rate, UNIT as int, ENERGY_GAIN_MAX as int);
        }
        self.energy = self.energy + mul_div(d.intensity, self.energy_gain_rate, UNIT) - mul_div(
            shock,
            half_rate,
            UNIT,
        );

        self.update_plasticity(shock, calm);

        self.tension = clamp64(self.tension, 0, TENSION_MAX);
        self.stability = clamp64(self.stability, 0, UNIT);
        self.energy = clamp64(self.energy, 0, UNIT);

        let dt: i64 = self.tension - before_tension;
        let ds: i64 = self.stability - before_stability;
        let de: i64 = self.energy - before_energy;
        self.biases.record_experience(dt, ds, de);

        let trace = ExperienceTrace {
            tension_before: before_tension,
            stability_before: before_stability,
            energy_before: before_energy,
            disturbance: *d,
            tension_after: self.tension,
            stability_after: self.stability,
            energy_after: self.energy,
        };
        self.memory.push(trace);
        proof {
            assert(forall|i: int|
                0 <= i < old(self).memory@.len() ==> self.memory@[i] == old(self).memory@[i]);
        }
    }

    /// One structural-bias replay step: drift along the dominant attractor,
    /// scaled by how confidently it was learned; a no-op while the
    /// repertoire is empty. Homeostasis is applied by the full tick.
    pub fn bias_thinking_tick(&mut self)
        requires
            old(self).wf(),
        ensures
            final(self).wf(),
            ({
                let (t1, s1, e1) = bias_stepped(
                    old(self).biases.attractors@,
                    old(self).tension as int,
                    old(self).stability as int,
                    old(self).energy as int,
                );
                &&& final(self).tension == t1
                &&& final(self).stability == s1
                &&& final(self).energy == e1
            }),
            final(self).shock_sensitivity == old(self).shock_sensitivity,
            final(self).stability_gain_rate == old(self).stability_gain_rate,
            final(self).energy_gain_rate == old(self).energy_gain_rate,
            final(self).memory == old(self).memory,
            final(self).biases == old(self).biases,
            final(self).replay_mode == old(self).replay_mode,
    {
        match self.biases.dominant() {
            Ok(b) => {
                proof {
                    lemma_dominant_in_max(
                        self.biases.attractors@,
                        self.biases.attractors@.len() as int,
                    );
                    lemma_mul_abs_bound(
                        b.dt_pref as int,
                        b.strength as int,
                        PREF_MAX as int,
                        UNIT as int,
                    );
                    lemma_mul_abs_bound(
                        b.ds_pref as int,
                        b.strength as int,
                        PREF_MAX as int,
                        UNIT as int,
                    );
                    lemma_mul_abs_bound(
                        b.de_pref as int,
                        b.strength as int,
                        PREF_MAX as int,
                        UNIT as int,
                    );
                    lemma_trunc_div_multiple_bound(
                        b.dt_pref * b.strength,
                        UNIT as int,
                        PREF_MAX as int,
                    );
                    lemma_trunc_div_multiple_bound(
                        b.ds_pref * b.strength,
                        UNIT as int,
                        PREF_MAX as int,
                    );
                    lemma_trunc_div_multiple_bound(
                        b.de_pref * b.strength,
                        UNIT as int,
                        PREF_MAX as int,
                    );
                }
                let qt: i64 = mul_div(b.dt_pref, b.strength, UNIT);
                let qs: i64 = mul_div(b.ds_pref, b.strength, UNIT);
                let qe: i64 = mul_div(b.de_pref, b.strength, UNIT);
                proof {
                    lemma_mul_abs_bound(qt as int, DRIFT_FACTOR as int, PREF_MAX as int, DRIFT_FACTOR as int);
                    lemma_mul_abs_bound(qs as int, DRIFT_FACTOR as int, PREF_MAX as int, DRIFT_FACTOR as int);
                    lemma_mul_abs_bound(qe as int, DRIFT_FACTOR as int, PREF_MAX as int, DRIFT_FACTOR as int);
                    lemma_trunc_div_multiple_bound(qt * DRIFT_FACTOR, UNIT as int, PREF_MAX as int);
                    lemma_trunc_div_multiple_bound(qs * DRIFT_FACTOR, UNIT as int, PREF_MAX as int);
                    lemma_trunc_div_multiple_bound(qe * DRIFT_FACTOR, UNIT as int, PREF_MAX as int);
                }
                let ddt: i64 = mul_div(qt, DRIFT_FACTOR, UNIT);
                let dds: i64 = mul_div(qs, DRIFT_FACTOR, UNIT);
                let dde: i64 = mul_div(qe, DRIFT_FACTOR, UNIT);
                self.tension = clamp64(self.tension + ddt, 0, TENSION_MAX);
                self.stability = clamp64(self.stability + dds, 0, UNIT);
                self.energy = clamp64(self.energy + dde, 0, UNIT);
            },
            Err(_) => {},
        }
    }

    /// One trace replay step: find the remembered experience whose
    /// before-state lies nearest to the current state and apply a fifth of
    /// its recorded change; a no-op while the memory is empty. Homeostasis
    /// is applied by the full tick.
    pub fn trace_thinking_tick(&mut self)
        requires
            old(self).wf(),
        ensures
            final(self).wf(),
            ({
                let (t1, s1, e1) = trace_stepped(
                    old(self).memory@,
                    old(self).tension as int,
                    old(self).stability as int,
                    old(self).energy as int,
                );
                &&& final(self).tension == t1
                &&& final(self).stability == s1
                &&& final(self).energy == e1
            }),
            final(self).shock_sensitivity == old(self).shock_sensitivity,
            final(self).stability_gain_rate == old(self).stability_gain_rate,
            final(self).energy_gain_rate == old(self).energy_gain_rate,
            final(self).memory == old(self).memory,
            final(self).biases == old(self).biases,
            final(self).replay_mode == old(self).replay_mode,
    {
        if self.memory.len() == 0 {
            return ;
        }
        let ct: i64 = self.tension;
        let cs: i64 = self.stability;
        let ce: i64 = self.energy;
        let mut best: usize = 0;
        let mut best_score: i64 = trace_distance(&self.memory[0], ct, cs, ce);
        let mut j: usize = 1;
        while j < self.memory.len()
            invariant
                old(self).wf(),
                self == old(self),
                ct == self.tension,
                cs == self.stability,
                ce == self.energy,
                1 <= j <= self.memory@.len(),
                best == best_trace_in(self.memory@, ct as int, cs as int, ce as int, j as int),
                0 <= best < j,
                best_score == trace_score(
                    self.memory@[best as int],
                    ct as int,
                    cs as int,
                    ce as int,
                ),
            decreases self.memory@.len() - j,
        {
            let score: i64 = trace_distance(&self.memory[j], ct, cs, ce);
            if score < best_score {
                best = j;
                best_score = score;
            }
            j = j + 1;
        }
        let tr: ExperienceTrace = self.memory[best];
        proof {
            lemma_trunc_div_multiple_bound(
                (tr.tension_after - tr.tension_before) * REPLAY_FACTOR,
                UNIT as int,
                TENSION_MAX as int,
            );
            lemma_trunc_div_multiple_bound(
                (tr.stability_after - tr.stability_before) * REPLAY_FACTOR,
                UNIT as int,
                TENSION_MAX as int,
            );
            lemma_trunc_div_multiple_bound(
                (tr.energy_after - tr.energy_before) * REPLAY_FACTOR,
                UNIT as int,
                TENSION_MAX as int,
            );
        }
        let ddt: i64 = mul_div(tr.tension_after - tr.tension_before, REPLAY_FACTOR, UNIT);
        let dds: i64 = mul_div(tr.stability_after - tr.stability_before, REPLAY_FACTOR, UNIT);
        let dde: i64 = mul_div(tr.energy_after - tr.energy_before, REPLAY_FACTOR, UNIT);
        self.tension = clamp64(self.tension + ddt, 0, TENSION_MAX);
        self.stability = clamp64(self.stability + dds, 0, UNIT);
        self.energy = clamp64(self.energy + dde, 0, UNIT);
    }

    /// One autonomous tick: the step of the selected replay mode, then the
    /// shared homeostasis, one decay of every attractor, and clamping.
    pub fn internal_thinking_tick(&mut self)
        requires
            old(self).wf(),
        ensures
            final(self).wf(),
            ({
                let (t2, s2, e2) = tick_physio(
                    old(self).replay_mode,
                    old(self).biases.attractors@,
                    old(self).memory@,
                    old(self).tension as int,
                    old(self).stability as int,
                    old(self).energy as int,
                );
                &&& final(self).tension == t2
                &&& final(self).stability == s2
                &&& final(self).energy == e2
            }),
            final(self).biases.attractors@ == old(self).biases.attractors@.map_values(
                |b: BiasField| b.decayed(),
            ),
            final(self).memory@ == old(self).memory@,
            final(self).shock_sensitivity == old(self).shock_sensitivity,
            final(self).stability_gain_rate == old(self).stability_gain_rate,
            final(self).energy_gain_rate == old(self).energy_gain_rate,
            final(self).replay_mode == old(self).replay_mode,
    {
        match self.replay_mode {
            ReplayMode::TraceBased => self.trace_thinking_tick(),
            ReplayMode::StructuralBias => self.bias_thinking_tick(),
        }
        if self.tension < LOW_TENSION {
            self.stability = self.stability + HOMEOSTASIS_STEP;
        }
        if self.energy > ENERGY_HIGH {
            self.energy = self.energy - HOMEOSTASIS_STEP;
        } else if self.energy < ENERGY_LOW {
            self.energy = self.energy + HOMEOSTASIS_STEP;
        }
        self.biases.decay_all();
        self.tension = clamp64(self.tension, 0, TENSION_MAX);
        self.stability = clamp64(self.stability, 0, UNIT);
        self.energy = clamp64(self.energy, 0, UNIT);
    }
}

/// L1 distance between a trace's before-state and the given state.
fn trace_distance(tr: &ExperienceTrace, t: i64, s: i64, e: i64) -> (r: i64)
    requires
        tr.wf(),
        physio_wf(t as int, s as int, e as int),
    ensures
        r == trace_score(*tr, t as int, s as int, e as int),
{
    let a: i64 = if t >= tr.tension_before {
        t - tr.tension_before
    } else {
        tr.tension_before - t
    };
    let b: i64 = if s >= tr.stability_before {
        s - tr.stability_before
    } else {
        tr.stability_before - s
    };
    let c: i64 = if e >= tr.energy_before {
        e - tr.energy_before
    } else {
        tr.energy_before - e
    };
    a + b + c
}

/// With no attractor and no trace, an autonomous tick of either mode comes
/// down to the shared homeostasis alone, which is well-defined with zero
/// history: neither replay strategy can fail on an empty past.
pub proof fn lemma_empty_history_tick_is_homeostasis(mode: ReplayMode, t: int, s: int, e: int)
    ensures
        tick_physio(
            mode,
            Seq::<BiasField>::empty(),
            Seq::<ExperienceTrace>::empty(),
            t,
            s,
            e,
        ) == homeostasis(t, s, e),
{
}

/// An autonomous tick from the fresh birth state is a no-op for every
/// replay mode: with no attractor and no trace both strategies leave the
/// physiological scalars exactly where they were, and the homeostasis
/// terms are all inactive at the birth values.
pub proof fn lemma_fresh_tick_noop(mode: ReplayMode)
    ensures
        tick_physio(
            mode,
            Seq::<BiasField>::empty(),
            Seq::<ExperienceTrace>::empty(),
            TENSION_INIT as int,
            STABILITY_INIT as int,
            ENERGY_INIT as int,
        ) == (TENSION_INIT as int, STABILITY_INIT as int, ENERGY_INIT as int),
{
}

/// The state after `k` consecutive autonomous ticks in structural-bias
/// mode: each tick drifts along the dominant attractor, applies the shared
/// homeostasis and decays every attractor, exactly as
/// `internal_thinking_tick` does tick by tick.
pub open spec fn bias_replay_run(
    attrs: Seq<BiasField>,
    mem: Seq<ExperienceTrace>,
    t: int,
    s: int,
    e: int,
    k: nat,
) -> (Seq<BiasField>, int, int, int)
    decreases k,
{
    if k == 0 {
        (attrs, t, s, e)
    } else {
        let (t1, s1, e1) = tick_physio(ReplayMode::StructuralBias, attrs, mem, t, s, e);
        bias_replay_run(
            attrs.map_values(|b: BiasField| b.decayed()),
            mem,
            t1,
            s1,
            e1,
            (k - 1) as nat,
        )
    }
}

/// Bias replay is a bounded drift, not a runaway: over any number of
/// consecutive structural-bias ticks, tension moves in total by at most
/// the number of ticks times 0.05 of the widest preferred tension
/// direction in the repertoire, however the attractors' strengths and the
/// dominant attractor evolve along the way.
pub proof fn lemma_bias_replay_no_runaway(
    attrs: Seq<BiasField>,
    mem: Seq<ExperienceTrace>,
    t: int,
    s: int,
    e: int,
    k: nat,
    cap: int,
)
    requires
        all_wf(attrs),
        physio_wf(t, s, e),
        cap >= 0,
        forall|i: int| 0 <= i < attrs.len() ==> abs((#[trigger] attrs[i]).dt_pref as int) <= cap,
    ensures
        abs(bias_replay_run(attrs, mem, t, s, e, k).1 - t) <= k * trunc_div(
            cap * DRIFT_FACTOR as int,
            UNIT as int,
        ),
    decreases k,
{
    let step = trunc_div(cap * DRIFT_FACTOR as int, UNIT as int);
    lemma_trunc_div_bounds(cap * DRIFT_FACTOR as int, UNIT as int);
    if k == 0 {
    } else {
        let (t1, s1, e1) = tick_physio(ReplayMode::StructuralBias, attrs, mem, t, s, e);
        assert(abs(t1 - t) <= step) by {
            if attrs.len() > 0 {
                lemma_dominant_in_max(attrs, attrs.len() as int);
                let b = attrs[dominant_idx(attrs)];
                let p = b.dt_pref as int;
                lemma_mul_abs_bound(p, b.strength as int, abs(p) as int, UNIT as int);
                lemma_trunc_div_multiple_bound(p * b.strength, UNIT as int, abs(p) as int);
                let q = trunc_div(p * b.strength, UNIT as int);
                crate::fixed::lemma_trunc_div_product_bound(
                    q,
                    DRIFT_FACTOR as int,
                    UNIT as int,
                    cap,
                    DRIFT_FACTOR as int,
                );
            }
        }
        let decayed_attrs = attrs.map_values(|b: BiasField| b.decayed());
        assert(all_wf(decayed_attrs) && forall|i: int|
            0 <= i < decayed_attrs.len() ==> abs(
                (#[trigger] decayed_attrs[i]).dt_pref as int,
            ) <= cap) by {
            assert forall|i: int| 0 <= i < decayed_attrs.len() implies (#[trigger] decayed_attrs[i]).wf()
                && abs(decayed_attrs[i].dt_pref as int) <= cap by {
                assert(decayed_attrs[i] == attrs[i].decayed());
                crate::bias::lemma_decayed_wf(attrs[i]);
            }
        }
        lemma_bias_replay_no_runaway(decayed_attrs, mem, t1, s1, e1, (k - 1) as nat, cap);
        assert(k as int * step == (k - 1) as int * step + step) by (nonlinear_arith)
            requires
                k >= 1,
        ;
    }
}

/// A structural-bias step is a bounded drift, not a runaway: in one tick
/// the tension moves by at most 0.05 of the dominant attractor's preferred
/// tension direction, scaled down further by its strength, and not at all
/// while the repertoire is empty.
pub proof fn lemma_structural_drift_bounded(attrs: Seq<BiasField>, t: int, s: int, e: int)
    requires
        all_wf(attrs),
        physio_wf(t, s, e),
    ensures
        attrs.len() == 0 ==> bias_stepped(attrs, t, s, e).0 == t,
        attrs.len() > 0 ==> abs(bias_stepped(attrs, t, s, e).0 - t) <= trunc_div(
            abs(attrs[dominant_idx(attrs)].dt_pref as int) as int * DRIFT_FACTOR,
            UNIT as int,
        ),
{
    if attrs.len() > 0 {
        lemma_dominant_in_max(attrs, attrs.len() as int);
        let b = attrs[dominant_idx(attrs)];
        let p = b.dt_pref as int;
        let q = trunc_div(p * b.strength, UNIT as int);
        lemma_mul_abs_bound(p, b.strength as int, abs(p) as int, UNIT as int);
        lemma_trunc_div_multiple_bound(p * b.strength, UNIT as int, abs(p) as int);
        crate::fixed::lemma_trunc_div_product_bound(
            q,
            DRIFT_FACTOR as int,
            UNIT as int,
            abs(p) as int,
            DRIFT_FACTOR as int,
        );
    }
}

} // verus!
