//! Directional memory: bias attractors and the repertoire that owns them.
//!
//! A `BiasField` remembers a preferred direction of physiological change
//! together with a strength (how deep that basin is). A `BiasRepertoire`
//! keeps a small ordered collection of attractors: a new experience either
//! reinforces the best-matching attractor or spawns a new one, and
//! near-duplicate attractors are merged on every recording.

use vstd::prelude::*;

verus! {

use vstd::math::abs;
use crate::fixed::FACTOR_MAX;
use crate::fixed::UNIT;
use crate::fixed::clamp_spec;
use crate::fixed::clamp64;
use crate::fixed::div_trunc;
use crate::fixed::lemma_mul_abs_bound;
use crate::fixed::lemma_trunc_div_bounds;
use crate::fixed::lemma_trunc_div_multiple_bound;
use crate::fixed::mul_div;
use crate::fixed::trunc_div;

/// Widest representable direction component; one hundred full units,
/// unreachable by realistic reinforcement but a hard bound for the
/// fixed-point representation.
pub const PREF_MAX: i64 = 1_000_000;

/// Strength gained by one reinforcement (0.05).
pub const REINFORCE_STEP: i64 = 500;

/// A reinforcement moves the preferred direction a tenth of the way
/// toward the observed direction.
pub const REINFORCE_DIV: i64 = 10;

/// Per-tick strength retention (0.995 of `UNIT`).
pub const DECAY_FACTOR: i64 = 9_950;

/// A new experience whose best similarity score is below this reinforces
/// that attractor; otherwise it spawns a new one (0.2).
pub const MATCH_THRESHOLD: i64 = 2_000;

/// Two attractors whose directions lie closer than this are merged (0.05).
pub const MERGE_THRESHOLD: i64 = 500;

/// A directional memory unit: the exponentially-reinforced direction of
/// physiological change, and a saturating strength in `[0, UNIT]`.
#[derive(Clone, Copy, Debug, PartialEq, Eq, Structural)]
pub struct BiasField {
    pub dt_pref: i64,
    pub ds_pref: i64,
    pub de_pref: i64,
    pub strength: i64,
}

impl BiasField {
    /// Strength stays in `[0, UNIT]` and every direction component in
    /// `[-PREF_MAX, PREF_MAX]`.
    pub open spec fn wf(self) -> bool {
        &&& 0 <= self.strength <= UNIT
        &&& abs(self.dt_pref as int) <= PREF_MAX
        &&& abs(self.ds_pref as int) <= PREF_MAX
        &&& abs(self.de_pref as int) <= PREF_MAX
    }

    /// L1 distance between this attractor's direction and a candidate
    /// direction; lower is more similar.
    pub open spec fn similarity_spec(self, dt: int, ds: int, de: int) -> int {
        abs(self.dt_pref - dt) + abs(self.ds_pref - ds) + abs(self.de_pref - de) as int
    }

    /// L1 distance between two attractors' directions.
    pub open spec fn distance_spec(self, other: BiasField) -> int {
        self.similarity_spec(other.dt_pref as int, other.ds_pref as int, other.de_pref as int)
    }

    /// The attractor after one reinforcement: the direction moves a tenth
    /// of the way toward the observed one, the strength grows by a fixed
    /// step, both clamped to their representable ranges.
    pub open spec fn reinforced(self, dt: int, ds: int, de: int) -> BiasField {
        BiasField {
            dt_pref: clamp_spec(
                self.dt_pref + trunc_div(dt, REINFORCE_DIV as int),
                -PREF_MAX as int,
                PREF_MAX as int,
            ) as i64,
            ds_pref: clamp_spec(
                self.ds_pref + trunc_div(ds, REINFORCE_DIV as int),
                -PREF_MAX as int,
                PREF_MAX as int,
            ) as i64,
            de_pref: clamp_spec(
                self.de_pref + trunc_div(de, REINFORCE_DIV as int),
                -PREF_MAX as int,
                PREF_MAX as int,
            ) as i64,
            strength: clamp_spec(self.strength + REINFORCE_STEP, 0, UNIT as int) as i64,
        }
    }

    /// The attractor after one tick of slow forgetting: strength at 0.995
    /// of its former value, direction untouched.
    pub open spec fn decayed(self) -> BiasField {
        BiasField {
            strength: trunc_div(self.strength * DECAY_FACTOR, UNIT as int) as i64,
            ..self
        }
    }

    /// The result of merging `other` into `self`: the direction becomes the
    /// strength-weighted average of the two (unchanged if both strengths
    /// are zero), and the strength the clamped sum of both, so that merging
    /// deepens the basin rather than averaging it.
    pub open spec fn merged(self, other: BiasField) -> BiasField {
        let total = self.strength + other.strength;
        let (dtp, dsp, dep) = if total > 0 {
            (
                trunc_div(
                    self.dt_pref * self.strength + other.dt_pref * other.strength,
                    total,
                ),
                trunc_div(
                    self.ds_pref * self.strength + other.ds_pref * other.strength,
                    total,
                ),
                trunc_div(
                    self.de_pref * self.strength + other.de_pref * other.strength,
                    total,
                ),
            )
        } else {
            (self.dt_pref as int, self.ds_pref as int, self.de_pref as int)
        };
        BiasField {
            dt_pref: dtp as i64,
            ds_pref: dsp as i64,
            de_pref: dep as i64,
            strength: clamp_spec(total, 0, UNIT as int) as i64,
        }
    }

    /// A fresh attractor, with no direction and no strength.
    pub fn new() -> (b: BiasField)
        ensures
            b == (BiasField { dt_pref: 0, ds_pref: 0, de_pref: 0, strength: 0 }),
            b.wf(),
    {
        BiasField { dt_pref: 0, ds_pref: 0, de_pref: 0, strength: 0 }
    }

    /// How well this attractor matches an observed direction of change;
    /// lower is more similar.
    pub fn similarity(&self, dt: i64, ds: i64, de: i64) -> (r: i64)
        requires
            self.wf(),
            abs(dt as int) <= FACTOR_MAX,
            abs(ds as int) <= FACTOR_MAX,
            abs(de as int) <= FACTOR_MAX,
        ensures
            r == self.similarity_spec(dt as int, ds as int, de as int),
            r >= 0,
    {
        let a: i64 = if self.dt_pref >= dt {
            self.dt_pref - dt
        } else {
            dt - self.dt_pref
        };
        let b: i64 = if self.ds_pref >= ds {
            self.ds_pref - ds
        } else {
            ds - self.ds_pref
        };
        let c: i64 = if self.de_pref >= de {
            self.de_pref - de
        } else {
            de - self.de_pref
        };
        a + b + c
    }

    /// Structural distance between two attractors.
    pub fn distance(&self, other: &BiasField) -> (r: i64)
        requires
            self.wf(),
            other.wf(),
        ensures
            r == self.distance_spec(*other),
            r >= 0,
    {
        self.similarity(other.dt_pref, other.ds_pref, other.de_pref)
    }

    /// Reinforce this attractor with an observed direction of change.
    pub fn reinforce(&mut self, dt: i64, ds: i64, de: i64)
        requires
            old(self).wf(),
            abs(dt as int) <= FACTOR_MAX,
            abs(ds as int) <= FACTOR_MAX,
            abs(de as int) <= FACTOR_MAX,
        ensures
            *final(self) == old(self).reinforced(dt as int, ds as int, de as int),
            final(self).wf(),
    {
        proof {
            lemma_trunc_div_bounds(dt as int, REINFORCE_DIV as int);
            lemma_trunc_div_bounds(ds as int, REINFORCE_DIV as int);
            lemma_trunc_div_bounds(de as int, REINFORCE_DIV as int);
        }
        self.dt_pref = clamp64(self.dt_pref + div_trunc(dt, REINFORCE_DIV), -PREF_MAX, PREF_MAX);
        self.ds_pref = clamp64(self.ds_pref + div_trunc(ds, REINFORCE_DIV), -PREF_MAX, PREF_MAX);
        self.de_pref = clamp64(self.de_pref + div_trunc(de, REINFORCE_DIV), -PREF_MAX, PREF_MAX);
        self.strength = clamp64(self.strength + REINFORCE_STEP, 0, UNIT);
    }

    /// One tick of slow forgetting.
    pub fn decay(&mut self)
        requires
            old(self).wf(),
        ensures
            *final(self) == old(self).decayed(),
            final(self).wf(),
            final(self).strength <= old(self).strength,
    {
        proof {
            lemma_trunc_div_multiple_bound(
                self.strength * DECAY_FACTOR,
                UNIT as int,
                self.strength as int,
            );
            lemma_trunc_div_bounds(self.strength * DECAY_FACTOR, UNIT as int);
        }
        self.strength = mul_div(self.strength, DECAY_FACTOR, UNIT);
    }

    /// Merge another attractor into this one.
    pub fn merge(&mut self, other: &BiasField)
        requires
            old(self).wf(),
            other.wf(),
        ensures
            *final(self) == old(self).merged(*other),
            final(self).wf(),
            final(self).strength >= old(self).strength,
            final(self).strength >= other.strength,
    {
        proof {
            lemma_merged_wf(*self, *other);
        }
        let total: i64 = self.strength + other.strength;
        if total > 0 {
            proof {
                lemma_mul_abs_bound(self.dt_pref as int, self.strength as int, PREF_MAX as int, UNIT as int);
                lemma_mul_abs_bound(self.ds_pref as int, self.strength as int, PREF_MAX as int, UNIT as int);
                lemma_mul_abs_bound(self.de_pref as int, self.strength as int, PREF_MAX as int, UNIT as int);
                lemma_mul_abs_bound(other.dt_pref as int, other.strength as int, PREF_MAX as int, UNIT as int);
                lemma_mul_abs_bound(other.ds_pref as int, other.strength as int, PREF_MAX as int, UNIT as int);
                lemma_mul_abs_bound(other.de_pref as int, other.strength as int, PREF_MAX as int, UNIT as int);
            }
            self.dt_pref = div_trunc(
                self.dt_pref * self.strength + other.dt_pref * other.strength,
                total,
            );
            self.ds_pref = div_trunc(
                self.ds_pref * self.strength + other.ds_pref * other.strength,
                total,
            );
            self.de_pref = div_trunc(
                self.de_pref * self.strength + other.de_pref * other.strength,
                total,
            );
        }
        self.strength = clamp64(total, 0, UNIT);
    }
}

/// Merging two well-formed attractors yields a well-formed one whose
/// strength is no smaller than either side's: a merge deepens a basin.
pub proof fn lemma_merged_wf(a: BiasField, b: BiasField)
    requires
        a.wf(),
        b.wf(),
    ensures
        a.merged(b).wf(),
        a.merged(b).strength >= a.strength,
        a.merged(b).strength >= b.strength,
        a.merged(b).strength <= a.strength + b.strength,
{
    let total = a.strength + b.strength;
    if total > 0 {
        assert(abs(a.dt_pref * a.strength + b.dt_pref * b.strength) <= PREF_MAX * total)
            by (nonlinear_arith)
            requires
                abs(a.dt_pref as int) <= PREF_MAX,
                abs(b.dt_pref as int) <= PREF_MAX,
                a.strength >= 0,
                b.strength >= 0,
                total == a.strength + b.strength,
        ;
        assert(abs(a.ds_pref * a.strength + b.ds_pref * b.strength) <= PREF_MAX * total)
            by (nonlinear_arith)
            requires
                abs(a.ds_pref as int) <= PREF_MAX,
                abs(b.ds_pref as int) <= PREF_MAX,
                a.strength >= 0,
                b.strength >= 0,
                total == a.strength + b.strength,
        ;
        assert(abs(a.de_pref * a.strength + b.de_pref * b.strength) <= PREF_MAX * total)
            by (nonlinear_arith)
            requires
                abs(a.de_pref as int) <= PREF_MAX,
                abs(b.de_pref as int) <= PREF_MAX,
                a.strength >= 0,
                b.strength >= 0,
                total == a.strength + b.strength,
        ;
        lemma_trunc_div_multiple_bound(
            a.dt_pref * a.strength + b.dt_pref * b.strength,
            total as int,
            PREF_MAX as int,
        );
        lemma_trunc_div_multiple_bound(
            a.ds_pref * a.strength + b.ds_pref * b.strength,
            total as int,
            PREF_MAX as int,
        );
        lemma_trunc_div_multiple_bound(
            a.de_pref * a.strength + b.de_pref * b.strength,
            total as int,
            PREF_MAX as int,
        );
    }
}

/// Every attractor of the sequence is well-formed.
pub open spec fn all_wf(s: Seq<BiasField>) -> bool {
    forall|i: int| 0 <= i < s.len() ==> (#[trigger] s[i]).wf()
}

/// The attractor a single experience spawns: the zero attractor
/// reinforced once by the observed direction.
pub open spec fn fresh_from(dt: int, ds: int, de: int) -> BiasField {
    (BiasField { dt_pref: 0, ds_pref: 0, de_pref: 0, strength: 0 }).reinforced(dt, ds, de)
}

/// Index of the best-matching attractor among the first `n`: the one with
/// the lowest similarity score, the earliest on a tie.
pub open spec fn best_match_in(s: Seq<BiasField>, dt: int, ds: int, de: int, n: int) -> int
    decreases n,
{
    if n <= 1 {
        0
    } else {
        let prev = best_match_in(s, dt, ds, de, n - 1);
        if s[n - 1].similarity_spec(dt, ds, de) < s[prev].similarity_spec(dt, ds, de) {
            n - 1
        } else {
            prev
        }
    }
}

/// Index of the best-matching attractor of the whole sequence.
pub open spec fn best_match_idx(s: Seq<BiasField>, dt: int, ds: int, de: int) -> int
    recommends
        s.len() > 0,
{
    best_match_in(s, dt, ds, de, s.len() as int)
}

/// Index of the strongest attractor among the first `n`; the earliest on
/// a tie.
pub open spec fn dominant_in(s: Seq<BiasField>, n: int) -> int
    decreases n,
{
    if n <= 1 {
        0
    } else {
        let prev = dominant_in(s, n - 1);
        if s[n - 1].strength > s[prev].strength {
            n - 1
        } else {
            prev
        }
    }
}

/// Index of the strongest attractor of the whole sequence.
pub open spec fn dominant_idx(s: Seq<BiasField>) -> int
    recommends
        s.len() > 0,
{
    dominant_in(s, s.len() as int)
}

/// One consolidation pass of the attractor at the front: `rest` is scanned
/// left to right, each element closer to the running attractor `b` than
/// `MERGE_THRESHOLD` is merged into it, every other element is kept.
/// Returns the final attractor and the kept elements, in order.
pub open spec fn absorb(b: BiasField, kept: Seq<BiasField>, rest: Seq<BiasField>) -> (
    BiasField,
    Seq<BiasField>,
)
    decreases rest.len(),
{
    if rest.len() == 0 {
        (b, kept)
    } else if b.distance_spec(rest[0]) < MERGE_THRESHOLD {
        absorb(b.merged(rest[0]), kept, rest.drop_first())
    } else {
        absorb(b, kept.push(rest[0]), rest.drop_first())
    }
}

/// The sequence after one full consolidation pass: each attractor in turn
/// absorbs every near-duplicate that follows it.
pub open spec fn consolidated(s: Seq<BiasField>) -> Seq<BiasField>
    decreases s.len(),
    via consolidated_decreases
{
    if s.len() == 0 {
        s
    } else {
        let (b, rest) = absorb(s[0], Seq::empty(), s.drop_first());
        seq![b] + consolidated(rest)
    }
}

#[via_fn]
proof fn consolidated_decreases(s: Seq<BiasField>) {
    if s.len() > 0 {
        lemma_absorb_len(s[0], Seq::empty(), s.drop_first());
    }
}

/// The repertoire after recording one experience: the best-matching
/// attractor is reinforced if its similarity score is under
/// `MATCH_THRESHOLD`, otherwise a new attractor is spawned; then one
/// consolidation pass merges near-duplicates.
pub open spec fn recorded(s: Seq<BiasField>, dt: int, ds: int, de: int) -> Seq<BiasField> {
    let grown = if s.len() == 0 {
        seq![fresh_from(dt, ds, de)]
    } else {
        let i = best_match_idx(s, dt, ds, de);
        if s[i].similarity_spec(dt, ds, de) < MATCH_THRESHOLD {
            s.update(i, s[i].reinforced(dt, ds, de))
        } else {
            s.push(fresh_from(dt, ds, de))
        }
    };
    consolidated(grown)
}

/// Absorbing never returns more elements than it was given.
pub proof fn lemma_absorb_len(b: BiasField, kept: Seq<BiasField>, rest: Seq<BiasField>)
    ensures
        absorb(b, kept, rest).1.len() <= kept.len() + rest.len(),
    decreases rest.len(),
{
    if rest.len() == 0 {
    } else if b.distance_spec(rest[0]) < MERGE_THRESHOLD {
        lemma_absorb_len(b.merged(rest[0]), kept, rest.drop_first());
    } else {
        lemma_absorb_len(b, kept.push(rest[0]), rest.drop_first());
    }
}

/// Absorbing well-formed attractors yields well-formed attractors.
pub proof fn lemma_absorb_wf(b: BiasField, kept: Seq<BiasField>, rest: Seq<BiasField>)
    requires
        b.wf(),
        all_wf(kept),
        all_wf(rest),
    ensures
        absorb(b, kept, rest).0.wf(),
        all_wf(absorb(b, kept, rest).1),
    decreases rest.len(),
{
    if rest.len() == 0 {
    } else {
        assert(all_wf(rest.drop_first())) by {
            assert(forall|i: int|
                0 <= i < rest.drop_first().len() ==> rest.drop_first()[i] == rest[i + 1]);
        }
        if b.distance_spec(rest[0]) < MERGE_THRESHOLD {
            lemma_merged_wf(b, rest[0]);
            lemma_absorb_wf(b.merged(rest[0]), kept, rest.drop_first());
        } else {
            assert(all_wf(kept.push(rest[0]))) by {
                assert(forall|i: int|
                    0 <= i < kept.len() ==> kept.push(rest[0])[i] == kept[i]);
                assert(kept.push(rest[0])[kept.len() as int] == rest[0]);
            }
            lemma_absorb_wf(b, kept.push(rest[0]), rest.drop_first());
        }
    }
}

/// Consolidation preserves well-formedness of every attractor.
pub proof fn lemma_consolidated_wf(s: Seq<BiasField>)
    requires
        all_wf(s),
    ensures
        all_wf(consolidated(s)),
    decreases s.len(),
{
    if s.len() > 0 {
        assert(all_wf(s.drop_first())) by {
            assert(forall|i: int|
                0 <= i < s.drop_first().len() ==> s.drop_first()[i] == s[i + 1]);
        }
        let (b, rest) = absorb(s[0], Seq::empty(), s.drop_first());
        lemma_absorb_wf(s[0], Seq::empty(), s.drop_first());
        lemma_absorb_len(s[0], Seq::empty(), s.drop_first());
        lemma_consolidated_wf(rest);
        assert(all_wf(seq![b] + consolidated(rest))) by {
            let combined = seq![b] + consolidated(rest);
            assert(combined[0] == b);
            assert(forall|i: int|
                1 <= i < combined.len() ==> combined[i] == consolidated(rest)[i - 1]);
        }
    }
}

/// The best-match index lies inside the prefix it was chosen from.
pub proof fn lemma_best_match_in_range(s: Seq<BiasField>, dt: int, ds: int, de: int, n: int)
    requires
        n >= 1,
    ensures
        0 <= best_match_in(s, dt, ds, de, n) < n,
    decreases n,
{
    if n > 1 {
        lemma_best_match_in_range(s, dt, ds, de, n - 1);
    }
}

/// The dominant index lies inside the prefix it was chosen from, the
/// attractor there is at least as strong as every other one, and every
/// earlier attractor is strictly weaker: on a tie the earliest wins.
pub proof fn lemma_dominant_in_max(s: Seq<BiasField>, n: int)
    requires
        1 <= n <= s.len(),
    ensures
        0 <= dominant_in(s, n) < n,
        forall|i: int| 0 <= i < n ==> (#[trigger] s[i]).strength <= s[dominant_in(s, n)].strength,
        forall|i: int| 0 <= i < dominant_in(s, n) ==> (#[trigger] s[i]).strength < s[dominant_in(
            s,
            n,
        )].strength,
    decreases n,
{
    if n > 1 {
        lemma_dominant_in_max(s, n - 1);
    }
}

/// Recording an experience into a well-formed repertoire keeps every
/// attractor well-formed: in particular no strength ever exceeds `UNIT`,
/// however many times an experience is applied.
pub proof fn lemma_recorded_wf(s: Seq<BiasField>, dt: int, ds: int, de: int)
    requires
        all_wf(s),
    ensures
        all_wf(recorded(s, dt, ds, de)),
{
    let grown = if s.len() == 0 {
        seq![fresh_from(dt, ds, de)]
    } else {
        let i = best_match_idx(s, dt, ds, de);
        if s[i].similarity_spec(dt, ds, de) < MATCH_THRESHOLD {
            s.update(i, s[i].reinforced(dt, ds, de))
        } else {
            s.push(fresh_from(dt, ds, de))
        }
    };
    assert(all_wf(grown)) by {
        if s.len() == 0 {
            assert(grown[0] == fresh_from(dt, ds, de));
        } else {
            let i = best_match_idx(s, dt, ds, de);
            lemma_best_match_in_range(s, dt, ds, de, s.len() as int);
            if s[i].similarity_spec(dt, ds, de) < MATCH_THRESHOLD {
                assert(forall|k: int| 0 <= k < grown.len() && k != i ==> grown[k] == s[k]);
                assert(grown[i] == s[i].reinforced(dt, ds, de));
            } else {
                assert(forall|k: int| 0 <= k < s.len() ==> grown[k] == s[k]);
                assert(grown[s.len() as int] == fresh_from(dt, ds, de));
            }
        }
    }
    lemma_consolidated_wf(grown);
}

/// Absorbing keeps the kept prefix intact, never weakens the running
/// attractor, and accounts for every element of `rest`: each is either
/// kept verbatim after the prefix or absorbed into an attractor at least
/// as strong as itself.
pub proof fn lemma_absorb_keeps_peak(b: BiasField, kept: Seq<BiasField>, rest: Seq<BiasField>)
    requires
        b.wf(),
        all_wf(kept),
        all_wf(rest),
    ensures
        absorb(b, kept, rest).0.strength >= b.strength,
        absorb(b, kept, rest).1.len() >= kept.len(),
        forall|i: int| 0 <= i < kept.len() ==> absorb(b, kept, rest).1[i] == kept[i],
        forall|i: int|
            0 <= i < rest.len() ==> absorb(b, kept, rest).0.strength >= (#[trigger] rest[i]).strength
                || exists|j: int|
                kept.len() <= j < absorb(b, kept, rest).1.len() && absorb(b, kept, rest).1[j]
                    == rest[i],
    decreases rest.len(),
{
    if rest.len() == 0 {
    } else {
        assert(all_wf(rest.drop_first())) by {
            assert(forall|i: int|
                0 <= i < rest.drop_first().len() ==> rest.drop_first()[i] == rest[i + 1]);
        }
        let r = absorb(b, kept, rest);
        if b.distance_spec(rest[0]) < MERGE_THRESHOLD {
            lemma_merged_wf(b, rest[0]);
            lemma_absorb_keeps_peak(b.merged(rest[0]), kept, rest.drop_first());
            assert forall|i: int|
                0 <= i < rest.len() implies r.0.strength >= (#[trigger] rest[i]).strength
                || exists|j: int| kept.len() <= j < r.1.len() && r.1[j] == rest[i] by {
                if i == 0 {
                    assert(r.0.strength >= b.merged(rest[0]).strength);
                } else {
                    assert(rest.drop_first()[i - 1] == rest[i]);
                }
            }
        } else {
            assert(all_wf(kept.push(rest[0]))) by {
                assert(forall|i: int| 0 <= i < kept.len() ==> kept.push(rest[0])[i] == kept[i]);
                assert(kept.push(rest[0])[kept.len() as int] == rest[0]);
            }
            lemma_absorb_keeps_peak(b, kept.push(rest[0]), rest.drop_first());
            assert forall|i: int| 0 <= i < kept.len() implies r.1[i] == kept[i] by {
                assert(kept.push(rest[0])[i] == kept[i]);
                assert(r.1[i] == kept.push(rest[0])[i]);
            }
            assert forall|i: int|
                0 <= i < rest.len() implies r.0.strength >= (#[trigger] rest[i]).strength
                || exists|j: int| kept.len() <= j < r.1.len() && r.1[j] == rest[i] by {
                if i == 0 {
                    assert(kept.push(rest[0])[kept.len() as int] == rest[0]);
                    assert(r.1[kept.len() as int] == rest[0]);
                } else {
                    assert(rest.drop_first()[i - 1] == rest[i]);
                    if !(r.0.strength >= rest[i].strength) {
                        let j0 = choose|j0: int|
                            kept.push(rest[0]).len() <= j0 < r.1.len() && r.1[j0] == rest.drop_first()[i
                                - 1];
                        assert(kept.len() <= j0 < r.1.len() && r.1[j0] == rest[i]);
                    }
                }
            }
        }
    }
}

/// Consolidation never loses peak strength: for every attractor of the
/// input, the consolidated repertoire holds one at least as strong.
pub proof fn lemma_consolidated_keeps_peak(s: Seq<BiasField>, i: int)
    requires
        all_wf(s),
        0 <= i < s.len(),
    ensures
        consolidated(s).len() > 0,
        exists|j: int|
            0 <= j < consolidated(s).len() && (#[trigger] consolidated(s)[j]).strength
                >= s[i].strength,
    decreases s.len(),
{
    let tail = s.drop_first();
    assert(all_wf(tail)) by {
        assert(forall|k: int| 0 <= k < tail.len() ==> tail[k] == s[k + 1]);
    }
    let b = absorb(s[0], Seq::empty(), tail).0;
    let rest2 = absorb(s[0], Seq::empty(), tail).1;
    lemma_absorb_wf(s[0], Seq::empty(), tail);
    lemma_absorb_len(s[0], Seq::empty(), tail);
    lemma_absorb_keeps_peak(s[0], Seq::empty(), tail);
    let c = consolidated(s);
    assert(c == seq![b] + consolidated(rest2));
    assert(c[0] == b);
    if i == 0 {
        assert(c[0].strength >= s[0].strength);
    } else {
        assert(tail[i - 1] == s[i]);
        if b.strength >= s[i].strength {
            assert(c[0].strength >= s[i].strength);
        } else {
            let j2 = choose|j2: int| 0 <= j2 < rest2.len() && rest2[j2] == tail[i - 1];
            lemma_consolidated_keeps_peak(rest2, j2);
            let k = choose|k: int|
                0 <= k < consolidated(rest2).len() && (#[trigger] consolidated(rest2)[k]).strength
                    >= rest2[j2].strength;
            assert(c[k + 1] == consolidated(rest2)[k]);
            assert(c[k + 1].strength >= s[i].strength);
        }
    }
}

/// An experience that matches an existing attractor leaves the repertoire
/// with a dominant attractor at least one reinforcement step stronger
/// than the matched attractor was, saturating at `UNIT`: repetition of a
/// similar experience builds the dominant basin monotonically.
pub proof fn lemma_matching_experience_strengthens(
    s: Seq<BiasField>,
    dt: int,
    ds: int,
    de: int,
)
    requires
        all_wf(s),
        s.len() > 0,
        s[best_match_idx(s, dt, ds, de)].similarity_spec(dt, ds, de) < MATCH_THRESHOLD,
    ensures
        recorded(s, dt, ds, de).len() > 0,
        ({
            let r = recorded(s, dt, ds, de);
            let m = s[best_match_idx(s, dt, ds, de)];
            r[dominant_idx(r)].strength >= clamp_spec(m.strength + REINFORCE_STEP, 0, UNIT as int)
        }),
{
    let best = best_match_idx(s, dt, ds, de);
    lemma_best_match_in_range(s, dt, ds, de, s.len() as int);
    let m = s[best];
    let grown = s.update(best, m.reinforced(dt, ds, de));
    assert(all_wf(grown)) by {
        assert(forall|k: int| 0 <= k < grown.len() && k != best ==> grown[k] == s[k]);
        assert(grown[best] == m.reinforced(dt, ds, de));
    }
    assert(grown[best].strength == clamp_spec(m.strength + REINFORCE_STEP, 0, UNIT as int));
    lemma_consolidated_keeps_peak(grown, best);
    let r = recorded(s, dt, ds, de);
    assert(r == consolidated(grown));
    let j = choose|j: int|
        0 <= j < consolidated(grown).len() && (#[trigger] consolidated(grown)[j]).strength
            >= grown[best].strength;
    lemma_dominant_in_max(r, r.len() as int);
    assert(r[dominant_idx(r)].strength >= r[j].strength);
}

/// Reinforcement strictly increases an attractor's strength until the
/// strength is saturated at `UNIT`, and never pushes it above `UNIT`.
pub proof fn lemma_reinforce_strengthens(b: BiasField, dt: int, ds: int, de: int)
    requires
        b.wf(),
    ensures
        b.strength < UNIT ==> b.reinforced(dt, ds, de).strength > b.strength,
        b.strength == UNIT ==> b.reinforced(dt, ds, de).strength == UNIT,
        b.reinforced(dt, ds, de).strength <= UNIT,
{
}

/// One tick of forgetting keeps an attractor well-formed, never raises its
/// strength, and leaves its direction untouched.
pub proof fn lemma_decayed_wf(b: BiasField)
    requires
        b.wf(),
    ensures
        b.decayed().wf(),
        b.decayed().strength <= b.strength,
        b.decayed().dt_pref == b.dt_pref,
        b.decayed().ds_pref == b.ds_pref,
        b.decayed().de_pref == b.de_pref,
{
    lemma_trunc_div_multiple_bound(b.strength * DECAY_FACTOR, UNIT as int, b.strength as int);
    lemma_trunc_div_bounds(b.strength * DECAY_FACTOR, UNIT as int);
}

/// Asking for the dominant attractor of a repertoire that has none yet.
#[derive(Clone, Copy, Debug, PartialEq, Eq, Structural)]
pub struct EmptyRepertoireError;

/// An ordered collection of bias attractors, owned by one state field.
#[derive(Debug)]
pub struct BiasRepertoire {
    pub attractors: Vec<BiasField>,
}

impl BiasRepertoire {
    /// Every attractor held is well-formed.
    pub open spec fn wf(self) -> bool {
        all_wf(self.attractors@)
    }

    /// An empty repertoire.
    pub fn new() -> (r: BiasRepertoire)
        ensures
            r.attractors@ == Seq::<BiasField>::empty(),
            r.wf(),
    {
        BiasRepertoire { attractors: Vec::new() }
    }

    /// Index of the attractor most similar to the observed direction;
    /// the earliest on a tie.
    fn best_match(&self, dt: i64, ds: i64, de: i64) -> (best: usize)
        requires
            self.wf(),
            self.attractors@.len() >= 1,
            abs(dt as int) <= FACTOR_MAX,
            abs(ds as int) <= FACTOR_MAX,
            abs(de as int) <= FACTOR_MAX,
        ensures
            best == best_match_idx(self.attractors@, dt as int, ds as int, de as int),
            best < self.attractors@.len(),
    {
        let s = &self.attractors;
        let mut best: usize = 0;
        let mut best_score: i64 = s[0].similarity(dt, ds, de);
        let mut j: usize = 1;
        while j < s.len()
            invariant
                all_wf(s@),
                abs(dt as int) <= FACTOR_MAX,
                abs(ds as int) <= FACTOR_MAX,
                abs(de as int) <= FACTOR_MAX,
                1 <= j <= s@.len(),
                best == best_match_in(s@, dt as int, ds as int, de as int, j as int),
                0 <= best < j,
                best_score == s@[best as int].similarity_spec(dt as int, ds as int, de as int),
            decreases s@.len() - j,
        {
            let score: i64 = s[j].similarity(dt, ds, de);
            if score < best_score {
                best = j;
                best_score = score;
            }
            j = j + 1;
        }
        best
    }

    /// Feed one observed direction of physiological change into the
    /// repertoire: reinforce the best-matching attractor if it is close
    /// enough, spawn a new attractor otherwise, then merge near-duplicates.
    pub fn record_experience(&mut self, dt: i64, ds: i64, de: i64)
        requires
            old(self).wf(),
            abs(dt as int) <= FACTOR_MAX,
            abs(ds as int) <= FACTOR_MAX,
            abs(de as int) <= FACTOR_MAX,
        ensures
            final(self).attractors@ == recorded(
                old(self).attractors@,
                dt as int,
                ds as int,
                de as int,
            ),
            final(self).wf(),
    {
        proof {
            lemma_recorded_wf(self.attractors@, dt as int, ds as int, de as int);
        }
        if self.attractors.len() == 0 {
            let mut b = BiasField::new();
            b.reinforce(dt, ds, de);
            self.attractors.push(b);
            proof {
                assert(self.attractors@ =~= seq![
                    fresh_from(dt as int, ds as int, de as int),
                ]);
            }
        } else {
            let i = self.best_match(dt, ds, de);
            let score: i64 = self.attractors[i].similarity(dt, ds, de);
            if score < MATCH_THRESHOLD {
                let mut b = self.attractors[i];
                b.reinforce(dt, ds, de);
                self.attractors.set(i, b);
            } else {
                let mut b = BiasField::new();
                b.reinforce(dt, ds, de);
                self.attractors.push(b);
            }
        }
        proof {
            assert(all_wf(self.attractors@)) by {
                let old_s = old(self).attractors@;
                let s = self.attractors@;
                assert(forall|k: int|
                    0 <= k < s.len() && 0 <= k < old_s.len() && s[k] == old_s[k] ==> s[k].wf());
            }
        }
        self.consolidate();
    }

    /// One consolidation pass: walking the repertoire front to back, each
    /// attractor absorbs every later attractor whose direction lies within
    /// `MERGE_THRESHOLD` of its own.
    pub fn consolidate(&mut self)
        requires
            old(self).wf(),
        ensures
            final(self).attractors@ == consolidated(old(self).attractors@),
            final(self).wf(),
    {
        let ghost orig: Seq<BiasField> = self.attractors@;
        proof {
            lemma_consolidated_wf(orig);
        }
        let mut i: usize = 0;
        proof {
            assert(self.attractors@.take(0) =~= Seq::<BiasField>::empty());
            assert(self.attractors@.skip(0) =~= self.attractors@);
            assert(Seq::<BiasField>::empty() + consolidated(self.attractors@)
                =~= consolidated(self.attractors@));
        }
        while i < self.attractors.len()
            invariant
                all_wf(self.attractors@),
                i <= self.attractors@.len(),
                consolidated(orig) == self.attractors@.take(i as int) + consolidated(
                    self.attractors@.skip(i as int),
                ),
            decreases self.attractors@.len() - i,
        {
            let ghost snap: Seq<BiasField> = self.attractors@;
            let mut j: usize = i + 1;
            proof {
                assert(snap.subrange(i as int + 1, i as int + 1) =~= Seq::<BiasField>::empty());
                assert(snap.skip(i as int).drop_first() =~= snap.skip(i as int + 1));
            }
            while j < self.attractors.len()
                invariant
                    all_wf(self.attractors@),
                    i < j <= self.attractors@.len(),
                    self.attractors@.len() <= snap.len(),
                    self.attractors@.take(i as int) == snap.take(i as int),
                    absorb(snap[i as int], Seq::<BiasField>::empty(), snap.skip(i as int + 1))
                        == absorb(
                        self.attractors@[i as int],
                        self.attractors@.subrange(i as int + 1, j as int),
                        self.attractors@.skip(j as int),
                    ),
                decreases self.attractors@.len() - j,
            {
                let ghost cur: Seq<BiasField> = self.attractors@;
                let a: BiasField = self.attractors[i];
                let o: BiasField = self.attractors[j];
                if a.distance(&o) < MERGE_THRESHOLD {
                    let mut m = a;
                    m.merge(&o);
                    self.attractors.set(i, m);
                    let removed: BiasField = self.attractors.remove(j);
                    proof {
                        let now: Seq<BiasField> = self.attractors@;
                        assert(now.take(i as int) =~= cur.take(i as int));
                        assert(now.subrange(i as int + 1, j as int) =~= cur.subrange(
                            i as int + 1,
                            j as int,
                        ));
                        assert(now.skip(j as int) =~= cur.skip(j as int).drop_first());
                        assert(cur.skip(j as int)[0] == o);
                        assert(all_wf(now)) by {
                            assert(forall|k: int|
                                0 <= k < now.len() && k != i ==> now[k] == cur[k] || now[k]
                                    == cur[k + 1]);
                        }
                    }
                } else {
                    proof {
                        let cur2: Seq<BiasField> = self.attractors@;
                        assert(cur2.subrange(i as int + 1, j as int + 1) =~= cur2.subrange(
                            i as int + 1,
                            j as int,
                        ).push(o));
                        assert(cur2.skip(j as int).drop_first() =~= cur2.skip(j as int + 1));
                        assert(cur2.skip(j as int)[0] == o);
                    }
                    j = j + 1;
                }
            }
            proof {
                let done: Seq<BiasField> = self.attractors@;
                assert(done.skip(j as int) =~= Seq::<BiasField>::empty());
                assert(absorb(snap[i as int], Seq::<BiasField>::empty(), snap.skip(i as int + 1))
                    == (done[i as int], done.subrange(i as int + 1, done.len() as int)));
                assert(snap.skip(i as int)[0] == snap[i as int]);
                assert(snap.skip(i as int).drop_first() =~= snap.skip(i as int + 1));
                assert(consolidated(snap.skip(i as int)) == seq![done[i as int]] + consolidated(
                    done.subrange(i as int + 1, done.len() as int),
                ));
                assert(done.subrange(i as int + 1, done.len() as int) =~= done.skip(i as int + 1));
                assert(done.take(i as int) + seq![done[i as int]] =~= done.take(i as int + 1));
                assert(done.take(i as int) + (seq![done[i as int]] + consolidated(
                    done.skip(i as int + 1),
                )) =~= (done.take(i as int) + seq![done[i as int]]) + consolidated(
                    done.skip(i as int + 1),
                ));
            }
            i = i + 1;
        }
        proof {
            let fin: Seq<BiasField> = self.attractors@;
            assert(fin.skip(i as int) =~= Seq::<BiasField>::empty());
            assert(fin.take(i as int) =~= fin);
            assert(fin + consolidated(Seq::<BiasField>::empty()) =~= fin);
        }
    }

    /// Apply one tick of slow forgetting to every attractor.
    pub fn decay_all(&mut self)
        requires
            old(self).wf(),
        ensures
            final(self).attractors@ == old(self).attractors@.map_values(|b: BiasField| b.decayed()),
            final(self).wf(),
    {
        let ghost orig: Seq<BiasField> = self.attractors@;
        let mut k: usize = 0;
        while k < self.attractors.len()
            invariant
                all_wf(self.attractors@),
                k <= self.attractors@.len(),
                self.attractors@.len() == orig.len(),
                all_wf(orig),
                forall|m: int| 0 <= m < k ==> self.attractors@[m] == (#[trigger] orig[m]).decayed(),
                forall|m: int| k <= m < orig.len() ==> self.attractors@[m] == orig[m],
            decreases self.attractors@.len() - k,
        {
            let mut b: BiasField = self.attractors[k];
            b.decay();
            self.attractors.set(k, b);
            k = k + 1;
        }
        proof {
            assert(self.attractors@ =~= orig.map_values(|b: BiasField| b.decayed()));
        }
    }

    /// The strongest attractor, the earliest on a tie; an error while the
    /// repertoire is still empty.
    pub fn dominant(&self) -> (r: Result<BiasField, EmptyRepertoireError>)
        requires
            self.wf(),
        ensures
            r is Ok <==> self.attractors@.len() > 0,
            r matches Ok(b) ==> b == self.attractors@[dominant_idx(self.attractors@)],
    {
        if self.attractors.len() == 0 {
            return Err(EmptyRepertoireError);
        }
        let s = &self.attractors;
        let mut best: usize = 0;
        let mut j: usize = 1;
        while j < s.len()
            invariant
                1 <= j <= s@.len(),
                best == dominant_in(s@, j as int),
                0 <= best < j,
            decreases s@.len() - j,
        {
            if s[j].strength > s[best].strength {
                best = j;
            }
            j = j + 1;
        }
        Ok(s[best])
    }
}

} // verus!
