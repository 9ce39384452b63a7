//! Samples of the kinematics at a velocity fraction, and the non-interactive
//! drivers that produce a log of them.
//!
//! Both drivers produce their samples eagerly and end: they do not wait for a
//! stop signal.

use vstd::prelude::*;
use crate::special::{
    contraction_spec, dilation_spec, law_at_rest, law_lorentz_hundredth_step,
    law_lorentz_increasing, lemma_contraction_at_most, lemma_dilation_monotone,
    lemma_lorentz_range, length_contraction, lorentz_factor, lorentz_spec, time_dilation,
    time_fits, C, UNIT,
};

verus! {

/// The step between two velocity fractions of a sweep or an interactive
/// change: one hundredth of the speed of light.
pub const STEP: u64 = 100;

/// The highest velocity fraction a sweep or an interactive session reaches:
/// 0.99 c.
pub const MAX_FRACTION: u64 = 9_900;

/// The number of samples of a sweep: from 0 to `MAX_FRACTION` by `STEP`.
pub const SWEEP_STEPS: u64 = 100;

/// One observation of the kinematics at a velocity fraction, every quantity
/// in the fixed point of [`crate::special`].
#[derive(Clone, Copy, Debug, PartialEq, Eq)]
pub struct DataPoint {
    pub velocity_fraction: u64,
    pub gamma: u64,
    pub proper_time: u64,
    pub dilated_time: u64,
    pub proper_length: u64,
    pub contracted_length: u64,
}

/// The sample taken at speed `v` for the given proper time and length.
pub open spec fn snapshot_spec(v: u64, proper_time: u64, proper_length: u64) -> DataPoint {
    DataPoint {
        velocity_fraction: v,
        gamma: lorentz_spec(v as int) as u64,
        proper_time,
        dilated_time: dilation_spec(proper_time as nat, lorentz_spec(v as int)) as u64,
        proper_length,
        contracted_length: contraction_spec(proper_length as nat, lorentz_spec(v as int)) as u64,
    }
}

/// A sample whose recorded quantities agree with the formulas at its speed:
/// its factor is the Lorentz factor there, its dilated time is the proper
/// time times that factor and its contracted length the proper length divided
/// by it.
pub open spec fn consistent(p: DataPoint) -> bool {
    &&& p.velocity_fraction < C
    &&& p.gamma == lorentz_spec(p.velocity_fraction as int)
    &&& p.dilated_time == dilation_spec(p.proper_time as nat, p.gamma as nat)
    &&& p.contracted_length == contraction_spec(p.proper_length as nat, p.gamma as nat)
}

/// A time that fits when dilated at a speed fits at every lower speed.
pub proof fn lemma_time_fits_below(proper_time: u64, v1: nat, v2: nat)
    requires
        v1 <= v2 < C,
        time_fits(proper_time, v2 as int),
    ensures
        time_fits(proper_time, v1 as int),
{
    if v1 < v2 {
        law_lorentz_increasing(v1, v2);
        lemma_dilation_monotone(
            proper_time as nat,
            lorentz_spec(v1 as int),
            lorentz_spec(v2 as int),
        );
    }
}

/// Record the kinematics at velocity fraction `v`. The dilated time must fit
/// in 64 bits.
pub fn snapshot(v: u64, proper_time: u64, proper_length: u64) -> (p: DataPoint)
    requires
        v < C,
        time_fits(proper_time, v as int),
    ensures
        p == snapshot_spec(v, proper_time, proper_length),
        consistent(p),
{
    let gamma = lorentz_factor(v as i64);
    let dilated_time = time_dilation(proper_time, gamma);
    let contracted_length = length_contraction(proper_length, v as i64);
    DataPoint {
        velocity_fraction: v,
        gamma,
        proper_time,
        dilated_time,
        proper_length,
        contracted_length,
    }
}

/// Every consistent sample records `dilated_time == proper_time * gamma` and
/// `contracted_length == proper_length / gamma` for its own factor, and so
/// holds a factor of at least one, a dilated time no shorter than the proper
/// time and a contracted length no longer than the proper length.
pub proof fn law_sample_consistent(p: DataPoint)
    requires
        consistent(p),
    ensures
        p.gamma == lorentz_spec(p.velocity_fraction as int),
        p.dilated_time == p.proper_time * p.gamma / (UNIT as int),
        p.contracted_length == p.proper_length * UNIT / (p.gamma as int),
        p.gamma >= UNIT,
        p.dilated_time >= p.proper_time,
        p.contracted_length <= p.proper_length,
{
    lemma_lorentz_range(p.velocity_fraction as int);
    law_at_rest(p.proper_time as nat, p.proper_length as nat);
    lemma_dilation_monotone(p.proper_time as nat, UNIT as nat, p.gamma as nat);
    lemma_contraction_at_most(p.proper_length as nat, p.gamma as nat);
}

/// The samples of a sweep: velocity fractions `0, STEP, 2 STEP, ...`.
/// The proper time must be one whose dilation at `MAX_FRACTION` fits in 64
/// bits.
pub fn sweep(proper_time: u64, proper_length: u64) -> (log: Vec<DataPoint>)
    requires
        time_fits(proper_time, MAX_FRACTION as int),
    ensures
        log.len() == SWEEP_STEPS,
        forall|i: int|
            0 <= i < log.len() ==> log[i] == snapshot_spec(
                (i * STEP) as u64,
                proper_time,
                proper_length,
            ),
        forall|i: int, j: int| 0 <= i < j < log.len() ==> log[i].gamma < log[j].gamma,
        forall|i: int| 0 <= i < log.len() ==> consistent(#[trigger] log[i]),
{
    let mut log: Vec<DataPoint> = Vec::new();
    let mut i: u64 = 0;
    while i < SWEEP_STEPS
        invariant
            i <= SWEEP_STEPS,
            time_fits(proper_time, MAX_FRACTION as int),
            log.len() == i,
            forall|k: int|
                0 <= k < log.len() ==> log[k] == snapshot_spec(
                    (k * STEP) as u64,
                    proper_time,
                    proper_length,
                ),
            forall|k: int| 0 <= k < log.len() ==> consistent(#[trigger] log[k]),
        decreases SWEEP_STEPS - i,
    {
        proof {
            lemma_time_fits_below(proper_time, (i * STEP) as nat, MAX_FRACTION as nat);
        }
        let p = snapshot(i * STEP, proper_time, proper_length);
        log.push(p);
        i = i + 1;
    }
    assert forall|a: int, b: int| 0 <= a < b < log.len() implies log[a].gamma < log[b].gamma by {
        let next = ((a + 1) * STEP) as nat;
        law_lorentz_hundredth_step((a * STEP) as nat);
        if a + 1 < b {
            law_lorentz_increasing(next, (b * STEP) as nat);
        }
        lemma_lorentz_range((a * STEP) as int);
        lemma_lorentz_range((b * STEP) as int);
    }
    log
}

/// A velocity fraction that a sample can be taken at: within `[0, c)`.
pub open spec fn in_range(f: i64) -> bool {
    0 <= f < C
}

/// The fractions of `s` that are in range, in their order.
pub open spec fn accepted(s: Seq<i64>) -> Seq<i64> {
    s.filter(|f: i64| in_range(f))
}

/// The samples taken at each of the fractions `s`, in their order.
pub open spec fn samples_of(s: Seq<i64>, proper_time: u64, proper_length: u64) -> Seq<DataPoint> {
    s.map_values(|f: i64| snapshot_spec(f as u64, proper_time, proper_length))
}

/// The samples of a scripted run: one for each given fraction within
/// `[0, c)`, in the order given; the others are skipped. The time dilated at
/// each of those fractions must fit in 64 bits.
pub fn scripted(fractions: &Vec<i64>, proper_time: u64, proper_length: u64) -> (log: Vec<DataPoint>)
    requires
        forall|i: int|
            0 <= i < fractions.len() && in_range(#[trigger] fractions[i]) ==> time_fits(
                proper_time,
                fractions[i] as int,
            ),
    ensures
        log@ == samples_of(accepted(fractions@), proper_time, proper_length),
        forall|i: int| 0 <= i < log.len() ==> consistent(#[trigger] log[i]),
{
    let mut log: Vec<DataPoint> = Vec::new();
    let mut i: usize = 0;
    while i < fractions.len()
        invariant
            i <= fractions.len(),
            forall|k: int|
                0 <= k < fractions.len() && in_range(#[trigger] fractions[k]) ==> time_fits(
                    proper_time,
                    fractions[k] as int,
                ),
            log@ == samples_of(accepted(fractions@.take(i as int)), proper_time, proper_length),
            forall|k: int| 0 <= k < log.len() ==> consistent(#[trigger] log[k]),
        decreases fractions.len() - i,
    {
        let f = fractions[i];
        let ghost before = fractions@.take(i as int);
        assert(fractions@.take(i + 1).drop_last() =~= before);
        assert(fractions@.take(i + 1).last() == f);
        reveal(Seq::filter);
        if 0 <= f && f < C as i64 {
            let p = snapshot(f as u64, proper_time, proper_length);
            log.push(p);
            assert(samples_of(accepted(before).push(f), proper_time, proper_length) =~= samples_of(
                accepted(before),
                proper_time,
                proper_length,
            ).push(p));
        }
        i = i + 1;
    }
    assert(fractions@.take(fractions.len() as int) =~= fractions@);
    log
}

} // verus!
