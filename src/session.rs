//! The interactive sampling session: a state machine that turns input events
//! into changes of the current velocity fraction, of the emphasised chart, and
//! into new samples in the log.

use vstd::prelude::*;
use crate::metrics::{consistent, lemma_time_fits_below, snapshot, snapshot_spec, DataPoint, MAX_FRACTION, STEP};
use crate::special::{
    lemma_contraction_at_most, lemma_lorentz_range, lorentz_spec, time_fits, UNIT,
};

verus! {

/// Which series the chart shows.
#[derive(Clone, Copy, Debug, PartialEq, Eq, Structural)]
pub enum ChartMode {
    All,
    TimeDilation,
    LengthContraction,
    LorentzFactor,
}

/// An input event of the interactive session.
#[derive(Clone, Copy, Debug, PartialEq, Eq, Structural)]
pub enum InputEvent {
    /// Raise the velocity fraction by one step.
    Increase,
    /// Lower the velocity fraction by one step.
    Decrease,
    /// Show the given series on the chart.
    Display(ChartMode),
    /// End the session.
    Stop,
}

/// The whole mutable state of an interactive run.
pub struct Session {
    pub velocity_fraction: u64,
    pub chart_mode: ChartMode,
    pub proper_time: u64,
    pub proper_length: u64,
    pub log: Vec<DataPoint>,
    pub running: bool,
}

/// The velocity fraction after `event`, clamped to `[0, MAX_FRACTION]`.
pub open spec fn next_fraction(v: u64, event: InputEvent) -> u64 {
    match event {
        InputEvent::Increase => if v + STEP <= MAX_FRACTION {
            (v + STEP) as u64
        } else {
            MAX_FRACTION
        },
        InputEvent::Decrease => if v >= STEP {
            (v - STEP) as u64
        } else {
            0
        },
        _ => v,
    }
}

/// Whether `event` changes the velocity fraction, and so takes a sample.
pub open spec fn samples_on(event: InputEvent) -> bool {
    event == InputEvent::Increase || event == InputEvent::Decrease
}

/// The chart mode after `event`.
pub open spec fn next_mode(mode: ChartMode, event: InputEvent) -> ChartMode {
    match event {
        InputEvent::Display(m) => m,
        _ => mode,
    }
}

impl Session {
    /// The session's invariant: the fraction stays in range, every sample of
    /// the log agrees with the formulas for the run's proper quantities, and
    /// the last sample was taken at the current fraction.
    pub open spec fn wf(&self) -> bool {
        &&& self.velocity_fraction <= MAX_FRACTION
        &&& time_fits(self.proper_time, MAX_FRACTION as int)
        &&& self.log.len() > 0
        &&& self.log@.last().velocity_fraction == self.velocity_fraction
        &&& forall|i: int|
            0 <= i < self.log.len() ==> {
                &&& self.log[i].velocity_fraction <= MAX_FRACTION
                &&& self.log[i] == snapshot_spec(
                    self.log[i].velocity_fraction,
                    self.proper_time,
                    self.proper_length,
                )
            }
    }

    /// Start a session at `initial`, with one sample taken there.
    pub fn new(initial: u64, proper_time: u64, proper_length: u64) -> (s: Session)
        requires
            initial <= MAX_FRACTION,
            time_fits(proper_time, MAX_FRACTION as int),
        ensures
            s.wf(),
            s.velocity_fraction == initial,
            s.chart_mode == ChartMode::All,
            s.proper_time == proper_time,
            s.proper_length == proper_length,
            s.log@ == seq![snapshot_spec(initial, proper_time, proper_length)],
            s.running,
    {
        proof {
            lemma_time_fits_below(proper_time, initial as nat, MAX_FRACTION as nat);
        }
        let mut log: Vec<DataPoint> = Vec::new();
        log.push(snapshot(initial, proper_time, proper_length));
        Session {
            velocity_fraction: initial,
            chart_mode: ChartMode::All,
            proper_time,
            proper_length,
            log,
            running: true,
        }
    }

    /// Apply one input event. A change of speed takes exactly one sample at
    /// the new fraction; a change of chart leaves the log alone; a stop ends
    /// the session. A session that has ended ignores every event. Returns
    /// whether the session goes on.
    pub fn step(&mut self, event: InputEvent) -> (running: bool)
        requires
            old(self).wf(),
        ensures
            final(self).wf(),
            !old(self).running ==> {
                &&& final(self).velocity_fraction == old(self).velocity_fraction
                &&& final(self).chart_mode == old(self).chart_mode
                &&& final(self).proper_time == old(self).proper_time
                &&& final(self).proper_length == old(self).proper_length
                &&& final(self).log@ == old(self).log@
                &&& !final(self).running
            },
            old(self).running ==> {
                &&& final(self).velocity_fraction == next_fraction(
                    old(self).velocity_fraction,
                    event,
                )
                &&& final(self).chart_mode == next_mode(old(self).chart_mode, event)
                &&& final(self).proper_time == old(self).proper_time
                &&& final(self).proper_length == old(self).proper_length
                &&& final(self).log@ == if samples_on(event) {
                    old(self).log@.push(
                        snapshot_spec(
                            final(self).velocity_fraction,
                            old(self).proper_time,
                            old(self).proper_length,
                        ),
                    )
                } else {
                    old(self).log@
                }
                &&& final(self).running == (event != InputEvent::Stop)
            },
            running == final(self).running,
    {
        if !self.running {
            return false;
        }
        match event {
            InputEvent::Increase => {
                self.velocity_fraction = if self.velocity_fraction + STEP <= MAX_FRACTION {
                    self.velocity_fraction + STEP
                } else {
                    MAX_FRACTION
                };
                self.record();
            },
            InputEvent::Decrease => {
                self.velocity_fraction = if self.velocity_fraction >= STEP {
                    self.velocity_fraction - STEP
                } else {
                    0
                };
                self.record();
            },
            InputEvent::Display(mode) => {
                self.chart_mode = mode;
            },
            InputEvent::Stop => {
                self.running = false;
            },
        }
        self.running
    }

    /// Append the sample at the current fraction: the one place where the
    /// log grows.
    fn record(&mut self)
        requires
            old(self).velocity_fraction <= MAX_FRACTION,
            time_fits(old(self).proper_time, MAX_FRACTION as int),
            forall|i: int|
                0 <= i < old(self).log.len() ==> {
                    &&& old(self).log[i].velocity_fraction <= MAX_FRACTION
                    &&& old(self).log[i] == snapshot_spec(
                        old(self).log[i].velocity_fraction,
                        old(self).proper_time,
                        old(self).proper_length,
                    )
                },
        ensures
            final(self).wf(),
            final(self).velocity_fraction == old(self).velocity_fraction,
            final(self).chart_mode == old(self).chart_mode,
            final(self).proper_time == old(self).proper_time,
            final(self).proper_length == old(self).proper_length,
            final(self).running == old(self).running,
            final(self).log@ == old(self).log@.push(
                snapshot_spec(
                    old(self).velocity_fraction,
                    old(self).proper_time,
                    old(self).proper_length,
                ),
            ),
    {
        proof {
            lemma_time_fits_below(
                self.proper_time,
                self.velocity_fraction as nat,
                MAX_FRACTION as nat,
            );
        }
        let p = snapshot(self.velocity_fraction, self.proper_time, self.proper_length);
        self.log.push(p);
    }
}

/// Every sample that a well-formed session has logged agrees with the
/// formulas for the run's proper quantities.
pub proof fn law_log_consistent(s: &Session)
    requires
        s.wf(),
    ensures
        forall|i: int|
            0 <= i < s.log.len() ==> {
                &&& consistent(#[trigger] s.log[i])
                &&& s.log[i].proper_time == s.proper_time
                &&& s.log[i].proper_length == s.proper_length
            },
{
    assert forall|i: int| 0 <= i < s.log.len() implies {
        &&& consistent(#[trigger] s.log[i])
        &&& s.log[i].proper_time == s.proper_time
        &&& s.log[i].proper_length == s.proper_length
    } by {
        let v = s.log[i].velocity_fraction;
        lemma_lorentz_range(v as int);
        lemma_time_fits_below(s.proper_time, v as nat, MAX_FRACTION as nat);
        lemma_contraction_at_most(s.proper_length as nat, lorentz_spec(v as int));
    }
}

/// The largest value of the series that `mode` shows in one sample.
pub open spec fn sample_peak(p: DataPoint, mode: ChartMode) -> u64 {
    match mode {
        ChartMode::All => {
            let a = if p.gamma >= p.dilated_time {
                p.gamma
            } else {
                p.dilated_time
            };
            if a >= p.contracted_length {
                a
            } else {
                p.contracted_length
            }
        },
        ChartMode::TimeDilation => p.dilated_time,
        ChartMode::LengthContraction => p.contracted_length,
        ChartMode::LorentzFactor => p.gamma,
    }
}

/// The top of the chart's value axis: the largest value shown, and at
/// least one.
pub open spec fn peak_spec(log: Seq<DataPoint>, mode: ChartMode) -> u64
    decreases log.len(),
{
    if log.len() == 0 {
        UNIT
    } else {
        let rest = peak_spec(log.drop_last(), mode);
        let here = sample_peak(log.last(), mode);
        if here > rest {
            here
        } else {
            rest
        }
    }
}

/// The top of the chart's value axis for the series that `mode` shows.
pub fn chart_peak(log: &Vec<DataPoint>, mode: ChartMode) -> (peak: u64)
    ensures
        peak == peak_spec(log@, mode),
        peak >= UNIT,
        forall|i: int| 0 <= i < log.len() ==> sample_peak(#[trigger] log[i], mode) <= peak,
{
    let mut peak: u64 = UNIT;
    let mut i: usize = 0;
    while i < log.len()
        invariant
            i <= log.len(),
            peak == peak_spec(log@.take(i as int), mode),
            peak >= UNIT,
            forall|k: int| 0 <= k < i ==> sample_peak(#[trigger] log[k], mode) <= peak,
        decreases log.len() - i,
    {
        let p = log[i];
        assert(log@.take(i + 1).drop_last() =~= log@.take(i as int));
        let here: u64 = match mode {
            ChartMode::All => {
                let a = if p.gamma >= p.dilated_time {
                    p.gamma
                } else {
                    p.dilated_time
                };
                if a >= p.contracted_length {
                    a
                } else {
                    p.contracted_length
                }
            },
            ChartMode::TimeDilation => p.dilated_time,
            ChartMode::LengthContraction => p.contracted_length,
            ChartMode::LorentzFactor => p.gamma,
        };
        if here > peak {
            peak = here;
        }
        i = i + 1;
    }
    assert(log@.take(log.len() as int) =~= log@);
    peak
}

} // verus!
