use qsis::metrics::{scripted, snapshot, sweep, DataPoint, MAX_FRACTION, SWEEP_STEPS};
use qsis::session::{chart_peak, ChartMode, InputEvent, Session};
use qsis::special::{length_contraction, lorentz_factor, time_dilation, UNIT};

const PROPER_TIME: u64 = 10 * UNIT;
const PROPER_LENGTH: u64 = 100 * UNIT;

fn agrees_with_formulas(p: &DataPoint) -> bool {
    p.gamma == lorentz_factor(p.velocity_fraction as i64)
        && p.dilated_time == time_dilation(p.proper_time, p.gamma)
        && p.contracted_length == length_contraction(p.proper_length, p.velocity_fraction as i64)
        && p.contracted_length as u128 == (p.proper_length as u128) * (UNIT as u128) / (p.gamma as u128)
        && p.dilated_time as u128 == (p.proper_time as u128) * (p.gamma as u128) / (UNIT as u128)
        && p.dilated_time >= p.proper_time
        && p.contracted_length <= p.proper_length
}

#[test]
fn every_sample_agrees_with_the_formulas() {
    for p in sweep(PROPER_TIME, PROPER_LENGTH).iter() {
        assert!(agrees_with_formulas(p));
    }
    for p in scripted(&vec![0, 1, 4_999, 9_999], 3, 5).iter() {
        assert!(agrees_with_formulas(p));
    }
}

#[test]
fn snapshot_at_six_tenths() {
    let p = snapshot(6_000, PROPER_TIME, PROPER_LENGTH);
    assert_eq!(
        p,
        DataPoint {
            velocity_fraction: 6_000,
            gamma: 1_250_000,
            proper_time: PROPER_TIME,
            dilated_time: 12_500_000,
            proper_length: PROPER_LENGTH,
            contracted_length: 80_000_000,
        }
    );
}

#[test]
fn sweep_gives_a_hundred_increasing_samples() {
    let log = sweep(PROPER_TIME, PROPER_LENGTH);
    assert_eq!(log.len(), 100);
    assert_eq!(log.len() as u64, SWEEP_STEPS);
    assert_eq!(log[0].velocity_fraction, 0);
    assert_eq!(log[0].gamma, UNIT);
    assert_eq!(log[99].velocity_fraction, MAX_FRACTION);
    for i in 1..log.len() {
        assert_eq!(log[i].velocity_fraction, log[i - 1].velocity_fraction + 100);
        assert!(log[i].gamma > log[i - 1].gamma);
    }
}

#[test]
fn scripted_skips_out_of_range_fractions() {
    let log = scripted(&vec![3_000, 15_000, -2_000, 9_000], PROPER_TIME, PROPER_LENGTH);
    assert_eq!(log.len(), 2);
    assert_eq!(log[0], snapshot(3_000, PROPER_TIME, PROPER_LENGTH));
    assert_eq!(log[1], snapshot(9_000, PROPER_TIME, PROPER_LENGTH));
}

#[test]
fn scripted_edges() {
    assert!(scripted(&vec![], PROPER_TIME, PROPER_LENGTH).is_empty());
    let log = scripted(&vec![10_000, 9_999, 0, -1, 9_999], PROPER_TIME, PROPER_LENGTH);
    let fractions: Vec<u64> = log.iter().map(|p| p.velocity_fraction).collect();
    assert_eq!(fractions, vec![9_999, 0, 9_999]);
}

#[test]
fn interactive_five_up_two_down() {
    let mut s = Session::new(0, PROPER_TIME, PROPER_LENGTH);
    for _ in 0..5 {
        assert!(s.step(InputEvent::Increase));
    }
    for _ in 0..2 {
        assert!(s.step(InputEvent::Decrease));
    }
    assert_eq!(s.velocity_fraction, 300);
    assert_eq!(s.log.len(), 8);
    let fractions: Vec<u64> = s.log.iter().map(|p| p.velocity_fraction).collect();
    assert_eq!(fractions, vec![0, 100, 200, 300, 400, 500, 400, 300]);
}

#[test]
fn interactive_clamps_at_both_ends() {
    let mut s = Session::new(0, PROPER_TIME, PROPER_LENGTH);
    s.step(InputEvent::Decrease);
    assert_eq!(s.velocity_fraction, 0);
    assert_eq!(s.log.len(), 2);
    let mut top = Session::new(MAX_FRACTION, PROPER_TIME, PROPER_LENGTH);
    top.step(InputEvent::Increase);
    assert_eq!(top.velocity_fraction, MAX_FRACTION);
    assert_eq!(top.log.len(), 2);
    assert_eq!(top.log[1], snapshot(MAX_FRACTION, PROPER_TIME, PROPER_LENGTH));
}

#[test]
fn display_switch_and_stop() {
    let mut s = Session::new(2_500, PROPER_TIME, PROPER_LENGTH);
    assert_eq!(s.chart_mode, ChartMode::All);
    assert!(s.step(InputEvent::Display(ChartMode::LengthContraction)));
    assert_eq!(s.chart_mode, ChartMode::LengthContraction);
    assert_eq!(s.log.len(), 1);
    assert_eq!(s.velocity_fraction, 2_500);
    assert!(!s.step(InputEvent::Stop));
    assert!(!s.running);
    assert_eq!(s.log.len(), 1);
}

#[test]
fn chart_peaks() {
    assert_eq!(chart_peak(&vec![], ChartMode::All), UNIT);
    let log = vec![
        snapshot(0, PROPER_TIME, PROPER_LENGTH),
        snapshot(6_000, PROPER_TIME, PROPER_LENGTH),
    ];
    assert_eq!(chart_peak(&log, ChartMode::All), 100 * UNIT);
    assert_eq!(chart_peak(&log, ChartMode::TimeDilation), 12_500_000);
    assert_eq!(chart_peak(&log, ChartMode::LengthContraction), 100 * UNIT);
    assert_eq!(chart_peak(&log, ChartMode::LorentzFactor), 1_250_000);
    let small = vec![snapshot(0, 1, 1)];
    assert_eq!(chart_peak(&small, ChartMode::LengthContraction), UNIT);
}

#[test]
fn session_samples_agree_with_the_formulas() {
    let mut s = Session::new(9_700, 3, 5);
    for e in [InputEvent::Increase, InputEvent::Increase, InputEvent::Increase, InputEvent::Decrease] {
        s.step(e);
    }
    assert_eq!(s.velocity_fraction, 9_800);
    for p in s.log.iter() {
        assert!(agrees_with_formulas(p));
        assert_eq!(p.proper_time, 3);
        assert_eq!(p.proper_length, 5);
    }
}

#[test]
fn sweep_at_ninety_nine_hundredths() {
    let log = sweep(PROPER_TIME, PROPER_LENGTH);
    assert_eq!(log[99].gamma, 7_088_812);
    assert_eq!(log[99].dilated_time, 70_888_120);
    assert_eq!(log[99].contracted_length, 14_106_736);
}

#[test]
fn stopped_session_ignores_events() {
    let mut s = Session::new(0, PROPER_TIME, PROPER_LENGTH);
    assert!(!s.step(InputEvent::Stop));
    assert!(!s.step(InputEvent::Increase));
    assert!(!s.step(InputEvent::Display(ChartMode::LorentzFactor)));
    assert_eq!(s.velocity_fraction, 0);
    assert_eq!(s.log.len(), 1);
    assert_eq!(s.chart_mode, ChartMode::All);
    assert!(!s.running);
}
