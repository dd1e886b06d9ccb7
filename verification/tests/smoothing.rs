//! The smoothing filter observed through the manager: convergence,
//! monotonicity, coefficient bounds, and sample-rate adaptation.

use vst_lab::parameter_manager::{Parameter, ParameterManager, ValueFormat};
use vst_lab::smoothing::ONE_Q30;

const ONE: i64 = ONE_Q30 as i64;

fn gain_manager_at(sr_hz: u64) -> ParameterManager {
    let decay_tenth: u64 = ONE_Q30 / 10;
    let p = Parameter::new("gain".to_string(), ValueFormat::TwoDecimals, decay_tenth);
    let mut m = ParameterManager::from_vec(vec![p]);
    m.set_sr(sr_hz * ONE_Q30);
    m
}

fn filtered_of(m: &ParameterManager) -> i64 {
    m.params[0].get_filtered()
}

#[test]
fn filtered_climbs_monotonically_and_never_overshoots() {
    let mut m = gain_manager_at(48000);
    m.set_parameter(0, ONE);
    let mut prev: i64 = filtered_of(&m);
    for _ in 0..200 {
        m.step_filter();
        let f = filtered_of(&m);
        assert!(f >= prev, "filtered must not move away from the target");
        assert!(f <= ONE, "filtered must never overshoot the target");
        prev = f;
    }
}

#[test]
fn alpha_stays_in_unit_range_even_at_clamped_cutoff() {
    // A zero decay time saturates the cutoff, which the step clamps
    // to the sample rate; one step from 0 toward 1 then lands exactly
    // on alpha = 1 - exp(-tau).
    let p = Parameter::new("snap".to_string(), ValueFormat::TwoDecimals, 0);
    let mut m = ParameterManager::from_vec(vec![p]);
    m.set_sr(48000 * ONE_Q30);
    m.set_parameter(0, ONE);
    m.step_filter();
    let f = filtered_of(&m);
    assert!(0 <= f && f <= ONE);
    assert_eq!(f, 1071736672);
    let expected = 1.0 - (-std::f64::consts::TAU).exp();
    assert!((f as f64 / ONE as f64 - expected).abs() < 1e-6);
}

#[test]
fn zero_additional_steps_leave_filtered_unchanged() {
    let mut m = gain_manager_at(48000);
    m.set_parameter(0, ONE);
    m.step_filter();
    let f1 = filtered_of(&m);
    let f2 = filtered_of(&m);
    let _ = m.get_parameter(0);
    let _ = m.get_parameter_text(0);
    let f3 = filtered_of(&m);
    assert_eq!(f1, f2);
    assert_eq!(f1, f3);
}

#[test]
fn gain_converges_within_a_second() {
    let mut m = gain_manager_at(48000);
    m.set_parameter(0, ONE);
    for _ in 0..48000 {
        m.step_filter();
    }
    let f = filtered_of(&m) as f64 / ONE as f64;
    assert!((f - 1.0).abs() < 1e-6, "filtered is {f}, expected within 1e-6 of 1.0");
}

#[test]
fn first_step_lands_on_alpha() {
    let mut m = gain_manager_at(48000);
    m.set_parameter(0, ONE);
    m.step_filter();
    let f = filtered_of(&m);
    assert_eq!(f, 1404604);
    let expected_alpha = 1.0 - (-std::f64::consts::TAU * 10.0 / 48000.0).exp();
    assert!((f as f64 / ONE as f64 - expected_alpha).abs() < 1e-6);
}

#[test]
fn sample_rate_change_applies_to_the_very_next_step() {
    let mut m = gain_manager_at(48000);
    m.set_parameter(0, ONE);
    m.step_filter();
    assert_eq!(filtered_of(&m), 1404604);
    // Halving the bandwidth-to-rate ratio mid-stream must show up in
    // the very next step, without any restart.
    m.set_sr(96000 * ONE_Q30);
    m.step_filter();
    assert_eq!(filtered_of(&m), 2106216);
    // Had the rate stayed at 48000, the step would have been larger.
    let mut n = gain_manager_at(48000);
    n.set_parameter(0, ONE);
    n.step_filter();
    n.step_filter();
    assert_eq!(filtered_of(&n), 2807370);
}
