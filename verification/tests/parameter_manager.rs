//! Host-facing behavior of the parameter manager: indexed access,
//! fail-soft out-of-range policy, name lookup, and display text.

use vst_lab::parameter_manager::{Parameter, ParameterManager, ValueFormat};
use vst_lab::smoothing::ONE_Q30;
use vst_lab::user_code::parameters::create_parameters;

const ONE: i64 = ONE_Q30 as i64;

fn gain_manager() -> ParameterManager {
    let decay_tenth: u64 = ONE_Q30 / 10;
    let p = Parameter::new("gain".to_string(), ValueFormat::TwoDecimals, decay_tenth);
    let mut m = ParameterManager::from_vec(vec![p]);
    m.set_sr(48000 * ONE_Q30);
    m
}

#[test]
fn raw_round_trip() {
    let mut m = gain_manager();
    m.set_parameter(0, 12345);
    assert_eq!(m.get_parameter(0), 12345);
    m.set_parameter(0, ONE);
    assert_eq!(m.get_parameter(0), ONE);
}

#[test]
fn out_of_range_reads_are_neutral() {
    let m = gain_manager();
    assert_eq!(m.get_parameter(1), 0);
    assert_eq!(m.get_parameter(-1), 0);
    assert_eq!(m.get_parameter(i32::MAX), 0);
    assert_eq!(m.get_parameter_text(1), "");
    assert_eq!(m.get_parameter_text(-3), "");
    assert_eq!(m.get_parameter_name(99), "");
}

#[test]
fn out_of_range_write_is_a_no_op() {
    let mut m = gain_manager();
    m.set_parameter(0, 777);
    m.set_parameter(1, 42);
    m.set_parameter(-1, 42);
    assert_eq!(m.get_parameter(0), 777);
    assert_eq!(m.get_parameter(1), 0);
    assert_eq!(m.params.len(), 1);
}

#[test]
fn by_name_finds_registered_position() {
    let mut m = gain_manager();
    m.set_parameter(0, 4242);
    let found = m.get_param_by_name("gain".to_string());
    let p = found.expect("registered name must resolve");
    assert_eq!(p.get_raw(), 4242);
    assert_eq!(p.name(), "gain");
}

#[test]
fn by_name_missing_yields_nothing() {
    let m = gain_manager();
    assert!(m.get_param_by_name("missing".to_string()).is_none());
}

#[test]
fn by_name_duplicates_resolve_to_last_registered() {
    let decay_tenth: u64 = ONE_Q30 / 10;
    let mut first = Parameter::new("dup".to_string(), ValueFormat::TwoDecimals, decay_tenth);
    let mut second = Parameter::new("dup".to_string(), ValueFormat::TwoDecimals, decay_tenth);
    first.set_raw(1);
    second.set_raw(2);
    let m = ParameterManager::from_vec(vec![first, second]);
    let p = m.get_param_by_name("dup".to_string()).expect("name is registered");
    assert_eq!(p.get_raw(), 2);
}

#[test]
fn default_manager_has_one_anonymous_parameter() {
    let m = ParameterManager::default();
    assert_eq!(m.params.len(), 1);
    assert_eq!(m.get_parameter(0), 0);
    assert_eq!(m.get_parameter_name(0), "");
    assert_eq!(m.get_parameter_text(0), "0.00");
}

#[test]
fn create_parameters_registers_placeholder() {
    let m = create_parameters();
    assert_eq!(m.params.len(), 1);
    assert_eq!(m.get_parameter_name(0), "test_param");
    assert!(m.get_param_by_name("test_param".to_string()).is_some());
    assert_eq!(m.get_parameter(0), 0);
}

#[test]
fn parameter_text_shows_two_decimals() {
    let mut m = gain_manager();
    assert_eq!(m.get_parameter_text(0), "0.00");
    m.set_parameter(0, ONE / 2);
    assert_eq!(m.get_parameter_text(0), "0.50");
    m.set_parameter(0, ONE);
    assert_eq!(m.get_parameter_text(0), "1.00");
    m.set_parameter(0, -(ONE / 4));
    assert_eq!(m.get_parameter_text(0), "-0.25");
    m.set_parameter(0, 3 * ONE + ONE / 2);
    assert_eq!(m.get_parameter_text(0), "3.50");
    m.set_parameter(0, -ONE);
    assert_eq!(m.get_parameter_text(0), "-1.00");
}

#[test]
fn parameter_format_is_pure() {
    let p = Parameter::default();
    assert_eq!(p.format(ONE / 2), "0.50");
    assert_eq!(p.format(ONE / 2), "0.50");
    assert_eq!(p.format(0), "0.00");
}

#[test]
fn empty_manager_is_all_neutral() {
    let mut m = ParameterManager::from_vec(vec![]);
    assert_eq!(m.params.len(), 0);
    assert_eq!(m.get_parameter(0), 0);
    assert_eq!(m.get_parameter_text(0), "");
    assert_eq!(m.get_parameter_name(0), "");
    m.set_parameter(0, 1);
    assert_eq!(m.params.len(), 0);
    assert!(m.get_param_by_name("".to_string()).is_none());
    m.step_filter();
    assert_eq!(m.params.len(), 0);
}

#[test]
fn cutoff_derived_from_decay_time() {
    let decay_tenth: u64 = ONE_Q30 / 10;
    let p = Parameter::new("gain".to_string(), ValueFormat::TwoDecimals, decay_tenth);
    // 1 / 0.1 s = 10 Hz, up to fixed-point rounding.
    assert_eq!(p.filter_cut, 10737418280);
    let q = Parameter::new("now".to_string(), ValueFormat::TwoDecimals, 0);
    assert_eq!(q.filter_cut, u64::MAX);
    let d = Parameter::default();
    assert_eq!(d.filter_cut, 5 * ONE_Q30);
}
