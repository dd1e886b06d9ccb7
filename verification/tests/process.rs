//! Per-chunk processing: the example gain effect and the passthrough
//! effect body, each driven by freshly smoothed parameters.

use vst_lab::parameter_manager::{Parameter, ParameterManager, ValueFormat};
use vst_lab::process::process_chunk;
use vst_lab::process_buffer;
use vst_lab::smoothing::ONE_Q30;
use vst_lab::user_code::process_effects::EffectProcessor;

const ONE: i64 = ONE_Q30 as i64;

fn gain_manager() -> ParameterManager {
    let decay_tenth: u64 = ONE_Q30 / 10;
    let p = Parameter::new("gain".to_string(), ValueFormat::TwoDecimals, decay_tenth);
    let mut m = ParameterManager::from_vec(vec![p]);
    m.set_sr(48000 * ONE_Q30);
    m
}

#[test]
fn chunk_applies_the_freshly_smoothed_gain() {
    let mut m = gain_manager();
    m.set_parameter(0, ONE);
    let left = vec![ONE, ONE / 2, -ONE];
    let right = vec![0, ONE, ONE / 4];
    let (out_l, out_r) = process_chunk(&mut m, &left, &right);
    // The gain ramps 1404604, 2807370, 4208301 across the three
    // samples; each output is its input scaled by that sample's gain.
    assert_eq!(out_l, vec![1404604, 1403685, -4208301]);
    assert_eq!(out_r, vec![0, 2807370, 1052075]);
    assert_eq!(m.params[0].get_filtered(), 4208301);
}

#[test]
fn chunk_with_zero_gain_silences_the_signal() {
    let mut m = gain_manager();
    let left = vec![ONE, -ONE, ONE / 3];
    let right = vec![ONE / 5, ONE, -ONE];
    let (out_l, out_r) = process_chunk(&mut m, &left, &right);
    assert_eq!(out_l, vec![0, 0, 0]);
    assert_eq!(out_r, vec![0, 0, 0]);
}

#[test]
fn buffer_passes_audio_through_and_steps_filters() {
    let mut m = gain_manager();
    m.set_parameter(0, ONE);
    let mut proc_state = EffectProcessor::new();
    let left = vec![ONE, -(ONE / 2), 0, 7];
    let right = vec![0, ONE / 3, -ONE, -7];
    let (out_l, out_r) = process_buffer(&mut proc_state, &mut m, &left, &right);
    assert_eq!(out_l, left);
    assert_eq!(out_r, right);
    // Four samples means four filter steps.
    let mut n = gain_manager();
    n.set_parameter(0, ONE);
    for _ in 0..4 {
        n.step_filter();
    }
    assert_eq!(m.params[0].get_filtered(), n.params[0].get_filtered());
}

#[test]
fn effect_processor_is_a_passthrough() {
    let m = gain_manager();
    let mut proc_state = EffectProcessor::new();
    let out = proc_state.process_effects(&m, 123, -456);
    assert_eq!(out, (123, -456));
}
