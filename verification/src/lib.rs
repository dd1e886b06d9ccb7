//! Parameter smoothing and access layer for an audio effect plugin.
//!
//! The host writes raw parameter values at block rate; the audio path
//! advances a one-pole low-pass filter once per sample so that each
//! parameter's `filtered` value ramps smoothly toward its `raw` target
//! instead of jumping (which would produce audible zipper noise).
//!
//! All values are held in Q30 fixed point: the integer `ONE_Q30`
//! (2^30) stands for 1.0. Normalized parameter values live in
//! `[0, ONE_Q30]`, frequencies and times are Q30 counts of hertz and
//! seconds. The host-facing adapter converts to and from the host's
//! floating-point representation at the boundary.

use vstd::prelude::*;

pub mod formatting;
pub mod parameter_manager;
pub mod process;
pub mod smoothing;
pub mod user_code;

verus! {

use crate::parameter_manager::ParameterManager;
use crate::parameter_manager::stepped_params_iter;
use crate::user_code::process_effects::EffectProcessor;

/// Processes one host block: for every sample, advance all parameter
/// filters by one step, then run the effect body on the stereo pair.
/// The placeholder effect passes audio through unchanged.
pub fn process_buffer(
    processor: &mut EffectProcessor,
    manager: &mut ParameterManager,
    left: &Vec<i64>,
    right: &Vec<i64>,
) -> (out: (Vec<i64>, Vec<i64>))
    requires
        old(manager).wf(),
        old(manager).params@.len() >= 1,
        left@.len() == right@.len(),
    ensures
        final(manager).wf(),
        final(manager).sr == old(manager).sr,
        final(manager).params@ == stepped_params_iter(
            old(manager).params@,
            old(manager).sr as int,
            left@.len() as nat,
        ),
        out.0@ == left@,
        out.1@ == right@,
{
    let ghost orig = manager.params@;
    let ghost sr_int = manager.sr as int;
    let mut left_out: Vec<i64> = Vec::new();
    let mut right_out: Vec<i64> = Vec::new();
    let buffer_len: usize = left.len();
    let mut j: usize = 0;
    while j < buffer_len
        invariant
            manager.wf(),
            manager.sr == old(manager).sr,
            manager.sr as int == sr_int,
            orig == old(manager).params@,
            orig.len() >= 1,
            buffer_len == left@.len(),
            left@.len() == right@.len(),
            j <= buffer_len,
            manager.params@ == stepped_params_iter(orig, sr_int, j as nat),
            manager.params@.len() == orig.len(),
            left_out@ == left@.take(j as int),
            right_out@ == right@.take(j as int),
        decreases buffer_len - j,
    {
        manager.step_filter();
        let sample = processor.process_effects(manager, left[j], right[j]);
        left_out.push(sample.0);
        right_out.push(sample.1);
        proof {
            assert(left_out@ =~= left@.take(j + 1));
            assert(right_out@ =~= right@.take(j + 1));
        }
        j = j + 1;
    }
    proof {
        assert(left_out@ =~= left@);
        assert(right_out@ =~= right@);
    }
    (left_out, right_out)
}

} // verus!
