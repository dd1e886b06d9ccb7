//! Per-chunk audio processing: the example gain effect.
//!
//! For each sample of the chunk the parameter filters advance by one
//! step and the freshly smoothed placeholder parameter scales both
//! channels — smoothing runs at audio rate even though the host only
//! rewrites the raw targets at block rate, which is what removes
//! zipper noise from parameter changes.

use vstd::prelude::*;

verus! {

use crate::parameter_manager::ParameterManager;
use crate::parameter_manager::lemma_stepped_params_iter_normalized;
use crate::parameter_manager::params_normalized;
use crate::parameter_manager::stepped_params_iter;
use crate::smoothing::ONE_Q30;
use crate::smoothing::lemma_fraction_of_distance;

/// A sample scaled by a gain in `[0, 1]` (Q30), rounding toward zero.
pub open spec fn scaled_q30(x: int, gain: int) -> int {
    if x >= 0 {
        x * gain / (ONE_Q30 as int)
    } else {
        -((-x) * gain / (ONE_Q30 as int))
    }
}

/// The gain applied to sample `j` of a chunk: the placeholder
/// parameter's filtered value right after the `j+1`-th smoothing step.
pub open spec fn chunk_gain(ps: Seq<crate::parameter_manager::Parameter>, sr: int, j: int) -> int {
    stepped_params_iter(ps, sr, (j + 1) as nat)[0].filtered as int
}

/// Scales one sample by a Q30 gain; the result never leaves the
/// normalized range.
pub fn scale_sample(x: i64, gain: i64) -> (scaled: i64)
    requires
        0 <= gain <= ONE_Q30,
        -(ONE_Q30 as i64) <= x <= ONE_Q30 as i64,
    ensures
        scaled == scaled_q30(x as int, gain as int),
        -(ONE_Q30 as i64) <= scaled <= ONE_Q30 as i64,
{
    if x >= 0 {
        proof {
            lemma_fraction_of_distance(gain as int, x as int);
            assert((x as int) * (gain as int) <= (ONE_Q30 as int) * (ONE_Q30 as int))
                by (nonlinear_arith)
                requires
                    0 <= x <= ONE_Q30,
                    0 <= gain <= ONE_Q30,
            ;
        }
        ((x as u128 * gain as u128) / (ONE_Q30 as u128)) as i64
    } else {
        let m: u64 = (-(x as i128)) as u64;
        proof {
            lemma_fraction_of_distance(gain as int, m as int);
            assert((m as int) * (gain as int) <= (ONE_Q30 as int) * (ONE_Q30 as int))
                by (nonlinear_arith)
                requires
                    0 <= m <= ONE_Q30,
                    0 <= gain <= ONE_Q30,
            ;
        }
        -(((m as u128 * gain as u128) / (ONE_Q30 as u128)) as i64)
    }
}

/// Processes one chunk of stereo audio through the example gain
/// effect: per sample, advance every parameter filter by one step,
/// then scale both channels by the placeholder parameter's freshly
/// smoothed value.
pub fn process_chunk(manager: &mut ParameterManager, left: &Vec<i64>, right: &Vec<i64>) -> (out: (
    Vec<i64>,
    Vec<i64>,
))
    requires
        old(manager).wf(),
        old(manager).params@.len() >= 1,
        params_normalized(old(manager).params@),
        left@.len() == right@.len(),
        forall|j: int|
            0 <= j < left@.len() ==> -(ONE_Q30 as i64) <= #[trigger] left@[j] <= ONE_Q30 as i64,
        forall|j: int|
            0 <= j < right@.len() ==> -(ONE_Q30 as i64) <= #[trigger] right@[j] <= ONE_Q30 as i64,
    ensures
        final(manager).wf(),
        final(manager).sr == old(manager).sr,
        final(manager).params@ == stepped_params_iter(
            old(manager).params@,
            old(manager).sr as int,
            left@.len() as nat,
        ),
        out.0@.len() == left@.len(),
        out.1@.len() == right@.len(),
        forall|j: int|
            0 <= j < left@.len() ==> #[trigger] out.0@[j] == scaled_q30(
                left@[j] as int,
                chunk_gain(old(manager).params@, old(manager).sr as int, j),
            ),
        forall|j: int|
            0 <= j < right@.len() ==> #[trigger] out.1@[j] == scaled_q30(
                right@[j] as int,
                chunk_gain(old(manager).params@, old(manager).sr as int, j),
            ),
{
    let ghost orig = manager.params@;
    let ghost sr_int = manager.sr as int;
    let mut left_out: Vec<i64> = Vec::new();
    let mut right_out: Vec<i64> = Vec::new();
    let chunk_len: usize = left.len();
    let mut j: usize = 0;
    while j < chunk_len
        invariant
            manager.wf(),
            manager.sr == old(manager).sr,
            manager.sr as int == sr_int,
            orig == old(manager).params@,
            orig.len() >= 1,
            params_normalized(orig),
            sr_int >= 1,
            chunk_len == left@.len(),
            left@.len() == right@.len(),
            forall|i: int|
                0 <= i < left@.len() ==> -(ONE_Q30 as i64) <= #[trigger] left@[i] <= ONE_Q30 as i64,
            forall|i: int|
                0 <= i < right@.len() ==> -(ONE_Q30 as i64) <= #[trigger] right@[i]
                    <= ONE_Q30 as i64,
            j <= chunk_len,
            manager.params@ == stepped_params_iter(orig, sr_int, j as nat),
            left_out@.len() == j,
            right_out@.len() == j,
            forall|i: int|
                0 <= i < j ==> #[trigger] left_out@[i] == scaled_q30(
                    left@[i] as int,
                    chunk_gain(orig, sr_int, i),
                ),
            forall|i: int|
                0 <= i < j ==> #[trigger] right_out@[i] == scaled_q30(
                    right@[i] as int,
                    chunk_gain(orig, sr_int, i),
                ),
        decreases chunk_len - j,
    {
        proof {
            lemma_stepped_params_iter_normalized(orig, sr_int, j as nat);
            lemma_stepped_params_iter_normalized(orig, sr_int, (j + 1) as nat);
        }
        manager.step_filter();
        let gain: i64 = manager.params[0].filtered;
        left_out.push(scale_sample(left[j], gain));
        right_out.push(scale_sample(right[j], gain));
        j = j + 1;
    }
    (left_out, right_out)
}

} // verus!
