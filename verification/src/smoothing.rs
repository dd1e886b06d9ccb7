//! The one-pole low-pass smoothing step and its coefficient.
//!
//! Per sample, each parameter advances its filtered value by
//! `filtered += alpha * (raw - filtered)` where
//! `alpha = 1 - exp(-tau * clamp(cutoff, 0, sample_rate) / sample_rate)`
//! (`tau` is the full turn 2*pi). Everything is computed in Q30/Q60
//! fixed point: `exp(-x)` is evaluated by halving the argument 16
//! times, taking a short series, and squaring the result back up.

use vstd::prelude::*;
use vstd::arithmetic::div_mod::{lemma_div_is_ordered, lemma_div_multiples_vanish, lemma_div_pos_is_pos};
use vstd::arithmetic::mul::{lemma_mul_inequality, lemma_mul_nonnegative};

verus! {

/// 1.0 in Q30 fixed point (2^30).
pub const ONE_Q30: u64 = 0x4000_0000;

/// 1.0 in Q60 fixed point (2^60).
pub const ONE_Q60: u128 = 0x1000_0000_0000_0000;

/// The full turn 2*pi in Q30 fixed point (rounded).
pub const TAU_Q30: u64 = 6746518852;

/// The smoothing cutoff clamped to `[0, sr]`; an unstable coefficient
/// (`alpha > 1`) can then never arise.
pub open spec fn clamped_cutoff(cutoff: int, sr: int) -> int {
    if cutoff > sr {
        sr
    } else {
        cutoff
    }
}

/// The filter's angular step per sample, `tau * cutoff / sr`, in Q30.
pub open spec fn omega_q30(cutoff: int, sr: int) -> int
    recommends
        sr >= 1,
        cutoff >= 0,
{
    (TAU_Q30 as int) * clamped_cutoff(cutoff, sr) / sr
}

/// First-order series for `exp(-x)` at the halved argument
/// `t = x / 2^16`, in Q60: `1 - t + t^2 / 2`.
pub open spec fn exp_series_q60(omega: int) -> int {
    let t = omega * 0x4000;
    (ONE_Q60 as int) - t + t * t / (2 * ONE_Q60 as int)
}

/// One squaring step in Q60.
pub open spec fn square_q60(e: int) -> int {
    e * e / (ONE_Q60 as int)
}

/// `k` squaring steps in Q60.
pub open spec fn repeat_square_q60(e: int, k: nat) -> int
    decreases k,
{
    if k == 0 {
        e
    } else {
        square_q60(repeat_square_q60(e, (k - 1) as nat))
    }
}

/// `exp(-omega)` in Q60: square the halved-argument series back up.
pub open spec fn exp_neg_q60(omega: int) -> int {
    repeat_square_q60(exp_series_q60(omega), 16)
}

/// The smoothing coefficient `alpha = 1 - exp(-tau * cutoff / sr)`
/// in Q30, with the cutoff clamped to `[0, sr]`.
pub open spec fn alpha_q30(cutoff: int, sr: int) -> int
    recommends
        sr >= 1,
        cutoff >= 0,
{
    ((ONE_Q60 as int) - exp_neg_q60(omega_q30(cutoff, sr))) / (ONE_Q30 as int)
}

/// One smoothing step: move `filtered` toward `raw` by the fraction
/// `alpha` (Q30) of their distance, rounding the move toward zero.
pub open spec fn step_value(filtered: int, raw: int, alpha: int) -> int {
    if raw >= filtered {
        filtered + alpha * (raw - filtered) / (ONE_Q30 as int)
    } else {
        filtered - alpha * (filtered - raw) / (ONE_Q30 as int)
    }
}

/// `filtered` after `k` smoothing steps with a fixed target and coefficient.
pub open spec fn step_value_iter(filtered: int, raw: int, alpha: int, k: nat) -> int
    decreases k,
{
    if k == 0 {
        filtered
    } else {
        step_value(step_value_iter(filtered, raw, alpha, (k - 1) as nat), raw, alpha)
    }
}

/// A fraction `alpha/2^30` of a nonnegative distance `d` is between 0 and `d`.
pub proof fn lemma_fraction_of_distance(alpha: int, d: int)
    requires
        0 <= alpha <= ONE_Q30,
        0 <= d,
    ensures
        0 <= alpha * d / (ONE_Q30 as int) <= d,
{
    lemma_mul_nonnegative(alpha, d);
    lemma_div_pos_is_pos(alpha * d, ONE_Q30 as int);
    lemma_mul_inequality(alpha, ONE_Q30 as int, d);
    lemma_div_is_ordered(alpha * d, (ONE_Q30 as int) * d, ONE_Q30 as int);
    lemma_div_multiples_vanish(d, ONE_Q30 as int);
}

/// The clamped angular step lies in `[0, tau]`.
proof fn lemma_omega_range(cutoff: int, sr: int)
    requires
        sr >= 1,
        cutoff >= 0,
    ensures
        0 <= omega_q30(cutoff, sr) <= TAU_Q30,
{
    let c = clamped_cutoff(cutoff, sr);
    lemma_mul_nonnegative(TAU_Q30 as int, c);
    lemma_div_pos_is_pos((TAU_Q30 as int) * c, sr);
    lemma_mul_inequality(c, sr, TAU_Q30 as int);
    lemma_div_is_ordered((TAU_Q30 as int) * c, (TAU_Q30 as int) * sr, sr);
    lemma_div_multiples_vanish(TAU_Q30 as int, sr);
}

/// The series for the halved argument stays in `[0, 1]` (Q60).
proof fn lemma_exp_series_range(omega: int)
    requires
        0 <= omega <= TAU_Q30,
    ensures
        0 <= exp_series_q60(omega) <= ONE_Q60,
{
    lemma_fraction_half_q60(omega * 0x4000);
}

/// For `0 <= t <= 2^61`, the series correction `t^2 / 2^61` is at most `t`.
proof fn lemma_fraction_half_q60(t: int)
    requires
        0 <= t <= 2 * ONE_Q60,
    ensures
        0 <= t * t / (2 * ONE_Q60 as int) <= t,
{
    lemma_mul_nonnegative(t, t);
    lemma_div_pos_is_pos(t * t, 2 * ONE_Q60 as int);
    lemma_mul_inequality(t, 2 * ONE_Q60 as int, t);
    lemma_div_is_ordered(t * t, (2 * ONE_Q60 as int) * t, 2 * ONE_Q60 as int);
    lemma_div_multiples_vanish(t, 2 * ONE_Q60 as int);
}

/// Squaring keeps a Q60 value in `[0, 1]`, and never increases it.
proof fn lemma_square_q60_range(e: int)
    requires
        0 <= e <= ONE_Q60,
    ensures
        0 <= square_q60(e) <= e,
{
    lemma_mul_nonnegative(e, e);
    lemma_div_pos_is_pos(e * e, ONE_Q60 as int);
    lemma_mul_inequality(e, ONE_Q60 as int, e);
    lemma_div_is_ordered(e * e, (ONE_Q60 as int) * e, ONE_Q60 as int);
    lemma_div_multiples_vanish(e, ONE_Q60 as int);
}

/// Repeated squaring keeps a Q60 value in `[0, 1]`.
proof fn lemma_repeat_square_range(e: int, k: nat)
    requires
        0 <= e <= ONE_Q60,
    ensures
        0 <= repeat_square_q60(e, k) <= ONE_Q60,
    decreases k,
{
    if k > 0 {
        lemma_repeat_square_range(e, (k - 1) as nat);
        lemma_square_q60_range(repeat_square_q60(e, (k - 1) as nat));
    }
}

/// The smoothing coefficient is a proper fraction: `0 <= alpha <= 1`
/// (in Q30) for every cutoff and every positive sample rate.
pub proof fn lemma_alpha_in_unit_range(cutoff: int, sr: int)
    requires
        sr >= 1,
        cutoff >= 0,
    ensures
        0 <= alpha_q30(cutoff, sr) <= ONE_Q30,
{
    lemma_omega_range(cutoff, sr);
    let omega = omega_q30(cutoff, sr);
    lemma_exp_series_range(omega);
    lemma_repeat_square_range(exp_series_q60(omega), 16);
    let e = exp_neg_q60(omega);
    lemma_div_pos_is_pos((ONE_Q60 as int) - e, ONE_Q30 as int);
    lemma_div_is_ordered((ONE_Q60 as int) - e, ONE_Q60 as int, ONE_Q30 as int);
}

/// A smoothing step with a coefficient in `[0, 1]` lands between the
/// old filtered value and the target: the filtered value approaches
/// the raw target monotonically and never overshoots it.
pub proof fn lemma_step_no_overshoot(filtered: int, raw: int, alpha: int)
    requires
        0 <= alpha <= ONE_Q30,
    ensures
        raw >= filtered ==> filtered <= step_value(filtered, raw, alpha) <= raw,
        raw < filtered ==> raw <= step_value(filtered, raw, alpha) <= filtered,
{
    if raw >= filtered {
        lemma_fraction_of_distance(alpha, raw - filtered);
    } else {
        lemma_fraction_of_distance(alpha, filtered - raw);
    }
}

/// Every iterate of the smoothing step stays between the starting
/// filtered value and the raw target.
pub proof fn lemma_step_iter_bounded(filtered: int, raw: int, alpha: int, k: nat)
    requires
        0 <= alpha <= ONE_Q30,
    ensures
        raw >= filtered ==> filtered <= step_value_iter(filtered, raw, alpha, k) <= raw,
        raw < filtered ==> raw <= step_value_iter(filtered, raw, alpha, k) <= filtered,
    decreases k,
{
    if k > 0 {
        lemma_step_iter_bounded(filtered, raw, alpha, (k - 1) as nat);
        lemma_step_no_overshoot(step_value_iter(filtered, raw, alpha, (k - 1) as nat), raw, alpha);
    }
}

/// Computes the smoothing coefficient for one parameter from its
/// cutoff and the current sample rate, both in Q30.
pub fn compute_alpha(cutoff: u64, sr: u64) -> (alpha: u64)
    requires
        sr >= 1,
    ensures
        alpha == alpha_q30(cutoff as int, sr as int),
        alpha <= ONE_Q30,
{
    proof {
        lemma_omega_range(cutoff as int, sr as int);
        lemma_alpha_in_unit_range(cutoff as int, sr as int);
    }
    let c: u64 = if cutoff > sr {
        sr
    } else {
        cutoff
    };
    let omega: u64 = ((TAU_Q30 as u128 * c as u128) / (sr as u128)) as u64;
    assert(omega == omega_q30(cutoff as int, sr as int));
    let t: u128 = omega as u128 * 0x4000;
    assert(t <= (TAU_Q30 as int) * 0x4000);
    assert(t * t <= ((TAU_Q30 as int) * 0x4000) * ((TAU_Q30 as int) * 0x4000)) by (nonlinear_arith)
        requires
            0 <= t <= (TAU_Q30 as int) * 0x4000;
    let mut e: u128 = ONE_Q60 - t + t * t / (2 * ONE_Q60);
    proof {
        lemma_exp_series_range(omega as int);
    }
    let mut k: u64 = 0;
    while k < 16
        invariant
            k <= 16,
            e == repeat_square_q60(exp_series_q60(omega as int), k as nat),
            0 <= e <= ONE_Q60,
        decreases 16 - k,
    {
        proof {
            lemma_square_q60_range(e as int);
        }
        e = e * e / ONE_Q60;
        k = k + 1;
    }
    ((ONE_Q60 - e) / (ONE_Q30 as u128)) as u64
}

/// Advances a filtered value one sample toward its raw target with
/// the given Q30 coefficient.
pub fn step_toward(filtered: i64, raw: i64, alpha: u64) -> (stepped: i64)
    requires
        alpha <= ONE_Q30,
    ensures
        stepped == step_value(filtered as int, raw as int, alpha as int),
        raw >= filtered ==> filtered <= stepped <= raw,
        raw < filtered ==> raw <= stepped <= filtered,
{
    proof {
        lemma_step_no_overshoot(filtered as int, raw as int, alpha as int);
    }
    if raw >= filtered {
        let d: u128 = (raw as i128 - filtered as i128) as u128;
        proof {
            lemma_fraction_of_distance(alpha as int, d as int);
        }
        let delta: u128 = alpha as u128 * d / (ONE_Q30 as u128);
        (filtered as i128 + delta as i128) as i64
    } else {
        let d: u128 = (filtered as i128 - raw as i128) as u128;
        proof {
            lemma_fraction_of_distance(alpha as int, d as int);
        }
        let delta: u128 = alpha as u128 * d / (ONE_Q30 as u128);
        (filtered as i128 - delta as i128) as i64
    }
}

/// From below its target, the filtered value climbs monotonically
/// with each smoothing step and never overshoots the target.
pub proof fn lemma_step_iter_monotone(filtered: int, raw: int, alpha: int, k: nat)
    requires
        0 <= alpha <= ONE_Q30,
        filtered <= raw,
    ensures
        step_value_iter(filtered, raw, alpha, k) <= step_value_iter(filtered, raw, alpha, k + 1)
            <= raw,
{
    lemma_step_iter_bounded(filtered, raw, alpha, k);
    lemma_step_no_overshoot(step_value_iter(filtered, raw, alpha, k), raw, alpha);
}

/// Zero smoothing steps leave the filtered value exactly as it was:
/// only `step_filter` itself moves it, reads never do.
pub proof fn lemma_zero_steps_change_nothing(filtered: int, raw: int, alpha: int)
    ensures
        step_value_iter(filtered, raw, alpha, 0) == filtered,
{
}

} // verus!
