//! The effect's own state and per-sample processing body.
//!
//! This is the placeholder the plugin author replaces: it reads the
//! smoothed placeholder parameter and passes the stereo sample pair
//! through unchanged.

use vstd::prelude::*;

verus! {

use crate::parameter_manager::ParameterManager;

/// The effect's processing state; the placeholder effect keeps none.
pub struct EffectProcessor {}

impl EffectProcessor {
    /// A fresh effect state.
    pub fn new() -> (p: Self)
        ensures
            p == (EffectProcessor {  }),
    {
        EffectProcessor {  }
    }

    /// Called by the plugin frame when the host changes its sample
    /// rate (Q30 hertz); the placeholder effect has nothing to adapt.
    pub fn set_sr(&mut self, sr: u64)
        ensures
            *final(self) == *old(self),
    {
    }

    /// One sample of the effect: reads the smoothed placeholder
    /// parameter and returns the stereo pair unchanged.
    pub fn process_effects(&mut self, param_mngr: &ParameterManager, l: i64, r: i64) -> (out: (
        i64,
        i64,
    ))
        requires
            param_mngr.params@.len() >= 1,
        ensures
            *final(self) == *old(self),
            out == (l, r),
    {
        let _test_param: i64 = param_mngr.params[0].filtered;
        (l, r)
    }
}

} // verus!
