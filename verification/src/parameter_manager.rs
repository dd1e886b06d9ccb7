//! One named, host-controllable parameter and the ordered collection
//! that manages smoothing and access for all of them.
//!
//! A `Parameter` pairs the `raw` target the host writes with the
//! `filtered` value the audio path reads; `ParameterManager` holds the
//! parameters in host-index order together with the shared sample
//! rate, and advances every filter by one sample per `step_filter`
//! call. All host-facing reads and writes fail soft on a bad index:
//! numeric reads return 0, text reads return empty text, and writes do
//! nothing, because the host calling convention has no error channel.

use vstd::prelude::*;
use vstd::arithmetic::div_mod::lemma_div_nonincreasing;

verus! {

use crate::formatting::format_two_decimals;
use crate::formatting::two_decimals_q30;
use crate::smoothing::ONE_Q30;
use crate::smoothing::ONE_Q60;
use crate::smoothing::alpha_q30;
use crate::smoothing::compute_alpha;
use crate::smoothing::step_toward;
use crate::smoothing::step_value;

/// The sample rate assumed until the host announces one: 44100 Hz in Q30.
pub const DEFAULT_SR_Q30: u64 = 44100 * 0x4000_0000;

/// The smoothing cutoff assumed by a default parameter: 5 Hz in Q30.
pub const DEFAULT_CUT_Q30: u64 = 5 * 0x4000_0000;

/// How a parameter's value is rendered for display; chosen at
/// construction and never changed afterwards.
#[derive(Clone, Copy, PartialEq, Eq, Structural)]
pub enum ValueFormat {
    /// Signed fixed point with exactly two decimals, e.g. `0.50`.
    TwoDecimals,
}

/// The display text of value `v` under format `fmt`.
pub open spec fn formatted(fmt: ValueFormat, v: int) -> Seq<char> {
    match fmt {
        ValueFormat::TwoDecimals => two_decimals_q30(v),
    }
}

/// One host-controllable value: the `raw` target written at block
/// rate and the `filtered` value that trails it at audio rate, plus
/// display metadata and the smoothing cutoff, all in Q30.
pub struct Parameter {
    /// Target value, normalized to `[0, ONE_Q30]` by host convention
    /// (not validated here: the host ABI owns that guarantee).
    pub raw: i64,
    /// Smoothed value; written only by the smoothing step, trails `raw`.
    pub filtered: i64,
    /// Human-readable label, fixed at construction.
    pub display_name: String,
    /// Pure value-to-text rendering, fixed at construction.
    pub value_format: ValueFormat,
    /// Smoothing cutoff frequency in Q30 hertz, fixed at construction.
    pub filter_cut: u64,
}

/// The cutoff derived from a decay time: `1 / decay_time` in Q30
/// hertz; a zero decay time saturates to the largest cutoff (the
/// smoothing step clamps it to the sample rate anyway).
pub open spec fn cutoff_for_decay(decay_time: int) -> int {
    if decay_time <= 0 {
        u64::MAX as int
    } else {
        (ONE_Q60 as int) / decay_time
    }
}

impl Default for Parameter {
    /// An anonymous parameter at 0.0 with a 5 Hz smoothing cutoff.
    fn default() -> (p: Self)
        ensures
            p.raw == 0,
            p.filtered == 0,
            p.display_name@ == Seq::<char>::empty(),
            p.value_format == ValueFormat::TwoDecimals,
            p.filter_cut == DEFAULT_CUT_Q30,
    {
        Parameter {
            raw: 0,
            filtered: 0,
            display_name: String::new(),
            value_format: ValueFormat::TwoDecimals,
            filter_cut: DEFAULT_CUT_Q30,
        }
    }
}

impl Parameter {
    /// A new parameter with the given name and formatter, smoothing
    /// over approximately `decay_time` seconds (Q30).
    pub fn new(display_name: String, value_format: ValueFormat, decay_time: u64) -> (p: Self)
        ensures
            p.raw == 0,
            p.filtered == 0,
            p.display_name@ == display_name@,
            p.value_format == value_format,
            p.filter_cut == cutoff_for_decay(decay_time as int),
    {
        let filter_cut: u64 = if decay_time == 0 {
            u64::MAX
        } else {
            proof {
                lemma_div_nonincreasing(ONE_Q60 as int, decay_time as int);
            }
            (ONE_Q60 / decay_time as u128) as u64
        };
        Parameter { raw: 0, filtered: 0, display_name, value_format, filter_cut }
    }

    /// Reads the raw target value.
    pub fn get_raw(&self) -> (v: i64)
        ensures
            v == self.raw,
    {
        self.raw
    }

    /// Writes the raw target value; range is the caller's business.
    pub fn set_raw(&mut self, v: i64)
        ensures
            final(self).raw == v,
            final(self).filtered == old(self).filtered,
            final(self).display_name == old(self).display_name,
            final(self).value_format == old(self).value_format,
            final(self).filter_cut == old(self).filter_cut,
    {
        self.raw = v;
    }

    /// Reads the smoothed value.
    pub fn get_filtered(&self) -> (v: i64)
        ensures
            v == self.filtered,
    {
        self.filtered
    }

    /// Renders a value with this parameter's formatter; pure.
    pub fn format(&self, v: i64) -> (text: String)
        ensures
            text@ == formatted(self.value_format, v as int),
    {
        match self.value_format {
            ValueFormat::TwoDecimals => format_two_decimals(v),
        }
    }

    /// Returns the display name.
    pub fn name(&self) -> (n: String)
        ensures
            n@ == self.display_name@,
    {
        self.display_name.clone()
    }
}

/// An ordered, fixed-after-construction collection of parameters with
/// a shared sample rate. The positional index is the host-visible
/// parameter index; names resolve to the last position registered
/// under them.
pub struct ParameterManager {
    /// The parameters, in host-index order; never resized after
    /// construction.
    pub params: Vec<Parameter>,
    /// The shared sample rate in Q30 hertz; positive.
    pub sr: u64,
}

impl ParameterManager {
    /// A manager is usable once its sample rate is positive; every
    /// constructor establishes this and every method preserves it.
    pub open spec fn wf(&self) -> bool {
        self.sr >= 1
    }
}

/// The raw value read at `index`, or the neutral 0 out of range.
pub open spec fn raw_at(ps: Seq<Parameter>, index: int) -> i64 {
    if 0 <= index < ps.len() {
        ps[index].raw
    } else {
        0
    }
}

/// The parameters after writing `val` at `index`; unchanged out of range.
pub open spec fn with_raw_at(ps: Seq<Parameter>, index: int, val: i64) -> Seq<Parameter> {
    if 0 <= index < ps.len() {
        ps.update(index, (Parameter { raw: val, ..ps[index] }))
    } else {
        ps
    }
}

/// The display text read at `index`, or empty text out of range.
pub open spec fn text_at(ps: Seq<Parameter>, index: int) -> Seq<char> {
    if 0 <= index < ps.len() {
        formatted(ps[index].value_format, ps[index].raw as int)
    } else {
        Seq::<char>::empty()
    }
}

/// The display name read at `index`, or empty text out of range.
pub open spec fn name_at(ps: Seq<Parameter>, index: int) -> Seq<char> {
    if 0 <= index < ps.len() {
        ps[index].display_name@
    } else {
        Seq::<char>::empty()
    }
}

/// A parameter after one smoothing step at sample rate `sr`: only
/// `filtered` moves, by the coefficient its cutoff and `sr` give.
pub open spec fn stepped_param(p: Parameter, sr: int) -> Parameter {
    Parameter {
        filtered: step_value(p.filtered as int, p.raw as int, alpha_q30(p.filter_cut as int, sr)) as i64,
        ..p
    }
}

/// All parameters after one smoothing step at sample rate `sr`.
pub open spec fn stepped_params(ps: Seq<Parameter>, sr: int) -> Seq<Parameter> {
    ps.map_values(|p: Parameter| stepped_param(p, sr))
}

/// All parameters after `k` smoothing steps at sample rate `sr`.
pub open spec fn stepped_params_iter(ps: Seq<Parameter>, sr: int, k: nat) -> Seq<Parameter>
    decreases k,
{
    if k == 0 {
        ps
    } else {
        stepped_params(stepped_params_iter(ps, sr, (k - 1) as nat), sr)
    }
}

/// The position `name` resolves to: the last index whose parameter
/// carries that display name, if any.
pub open spec fn last_position_of(ps: Seq<Parameter>, name: Seq<char>) -> Option<int>
    decreases ps.len(),
{
    if ps.len() == 0 {
        None
    } else if ps.last().display_name@ == name {
        Some(ps.len() - 1)
    } else {
        last_position_of(ps.drop_last(), name)
    }
}

/// Every parameter holds normalized values: `raw` and `filtered` in
/// `[0, ONE_Q30]`.
pub open spec fn params_normalized(ps: Seq<Parameter>) -> bool {
    forall|i: int|
        0 <= i < ps.len() ==> 0 <= #[trigger] ps[i].raw <= ONE_Q30 && 0 <= ps[i].filtered
            <= ONE_Q30
}

/// One smoothing step keeps normalized parameters normalized and
/// changes nothing but their filtered values.
pub proof fn lemma_stepped_params_normalized(ps: Seq<Parameter>, sr: int)
    requires
        sr >= 1,
        params_normalized(ps),
    ensures
        stepped_params(ps, sr).len() == ps.len(),
        params_normalized(stepped_params(ps, sr)),
        forall|i: int|
            0 <= i < ps.len() ==> (#[trigger] stepped_params(ps, sr)[i]).raw == ps[i].raw
                && stepped_params(ps, sr)[i].display_name == ps[i].display_name
                && stepped_params(ps, sr)[i].value_format == ps[i].value_format
                && stepped_params(ps, sr)[i].filter_cut == ps[i].filter_cut,
{
    assert forall|i: int| 0 <= i < ps.len() implies 0 <= (
    #[trigger] stepped_params(ps, sr)[i]).filtered <= ONE_Q30 by {
        let p = ps[i];
        crate::smoothing::lemma_alpha_in_unit_range(p.filter_cut as int, sr);
        crate::smoothing::lemma_step_no_overshoot(
            p.filtered as int,
            p.raw as int,
            alpha_q30(p.filter_cut as int, sr),
        );
    }
}

/// Any number of smoothing steps keeps normalized parameters
/// normalized and changes nothing but their filtered values.
pub proof fn lemma_stepped_params_iter_normalized(ps: Seq<Parameter>, sr: int, k: nat)
    requires
        sr >= 1,
        params_normalized(ps),
    ensures
        stepped_params_iter(ps, sr, k).len() == ps.len(),
        params_normalized(stepped_params_iter(ps, sr, k)),
        forall|i: int|
            0 <= i < ps.len() ==> (#[trigger] stepped_params_iter(ps, sr, k)[i]).raw == ps[i].raw
                && stepped_params_iter(ps, sr, k)[i].display_name == ps[i].display_name
                && stepped_params_iter(ps, sr, k)[i].value_format == ps[i].value_format
                && stepped_params_iter(ps, sr, k)[i].filter_cut == ps[i].filter_cut,
    decreases k,
{
    if k > 0 {
        lemma_stepped_params_iter_normalized(ps, sr, (k - 1) as nat);
        lemma_stepped_params_normalized(stepped_params_iter(ps, sr, (k - 1) as nat), sr);
    }
}

/// Repeated `step_filter` calls act on each normalized parameter
/// exactly as the iterated scalar smoothing step: together with the
/// monotonicity of `step_value_iter`, each filtered value approaches
/// its raw target monotonically over the calls and never overshoots.
pub proof fn lemma_iter_acts_per_parameter(ps: Seq<Parameter>, sr: int, k: nat, i: int)
    requires
        sr >= 1,
        params_normalized(ps),
        0 <= i < ps.len(),
    ensures
        (stepped_params_iter(ps, sr, k)[i]).filtered as int == crate::smoothing::step_value_iter(
            ps[i].filtered as int,
            ps[i].raw as int,
            alpha_q30(ps[i].filter_cut as int, sr),
            k,
        ),
    decreases k,
{
    lemma_stepped_params_iter_normalized(ps, sr, k);
    if k > 0 {
        lemma_iter_acts_per_parameter(ps, sr, (k - 1) as nat, i);
        lemma_stepped_params_iter_normalized(ps, sr, (k - 1) as nat);
        let prev = stepped_params_iter(ps, sr, (k - 1) as nat)[i];
        crate::smoothing::lemma_alpha_in_unit_range(prev.filter_cut as int, sr);
        crate::smoothing::lemma_step_no_overshoot(
            prev.filtered as int,
            prev.raw as int,
            alpha_q30(prev.filter_cut as int, sr),
        );
    }
}

/// A name that matches at `j` and nowhere later resolves to `j`.
proof fn lemma_last_position_found(ps: Seq<Parameter>, name: Seq<char>, j: int)
    requires
        0 <= j < ps.len(),
        ps[j].display_name@ == name,
        forall|k: int| j < k < ps.len() ==> ps[k].display_name@ != name,
    ensures
        last_position_of(ps, name) == Some(j),
    decreases ps.len(),
{
    if j == ps.len() - 1 {
    } else {
        lemma_last_position_found(ps.drop_last(), name, j);
    }
}

/// A name that matches nowhere resolves to nothing.
proof fn lemma_last_position_missing(ps: Seq<Parameter>, name: Seq<char>)
    requires
        forall|k: int| 0 <= k < ps.len() ==> ps[k].display_name@ != name,
    ensures
        last_position_of(ps, name) is None,
    decreases ps.len(),
{
    if ps.len() > 0 {
        lemma_last_position_missing(ps.drop_last(), name);
    }
}

impl Default for ParameterManager {
    /// A manager holding a single anonymous parameter, at the default
    /// sample rate.
    fn default() -> (m: Self)
        ensures
            m.wf(),
            m.sr == DEFAULT_SR_Q30,
            m.params@.len() == 1,
            m.params@[0].raw == 0,
            m.params@[0].filtered == 0,
            m.params@[0].display_name@ == Seq::<char>::empty(),
            m.params@[0].value_format == ValueFormat::TwoDecimals,
            m.params@[0].filter_cut == DEFAULT_CUT_Q30,
    {
        let mut params: Vec<Parameter> = Vec::new();
        params.push(Parameter::default());
        ParameterManager { params, sr: DEFAULT_SR_Q30 }
    }
}

impl ParameterManager {
    /// Builds a manager from a caller-built ordered list of
    /// parameters; positions follow list order, and the sample rate
    /// starts at the default until `set_sr` is called.
    pub fn from_vec(params: Vec<Parameter>) -> (m: Self)
        ensures
            m.wf(),
            m.params@ == params@,
            m.sr == DEFAULT_SR_Q30,
    {
        ParameterManager { params, sr: DEFAULT_SR_Q30 }
    }

    /// Advances every parameter's filtered value by exactly one
    /// sample period, using the sample rate as it stands now — the
    /// coefficient is re-derived on every call, never cached.
    pub fn step_filter(&mut self)
        requires
            old(self).wf(),
        ensures
            final(self).wf(),
            final(self).sr == old(self).sr,
            final(self).params@ == stepped_params(old(self).params@, old(self).sr as int),
    {
        let ghost orig = self.params@;
        let ghost sr_int = self.sr as int;
        let mut i: usize = 0;
        while i < self.params.len()
            invariant
                self.wf(),
                self.sr == old(self).sr,
                self.sr as int == sr_int,
                i <= self.params@.len(),
                self.params@.len() == orig.len(),
                forall|j: int| 0 <= j < i ==> self.params@[j] == stepped_param(orig[j], sr_int),
                forall|j: int| i <= j < orig.len() ==> self.params@[j] == orig[j],
            decreases self.params@.len() - i,
        {
            let alpha = compute_alpha(self.params[i].filter_cut, self.sr);
            let stepped = step_toward(self.params[i].filtered, self.params[i].raw, alpha);
            self.params[i].filtered = stepped;
            i = i + 1;
        }
        proof {
            assert(self.params@ =~= stepped_params(orig, sr_int));
        }
    }

    /// Overwrites the shared sample rate (Q30 hertz, positive).
    pub fn set_sr(&mut self, sr: u64)
        requires
            sr >= 1,
        ensures
            final(self).wf(),
            final(self).sr == sr,
            final(self).params@ == old(self).params@,
    {
        self.sr = sr;
    }

    /// Looks a parameter up by display name: the position registered
    /// last under that name wins; an unregistered name yields nothing.
    pub fn get_param_by_name(&self, name: String) -> (found: Option<&Parameter>)
        ensures
            match last_position_of(self.params@, name@) {
                Some(position) => found matches Some(p) && *p == self.params@[position],
                None => found is None,
            },
    {
        let mut j: usize = self.params.len();
        while j > 0
            invariant
                j <= self.params@.len(),
                forall|k: int| j <= k < self.params@.len() ==> self.params@[k].display_name@ != name@,
            decreases j,
        {
            j = j - 1;
            if self.params[j].display_name == name {
                proof {
                    lemma_last_position_found(self.params@, name@, j as int);
                }
                return Some(&self.params[j]);
            }
        }
        proof {
            lemma_last_position_missing(self.params@, name@);
        }
        None
    }

    /// Host read of the raw value at `index`; 0 out of range.
    pub fn get_parameter(&self, index: i32) -> (v: i64)
        ensures
            v == raw_at(self.params@, index as int),
    {
        if 0 <= index && (index as usize) < self.params.len() {
            self.params[index as usize].raw
        } else {
            0
        }
    }

    /// Host write of the raw value at `index`; a no-op out of range.
    pub fn set_parameter(&mut self, index: i32, val: i64)
        ensures
            final(self).sr == old(self).sr,
            final(self).params@ == with_raw_at(old(self).params@, index as int, val),
    {
        if 0 <= index && (index as usize) < self.params.len() {
            self.params[index as usize].raw = val;
            proof {
                assert(self.params@ =~= with_raw_at(old(self).params@, index as int, val));
            }
        }
    }

    /// Host read of the display text at `index`; empty out of range.
    pub fn get_parameter_text(&self, index: i32) -> (text: String)
        ensures
            text@ == text_at(self.params@, index as int),
    {
        if 0 <= index && (index as usize) < self.params.len() {
            let p = &self.params[index as usize];
            p.format(p.raw)
        } else {
            String::new()
        }
    }

    /// Host read of the display name at `index`; empty out of range.
    pub fn get_parameter_name(&self, index: i32) -> (text: String)
        ensures
            text@ == name_at(self.params@, index as int),
    {
        if 0 <= index && (index as usize) < self.params.len() {
            self.params[index as usize].display_name.clone()
        } else {
            String::new()
        }
    }
}

/// Writing a raw value at a valid index and reading it back at the
/// same index yields exactly the written value.
pub proof fn lemma_set_get_round_trip(ps: Seq<Parameter>, index: int, val: i64)
    requires
        0 <= index < ps.len(),
    ensures
        raw_at(with_raw_at(ps, index, val), index) == val,
{
}

/// Out of `[0, count)` every host access is neutral: reads yield 0 or
/// empty text, and a write changes nothing — never a failure.
pub proof fn lemma_out_of_range_is_neutral(ps: Seq<Parameter>, index: int, val: i64)
    requires
        !(0 <= index < ps.len()),
    ensures
        raw_at(ps, index) == 0,
        with_raw_at(ps, index, val) == ps,
        text_at(ps, index) == Seq::<char>::empty(),
        name_at(ps, index) == Seq::<char>::empty(),
{
}

} // verus!
