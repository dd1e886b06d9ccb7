//! The parameter set this plugin exposes to the host.

use vstd::prelude::*;
use vstd::string::StringExecFns;

verus! {

use crate::parameter_manager::DEFAULT_CUT_Q30;
use crate::parameter_manager::DEFAULT_SR_Q30;
use crate::parameter_manager::Parameter;
use crate::parameter_manager::ParameterManager;
use crate::parameter_manager::ValueFormat;

/// Builds the manager over the parameters the plugin window displays
/// and the host can read and write: a single placeholder parameter.
pub fn create_parameters() -> (m: ParameterManager)
    ensures
        m.wf(),
        m.sr == DEFAULT_SR_Q30,
        m.params@.len() == 1,
        m.params@[0].raw == 0,
        m.params@[0].filtered == 0,
        m.params@[0].display_name@ == "test_param"@,
        m.params@[0].value_format == ValueFormat::TwoDecimals,
        m.params@[0].filter_cut == DEFAULT_CUT_Q30,
{
    let mut parameter_list: Vec<Parameter> = Vec::new();
    let mut placeholder = Parameter::default();
    placeholder.display_name = String::from_str("test_param");
    parameter_list.push(placeholder);
    ParameterManager::from_vec(parameter_list)
}

} // verus!
