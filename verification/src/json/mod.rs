pub mod object;
pub mod parser;

use crate::error::CompileError;
use crate::json::object::JObject;
use crate::json::parser::{json_result_is, StateMachine};
use vstd::prelude::*;
use vstd::string::StringSliceAdditionalSpecFns;

verus! {

/// Reads a JSON text.
pub fn parse_json(raw_content: &str) -> (r: Result<JObject, CompileError>)
    ensures
        json_result_is(raw_content.spec_bytes(), r),
{
    let mut state_machine = StateMachine::new(raw_content);
    state_machine.process()
}

} // verus!
