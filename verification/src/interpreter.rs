//! The two contracts of the engine: a compiled scenario, which turns a
//! context into output, and a custom node, which decides how often and on
//! what the rest of the scenario runs.
use crate::interpreter::data::{
    bindings_of, outcome_of, values_view, Bindings, JsonValue, Outcome, RuntimeErrorView,
    ScenarioOutput, ScenarioRuntimeError, VarContext, VarValue,
};
use crate::namemap::NameMap;
use vstd::prelude::*;

pub mod compiler;
pub mod data;

verus! {

/// A compiled scenario, or a part of one: it turns a context into the
/// records that reach the sinks.
pub trait Interpreter {
    /// Whether running on the bindings `data` may give `result`. An
    /// implementation that says nothing admits every result.
    open spec fn yields(&self, data: Bindings, result: Outcome) -> bool {
        true
    }

    fn run(&self, data: &VarContext) -> (r: Result<ScenarioOutput, ScenarioRuntimeError>)
        ensures
            self.yields(data@, outcome_of(r)),
    ;
}

/// What a custom node decides: the values on which the rest of the scenario
/// runs, each in turn bound to the output variable, or an error.
pub type Expansion = Result<Seq<JsonValue>, RuntimeErrorView>;

/// The view of what a custom node decided.
pub open spec fn expansion_of(r: Result<Vec<VarValue>, ScenarioRuntimeError>) -> Expansion {
    match r {
        Ok(values) => Ok(values_view(values@)),
        Err(e) => Err(e@),
    }
}

/// A component that can be plugged into a scenario. It gets its evaluated
/// parameters and the context as it came in, and decides how often the rest
/// of the scenario runs, also not at all, and with which value bound to the
/// output variable each time. The outputs of those runs, in order, are the
/// output of the node.
pub trait CustomNode {
    /// Whether these parameters, on the bindings `input`, may give `result`.
    /// An implementation that says nothing admits every result.
    open spec fn expands_to(&self, parameters: Bindings, input: Bindings, result: Expansion) -> bool {
        true
    }

    fn expand(&self, parameters: &NameMap<VarValue>, input: &VarContext) -> (r: Result<
        Vec<VarValue>,
        ScenarioRuntimeError,
    >)
        ensures
            self.expands_to(bindings_of(parameters@), input@, expansion_of(r)),
    ;
}

} // verus!
