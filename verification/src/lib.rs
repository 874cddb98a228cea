//! Runs scenarios: a scenario, a pipeline of typed nodes, is compiled into a
//! tree of executable nodes, and the tree turns each input into the records
//! that reach its sinks.
use crate::customnodes::ForEach;
use crate::expression::LanguageParser;
use crate::interpreter::compiler::{CompilationResult, Compiler, FOR_EACH};
use crate::interpreter::data::{
    input_name, json_reading, outcome_of, read_json, Bindings, JsonValue, Outcome, OutputRecord,
    RuntimeErrorView, ScenarioOutput, ScenarioRuntimeError, VarContext, VarValue,
};
use crate::interpreter::Interpreter;
use crate::javascriptexpression::{JavaScriptParser, JavascriptExpression, ScriptHost};
use crate::scenariomodel::{nodes_view, Scenario};
use std::sync::Arc;
use vstd::prelude::*;

pub mod customnodes;
pub mod expression;
pub mod interpreter;
pub mod javascriptexpression;
pub mod laws;
pub mod namemap;
pub mod scenariomodel;
pub mod text;

verus! {

/// The name under which the JavaScript language is registered.
pub const JAVASCRIPT: &'static str = "javascript";

/// Whether a compiler knows what comes with the library and nothing else:
/// the JavaScript language, on the given host, and `forEach`.
pub open spec fn is_default_compiler<H: ScriptHost>(
    compiler: Compiler<JavaScriptParser<H>, ForEach>,
    host: Arc<H>,
) -> bool {
    &&& compiler.parser.languages() == Map::<Seq<char>, JavaScriptParser<H>>::empty().insert(
        JAVASCRIPT@,
        JavaScriptParser { host },
    )
    &&& compiler.custom_nodes@ == Map::<Seq<char>, Arc<ForEach>>::empty().insert(
        FOR_EACH@,
        Arc::new(ForEach),
    )
}

/// The compiler with what comes with the library: the JavaScript language,
/// on the given host, and `forEach`.
pub fn default_compiler<H: ScriptHost>(host: Arc<H>) -> (r: Compiler<JavaScriptParser<H>, ForEach>)
    ensures
        is_default_compiler(r, host),
{
    let languages = LanguageParser::new().with_language(JAVASCRIPT, JavaScriptParser::new(host));
    Compiler::with_languages(languages)
}

/// Compiles a scenario with what comes with the library.
pub fn create_interpreter<H: ScriptHost>(scenario: &Scenario, host: Arc<H>) -> (r:
    CompilationResult<JavascriptExpression<H>, ForEach>)
    ensures
        exists|compiler: Compiler<JavaScriptParser<H>, ForEach>|
            is_default_compiler(compiler, host) && #[trigger] compiler.scenario_compiles_to(
                nodes_view(scenario.nodes@),
                r,
            ),
{
    let compiler = default_compiler(host);
    compiler.compile(scenario)
}

/// What an invocation gives for what reading its input gave: where the
/// input is no JSON value, `CannotParseInput` with the reader's report; else
/// what the scenario may give with the value bound under the default input
/// name and nothing else in scope.
pub open spec fn invocation_yields<I: Interpreter>(
    runtime: &I,
    read: Result<JsonValue, Seq<char>>,
    result: Outcome,
) -> bool {
    match read {
        Ok(value) => runtime.yields(Bindings::empty().insert(input_name(), value), result),
        Err(report) => result == Err::<Seq<OutputRecord>, RuntimeErrorView>(
            RuntimeErrorView::CannotParseInput(report),
        ),
    }
}

/// Runs a compiled scenario on an input that has been read.
pub fn invoke_on<I: Interpreter>(runtime: &I, read: Result<VarValue, String>) -> (r: Result<
    ScenarioOutput,
    ScenarioRuntimeError,
>)
    ensures
        invocation_yields(
            runtime,
            match read {
                Ok(value) => Ok(value@),
                Err(report) => Err(report@),
            },
            outcome_of(r),
        ),
{
    match read {
        Ok(value) => runtime.run(&VarContext::default_context_for_value(value)),
        Err(report) => Err(ScenarioRuntimeError::CannotParseInput(report)),
    }
}

/// Runs a compiled scenario on an input: the text is read as one JSON
/// value, which is bound under the default input name.
pub fn invoke_interpreter<I: Interpreter>(runtime: &I, input: &str) -> (r: Result<
    ScenarioOutput,
    ScenarioRuntimeError,
>)
    ensures
        invocation_yields(runtime, json_reading(input@), outcome_of(r)),
{
    invoke_on(runtime, read_json(input))
}

} // verus!
