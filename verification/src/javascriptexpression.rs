//! The JavaScript language. The expression is wrapped into a function of one
//! argument, the map of the variables in scope, which the function takes
//! apart by name before it returns the value of the expression. The engine
//! that compiles and runs the function is a script host, given from outside.
use crate::expression::{CompiledExpression, ParseError, Parser};
use crate::interpreter::data::{
    evaluation_of, share, Bindings, CompilationVarContext, Evaluation, ExpressionFailure,
    ExpressionFailureView, RuntimeErrorView, ScenarioRuntimeError, VarContext, VarValue,
};
use crate::namemap::NameMap;
use std::sync::Arc;
use vstd::prelude::*;
use vstd::std_specs::convert::FromSpecImpl;

verus! {

/// Why evaluating a JavaScript expression failed.
#[derive(Debug, PartialEq, Eq)]
pub enum JavascriptExecutionError {
    /// The transformed source did not compile.
    ScriptParse(String),
    /// The context could not be handed to the script host.
    InputParse(String),
    /// The script host threw while running the expression.
    RuntimeError(String),
}

/// The mathematical view of a JavaScript failure.
pub enum JavascriptExecutionErrorView {
    ScriptParse(Seq<char>),
    InputParse(Seq<char>),
    RuntimeError(Seq<char>),
}

impl View for JavascriptExecutionError {
    type V = JavascriptExecutionErrorView;

    open spec fn view(&self) -> JavascriptExecutionErrorView {
        match self {
            JavascriptExecutionError::ScriptParse(m) => JavascriptExecutionErrorView::ScriptParse(m@),
            JavascriptExecutionError::InputParse(m) => JavascriptExecutionErrorView::InputParse(m@),
            JavascriptExecutionError::RuntimeError(m) => JavascriptExecutionErrorView::RuntimeError(
                m@,
            ),
        }
    }
}

impl From<JavascriptExecutionError> for ScenarioRuntimeError {
    fn from(error: JavascriptExecutionError) -> (r: ScenarioRuntimeError) {
        ScenarioRuntimeError::ExpressionError(ExpressionFailure::Javascript(error))
    }
}

impl FromSpecImpl<JavascriptExecutionError> for ScenarioRuntimeError {
    open spec fn obeys_from_spec() -> bool {
        true
    }

    open spec fn from_spec(error: JavascriptExecutionError) -> ScenarioRuntimeError {
        ScenarioRuntimeError::ExpressionError(ExpressionFailure::Javascript(error))
    }
}

/// The engine that compiles and runs JavaScript. A host may change its own
/// state on each call, so a host that is shared between threads has to keep
/// the calls apart itself.
pub trait ScriptHost {
    /// Compiles `source` without running it; the report where it does not
    /// compile.
    fn compile(&self, source: &str) -> Result<(), String>;

    /// Calls the function `run` of `source` with `arguments` as its one
    /// argument.
    fn call(&self, source: &str, arguments: &NameMap<VarValue>) -> Result<
        VarValue,
        JavascriptExecutionError,
    >;
}

/// The names, one after the other, with `, ` between them.
pub open spec fn joined_names(names: Seq<Seq<char>>) -> Seq<char>
    decreases names.len(),
{
    if names.len() == 0 {
        Seq::empty()
    } else if names.len() == 1 {
        names[0]
    } else {
        joined_names(names.drop_last()) + ", "@ + names.last()
    }
}

/// The source of the function that evaluates `expression` with the names
/// `names` in scope.
pub open spec fn wrapper_source(names: Seq<Seq<char>>, expression: Seq<char>) -> Seq<char> {
    "function run (argMap) {\n            const { "@ + joined_names(names)
        + " } = argMap\n            return ("@ + expression + ")\n        }"@
}

/// What the JavaScript parser reports when the host refuses a source.
#[derive(Debug, PartialEq, Eq)]
pub struct JavascriptParseError(pub String);

impl ParseError for JavascriptParseError {
    open spec fn reports(&self, text: Seq<char>) -> bool {
        text == "Cannot parse: "@ + self.0@
    }

    fn message(&self) -> (r: String) {
        let mut text = String::from_str("Cannot parse: ");
        text.append(self.0.as_str());
        text
    }
}

/// The JavaScript language, on a script host.
pub struct JavaScriptParser<H: ScriptHost> {
    pub host: Arc<H>,
}

/// A JavaScript expression, wrapped and checked, on a script host.
pub struct JavascriptExpression<H: ScriptHost> {
    pub host: Arc<H>,
    pub transformed: String,
}

impl<H: ScriptHost> JavaScriptParser<H> {
    /// The JavaScript language on the given host.
    pub fn new(host: Arc<H>) -> (r: JavaScriptParser<H>)
        ensures
            r.host == host,
    {
        JavaScriptParser { host }
    }

    /// The source of the function that evaluates `expression` with the
    /// variables of `var_context` in scope.
    pub fn transform(expression: &str, var_context: &CompilationVarContext) -> (r: String)
        ensures
            r@ == wrapper_source(var_context.names(), expression@),
    {
        let names = var_context.to_names();
        let ghost views = names@.map_values(|s: String| s@);
        let mut keys = String::from_str("");
        let mut i: usize = 0;
        proof {
            reveal_strlit("");
            assert(views.take(0) =~= Seq::empty());
            assert(keys@ =~= joined_names(views.take(0)));
        }
        while i < names.len()
            invariant
                i <= names@.len(),
                views == names@.map_values(|s: String| s@),
                keys@ == joined_names(views.take(i as int)),
            decreases names@.len() - i,
        {
            let ghost before = keys@;
            if i > 0 {
                keys.append(", ");
            }
            keys.append(names[i].as_str());
            proof {
                let now = views.take(i + 1);
                assert(now.drop_last() =~= views.take(i as int));
                assert(now.last() == names@[i as int]@);
                if i == 0 {
                    assert(before =~= Seq::empty());
                    assert(keys@ =~= names@[0]@);
                    assert(now.len() == 1);
                    assert(now[0] == names@[0]@);
                }
            }
            i = i + 1;
        }
        proof {
            assert(views.take(names@.len() as int) =~= views);
        }
        let mut expanded = String::from_str("function run (argMap) {\n            const { ");
        expanded.append(keys.as_str());
        expanded.append(" } = argMap\n            return (");
        expanded.append(expression);
        expanded.append(")\n        }");
        expanded
    }
}

/// Parsing wraps the expression and has the host compile the source, to see
/// whether the expression is correct; the host's report is the refusal.
impl<H: ScriptHost> Parser for JavaScriptParser<H> {
    type Compiled = JavascriptExpression<H>;

    type Error = JavascriptParseError;

    open spec fn parses_to(
        &self,
        expression: Seq<char>,
        scope: Seq<Seq<char>>,
        result: Result<JavascriptExpression<H>, JavascriptParseError>,
    ) -> bool {
        result matches Ok(compiled) ==> compiled.transformed@ == wrapper_source(scope, expression)
            && compiled.host == self.host
    }

    fn parse(&self, expression: &str, var_context: &CompilationVarContext) -> (r: Result<
        JavascriptExpression<H>,
        JavascriptParseError,
    >) {
        let expanded = Self::transform(expression, var_context);
        // the host compiles the source and does not run it: it says whether
        // the expression is well formed
        let compiled = self.host.compile(expanded.as_str());
        self.checked(expanded, compiled)
    }
}

/// What evaluating gives for what the host's call gave: the value, or the
/// failure as an `ExpressionError`.
pub open spec fn javascript_evaluation(called: Result<VarValue, JavascriptExecutionError>) -> Evaluation {
    match called {
        Ok(value) => Ok(value@),
        Err(error) => Err(
            RuntimeErrorView::ExpressionError(ExpressionFailureView::Javascript(error@)),
        ),
    }
}

impl<H: ScriptHost> JavascriptExpression<H> {
    /// What evaluating gives for what the host's call gave.
    pub fn outcome(called: Result<VarValue, JavascriptExecutionError>) -> (r: Result<
        VarValue,
        ScenarioRuntimeError,
    >)
        ensures
            evaluation_of(r) == javascript_evaluation(called),
    {
        match called {
            Ok(value) => Ok(value),
            Err(error) => Err(ScenarioRuntimeError::from(error)),
        }
    }
}

impl<H: ScriptHost> CompiledExpression for JavascriptExpression<H> {
    open spec fn evaluates_to(&self, data: Bindings, result: Evaluation) -> bool {
        result matches Err(e) ==> e matches RuntimeErrorView::ExpressionError(
            ExpressionFailureView::Javascript(_),
        )
    }

    fn execute(&self, input_data: &VarContext) -> (r: Result<VarValue, ScenarioRuntimeError>) {
        let converted = input_data.to_external_form();
        Self::outcome(self.host.call(self.transformed.as_str(), &converted))
    }
}

/// What parsing gives for what the host made of the source: the expression
/// on that host, with the source as it was compiled, or the host's report as
/// the refusal.
pub open spec fn javascript_parsing<H: ScriptHost>(
    host: Arc<H>,
    source: String,
    compiled: Result<(), String>,
) -> Result<JavascriptExpression<H>, JavascriptParseError> {
    match compiled {
        Ok(()) => Ok(JavascriptExpression { host, transformed: source }),
        Err(report) => Err(JavascriptParseError(report)),
    }
}

impl<H: ScriptHost> JavaScriptParser<H> {
    /// What parsing gives for what the host made of the source.
    pub fn checked(&self, source: String, compiled: Result<(), String>) -> (r: Result<
        JavascriptExpression<H>,
        JavascriptParseError,
    >)
        ensures
            r == javascript_parsing(self.host, source, compiled),
    {
        match compiled {
            Ok(()) => Ok(JavascriptExpression { host: share(&self.host), transformed: source }),
            Err(report) => Err(JavascriptParseError(report)),
        }
    }
}

} // verus!
