//! Expressions: what a language must offer to take part in a scenario, and
//! the registry that picks the language by its name.
use crate::interpreter::data::{
    evaluation_of, Bindings, CompilationErrorView, CompilationVarContext, Evaluation,
    ScenarioCompilationError, ScenarioRuntimeError, VarContext, VarValue,
};
use crate::namemap::NameMap;
use crate::scenariomodel::{Expression, ExpressionView, NodeId};
use vstd::prelude::*;

verus! {

/// What a parser reports when it refuses an expression.
pub trait ParseError {
    /// Whether `text` may be the text of this report. An implementation that
    /// says nothing admits every text.
    open spec fn reports(&self, text: Seq<char>) -> bool {
        true
    }

    /// The report, as text.
    fn message(&self) -> (r: String)
        ensures
            self.reports(r@),
    ;
}

/// An expression that has been parsed and can be evaluated, any number of
/// times, on a context that it leaves as it is.
pub trait CompiledExpression {
    /// Whether evaluating on the bindings `data` may give `result`. An
    /// implementation that says nothing admits every result.
    open spec fn evaluates_to(&self, data: Bindings, result: Evaluation) -> bool {
        true
    }

    fn execute(&self, data: &VarContext) -> (r: Result<VarValue, ScenarioRuntimeError>)
        ensures
            self.evaluates_to(data@, evaluation_of(r)),
    ;
}

/// A language: it turns the text of an expression into something that can be
/// evaluated. The names in scope are handed over; whether the text may name
/// others is for the language to say.
pub trait Parser {
    /// What the language makes of an expression that it accepts.
    type Compiled: CompiledExpression;

    /// What the language reports of an expression that it refuses.
    type Error: ParseError;

    /// Whether parsing `expression` with the names `scope` in scope may give
    /// `result`. An implementation that says nothing admits every result.
    open spec fn parses_to(
        &self,
        expression: Seq<char>,
        scope: Seq<Seq<char>>,
        result: Result<Self::Compiled, Self::Error>,
    ) -> bool {
        true
    }

    fn parse(&self, expression: &str, var_context: &CompilationVarContext) -> (r: Result<
        Self::Compiled,
        Self::Error,
    >)
        ensures
            self.parses_to(expression@, var_context.names(), r),
    ;
}

/// The languages known to a compiler, by name.
pub struct LanguageParser<P: Parser> {
    parsers: NameMap<P>,
}

impl<P: Parser> LanguageParser<P> {
    /// The registered languages, by name.
    pub closed spec fn languages(&self) -> Map<Seq<char>, P> {
        self.parsers@
    }

    /// The registry that knows no language.
    pub fn new() -> (r: LanguageParser<P>)
        ensures
            r.languages() == Map::<Seq<char>, P>::empty(),
    {
        LanguageParser { parsers: NameMap::new() }
    }

    /// The registry with one more language; a language registered again
    /// under the same name replaces the earlier one.
    pub fn with_language(self, name: &str, parser: P) -> (r: LanguageParser<P>)
        ensures
            r.languages() == self.languages().insert(name@, parser),
    {
        LanguageParser { parsers: self.parsers.with(name.to_owned(), parser) }
    }

    /// Whether parsing `expression` for the node `node_id` may give `result`:
    /// `UnknownLanguage` exactly where the language is not registered, else
    /// what the language's parser gives, the text of its report wrapped as
    /// `ParseError`.
    pub open spec fn parses_to(
        &self,
        node_id: Seq<char>,
        expression: ExpressionView,
        scope: Seq<Seq<char>>,
        result: Result<P::Compiled, ScenarioCompilationError>,
    ) -> bool {
        if !self.languages().contains_key(expression.language) {
            result is Err && result->Err_0@ == (CompilationErrorView::UnknownLanguage {
                node_id,
                language: expression.language,
            })
        } else {
            let parser = self.languages()[expression.language];
            match result {
                Ok(compiled) => parser.parses_to(expression.expression, scope, Ok(compiled)),
                Err(e) => exists|refusal: P::Error|
                    {
                        &&& #[trigger] parser.parses_to(
                            expression.expression,
                            scope,
                            Err(refusal),
                        )
                        &&& e@ matches CompilationErrorView::ParseError { node_id: at, error }
                        &&& at == node_id
                        &&& refusal.reports(error)
                    },
            }
        }
    }

    /// Parses an expression in the language that it names.
    pub fn parse(
        &self,
        node_id: &NodeId,
        expression: &Expression,
        var_context: &CompilationVarContext,
    ) -> (r: Result<P::Compiled, ScenarioCompilationError>)
        ensures
            self.parses_to(node_id@, expression@, var_context.names(), r),
    {
        match self.parsers.get(expression.language.as_str()) {
            None => Err(
                ScenarioCompilationError::UnknownLanguage {
                    node_id: node_id.clone(),
                    language: expression.language.clone(),
                },
            ),
            Some(parser) => match parser.parse(expression.expression.as_str(), var_context) {
                Ok(compiled) => Ok(compiled),
                Err(refusal) => {
                    let e = ScenarioCompilationError::ParseError {
                        node_id: node_id.clone(),
                        error: refusal.message(),
                    };
                    assert(parser.parses_to(
                        expression@.expression,
                        var_context.names(),
                        Err(refusal),
                    ));
                    Err(e)
                },
            },
        }
    }
}

} // verus!
