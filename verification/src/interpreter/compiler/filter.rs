use crate::expression::{CompiledExpression, Parser};
use crate::interpreter::compiler::{CompilationContext, CompilationResult, CompiledNode, ParseSite};
use crate::interpreter::data::{
    evaluation_of, outcome_of, ScenarioOutput, ScenarioRuntimeError, VarContext, VarValue,
};
use crate::interpreter::CustomNode;
use crate::scenariomodel::{Expression, Node};
use vstd::prelude::*;

verus! {

/// A filter: the data passes where the predicate gives `true`.
pub struct CompiledFilter<E, C> {
    pub rest: Box<CompiledNode<E, C>>,
    pub expression: E,
}

impl<E: CompiledExpression, C: CustomNode> CompiledFilter<E, C> {
    /// Runs what follows where the predicate gives `true`, gives no record
    /// where it gives `false`; any other value is an error.
    pub fn run(&self, data: &VarContext) -> (r: Result<ScenarioOutput, ScenarioRuntimeError>)
        ensures
            CompiledNode::Filter(*self).spec_yields(data@, outcome_of(r)),
        decreases self, 1nat,
    {
        let result = self.expression.execute(data);
        let ghost ev = evaluation_of(result);
        assert(self.expression.evaluates_to(data@, ev));
        match result {
            Err(e) => Err(e),
            Ok(VarValue::Bool(true)) => self.rest.run_node(data),
            Ok(VarValue::Bool(false)) => {
                let out = ScenarioOutput(Vec::new());
                assert(out@ =~= Seq::empty());
                Ok(out)
            },
            Ok(other) => Err(ScenarioRuntimeError::InvalidFilterType(other)),
        }
    }
}

/// Compiles a filter: its predicate, then what follows it in the same
/// scope.
pub(crate) fn compile<P: Parser, C: CustomNode>(
    ctx: CompilationContext<P, C>,
    expression: &Expression,
) -> (r: CompilationResult<P::Compiled, C>)
    requires
        ctx.at < ctx.nodes.len(),
        ctx.nodes@[ctx.at as int] matches Node::Filter { expression: e, .. } && e == *expression,
    ensures
        ctx.compiler.node_compiles_to(ctx.views(), ctx.at as int, ctx.var_names.names(), r),
    decreases ctx.nodes, ctx.nodes.len() - ctx.at, 0nat,
{
    let ghost site = ParseSite {
        node_id: ctx.views()[ctx.at as int].id(),
        expression: expression@,
        scope: ctx.var_names.names(),
    };
    let ghost later = ctx.compiler.parse_sites(ctx.views(), ctx.at + 1, ctx.var_names.names());
    let expression = match ctx.compiler.parser.parse(ctx.node_id(), expression, ctx.var_names) {
        Ok(parsed) => parsed,
        Err(e) => {
            proof {
                if e@ is ParseError {
                    ctx.compiler.lemma_refused_at_first(site, later, e);
                }
            }
            return Err(e);
        },
    };
    let rest = match ctx.compiler.compile_next(ctx.node_id(), ctx.nodes, ctx.at + 1, ctx.var_names) {
        Ok(rest) => rest,
        Err(e) => {
            proof {
                if e@ is ParseError {
                    ctx.compiler.lemma_refused_in_either(seq![site], later, e);
                }
            }
            return Err(e);
        },
    };
    Ok(CompiledNode::Filter(CompiledFilter { rest: Box::new(rest), expression }))
}

} // verus!
