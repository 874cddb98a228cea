use crate::expression::{CompiledExpression, Parser};
use crate::interpreter::compiler::{
    extended, CompilationContext, CompilationResult, CompiledNode, ParseSite,
};
use crate::interpreter::data::{
    evaluation_of, outcome_of, ScenarioOutput, ScenarioRuntimeError, VarContext,
};
use crate::interpreter::CustomNode;
use crate::scenariomodel::{Expression, Node};
use vstd::prelude::*;

verus! {

/// A variable: the value of the expression is bound for what follows.
pub struct CompiledVariable<E, C> {
    pub rest: Box<CompiledNode<E, C>>,
    pub expression: E,
    pub var_name: String,
}

impl<E: CompiledExpression, C: CustomNode> CompiledVariable<E, C> {
    /// Evaluates the expression and runs what follows with the value bound
    /// to the name; a binding of the same name is replaced.
    pub fn run(&self, data: &VarContext) -> (r: Result<ScenarioOutput, ScenarioRuntimeError>)
        ensures
            CompiledNode::Variable(*self).spec_yields(data@, outcome_of(r)),
        decreases self, 1nat,
    {
        let result = self.expression.execute(data);
        let ghost ev = evaluation_of(result);
        assert(self.expression.evaluates_to(data@, ev));
        match result {
            Err(e) => Err(e),
            Ok(value) => {
                let with_var = data.with_new_var(self.var_name.as_str(), value);
                self.rest.run_node(&with_var)
            },
        }
    }
}

/// Compiles a variable: its expression in the scope of the node, then what
/// follows it with the name in scope.
pub(crate) fn compile<P: Parser, C: CustomNode>(
    ctx: CompilationContext<P, C>,
    var_name: &String,
    raw_expression: &Expression,
) -> (r: CompilationResult<P::Compiled, C>)
    requires
        ctx.at < ctx.nodes.len(),
        ctx.nodes@[ctx.at as int] matches Node::Variable { var_name: n, value: e, .. } && n
            == *var_name && e == *raw_expression,
    ensures
        ctx.compiler.node_compiles_to(ctx.views(), ctx.at as int, ctx.var_names.names(), r),
    decreases ctx.nodes, ctx.nodes.len() - ctx.at, 0nat,
{
    let ghost site = ParseSite {
        node_id: ctx.views()[ctx.at as int].id(),
        expression: raw_expression@,
        scope: ctx.var_names.names(),
    };
    let expression = match ctx.compiler.parser.parse(
        ctx.node_id(),
        raw_expression,
        ctx.var_names,
    ) {
        Ok(parsed) => parsed,
        Err(e) => {
            proof {
                if e@ is ParseError {
                    ctx.compiler.lemma_refused_at_first(site, Seq::empty(), e);
                    ctx.compiler.lemma_refused_at_first(
                        site,
                        ctx.compiler.parse_sites(
                            ctx.views(),
                            ctx.at + 1,
                            extended(ctx.var_names.names(), var_name@),
                        ),
                        e,
                    );
                    assert(seq![site] + Seq::<ParseSite>::empty() =~= seq![site]);
                }
            }
            return Err(e);
        },
    };
    let scope = match ctx.var_names.with_var(ctx.node_id(), var_name.as_str()) {
        Ok(scope) => scope,
        Err(e) => {
            return Err(e);
        },
    };
    let ghost later = ctx.compiler.parse_sites(ctx.views(), ctx.at + 1, scope.names());
    let rest = match ctx.compiler.compile_next(ctx.node_id(), ctx.nodes, ctx.at + 1, &scope) {
        Ok(rest) => rest,
        Err(e) => {
            proof {
                if e@ is ParseError {
                    ctx.compiler.lemma_refused_in_either(seq![site], later, e);
                }
            }
            return Err(e);
        },
    };
    Ok(
        CompiledNode::Variable(
            CompiledVariable { rest: Box::new(rest), expression, var_name: var_name.clone() },
        ),
    )
}

} // verus!
