use crate::expression::{CompiledExpression, Parser};
use crate::interpreter::compiler::{
    no_records, CompilationContext, CompilationResult, CompiledNode, ParseSite,
};
use crate::interpreter::data::{
    evaluation_of, outcome_of, Outcome, ScenarioCompilationError, ScenarioOutput,
    ScenarioRuntimeError, VarContext, VarValue,
};
use crate::interpreter::CustomNode;
use crate::scenariomodel::{cases_view, Case, Node};
use vstd::prelude::*;

verus! {

/// A switch: the first case whose predicate gives `true` runs.
pub struct CompiledSwitch<E, C> {
    pub nexts: Vec<CompiledCase<E, C>>,
}

/// One case of a switch: the predicate and what runs where it holds.
pub struct CompiledCase<E, C> {
    pub rest: Box<CompiledNode<E, C>>,
    pub expression: E,
}

impl<E: CompiledExpression, C: CustomNode> CompiledSwitch<E, C> {
    /// Runs the first case whose predicate gives `true`, on the data as it
    /// came in; where none does there is no record. A predicate that gives
    /// no boolean is an error.
    #[verifier::loop_isolation(false)]
    pub fn run(&self, data: &VarContext) -> (r: Result<ScenarioOutput, ScenarioRuntimeError>)
        ensures
            CompiledNode::Switch(*self).spec_yields(data@, outcome_of(r)),
        decreases self, 1nat,
    {
        let mut i: usize = 0;
        while i < self.nexts.len()
            invariant
                i <= self.nexts@.len(),
                forall|result: Outcome| #[trigger]
                    CompiledNode::cases_yield(self.nexts@, i as int, data@, result)
                        ==> CompiledNode::cases_yield(self.nexts@, 0, data@, result),
            decreases self.nexts@.len() - i,
        {
            let case = &self.nexts[i];
            let next_expression = case.expression.execute(data);
            let ghost ev = evaluation_of(next_expression);
            assert(self.nexts@[i as int].expression.evaluates_to(data@, ev));
            match next_expression {
                Err(e) => {
                    assert(CompiledNode::cases_yield(self.nexts@, i as int, data@, Err(e@)));
                    return Err(e);
                },
                Ok(VarValue::Bool(true)) => {
                    let result = case.rest.run_node(data);
                    assert(CompiledNode::cases_yield(
                        self.nexts@,
                        i as int,
                        data@,
                        outcome_of(result),
                    ));
                    return result;
                },
                Ok(VarValue::Bool(false)) => {
                    assert forall|result: Outcome| #[trigger]
                        CompiledNode::cases_yield(
                            self.nexts@,
                            i as int + 1,
                            data@,
                            result,
                        ) implies CompiledNode::cases_yield(self.nexts@, 0, data@, result) by {
                        assert(CompiledNode::cases_yield(self.nexts@, i as int, data@, result));
                    }
                },
                Ok(other) => {
                    let e = ScenarioRuntimeError::InvalidSwitchType(other);
                    assert(CompiledNode::cases_yield(self.nexts@, i as int, data@, Err(e@)));
                    return Err(e);
                },
            }
            i = i + 1;
        }
        let out = ScenarioOutput(Vec::new());
        assert(out@ =~= Seq::empty());
        assert(CompiledNode::cases_yield(self.nexts@, i as int, data@, no_records()));
        Ok(out)
    }
}

/// Compiles a switch: each case in turn, its predicate and then its
/// nodes, in the scope of the switch. A switch must be the last node of its
/// sequence.
#[verifier::loop_isolation(false)]
pub(crate) fn compile<P: Parser, C: CustomNode>(
    ctx: CompilationContext<P, C>,
    nexts: &Vec<Case>,
) -> (r: CompilationResult<P::Compiled, C>)
    requires
        ctx.at < ctx.nodes.len(),
        ctx.nodes@[ctx.at as int] matches Node::Switch { nexts: n, .. } && n == *nexts,
    ensures
        ctx.compiler.node_compiles_to(ctx.views(), ctx.at as int, ctx.var_names.names(), r),
    decreases ctx.nodes, ctx.nodes.len() - ctx.at, 0nat,
{
    let ghost id = ctx.views()[ctx.at as int].id();
    let ghost cases = cases_view(nexts@);
    let ghost scope = ctx.var_names.names();
    let mut compiled: Vec<CompiledCase<P::Compiled, C>> = Vec::new();
    let mut i: usize = 0;
    while i < nexts.len()
        invariant
            i <= nexts@.len(),
            compiled@.len() == i,
            ctx.compiler.cases_defect(cases, i as int, id) == ctx.compiler.cases_defect(
                cases,
                0,
                id,
            ),
            forall|e: ScenarioCompilationError| #[trigger]
                ctx.compiler.refused_in(ctx.compiler.cases_sites(cases, i as int, id, scope), e)
                    ==> ctx.compiler.refused_in(ctx.compiler.cases_sites(cases, 0, id, scope), e),
            forall|j: int|
                0 <= j < i ==> {
                    &&& ctx.compiler.parsed(
                        id,
                        cases[j].expression,
                        scope,
                        (#[trigger] compiled@[j]).expression,
                    )
                    &&& ctx.compiler.mirrors(*compiled@[j].rest, cases[j].nodes, 0, scope)
                },
        decreases nexts@.len() - i,
    {
        let case = &nexts[i];
        let ghost site = ParseSite { node_id: id, expression: case.expression@, scope };
        let ghost inner = ctx.compiler.parse_sites(cases[i as int].nodes, 0, scope);
        let ghost later = ctx.compiler.cases_sites(cases, i as int + 1, id, scope);
        let expression = match ctx.compiler.parser.parse(
            ctx.node_id(),
            &case.expression,
            ctx.var_names,
        ) {
            Ok(parsed) => parsed,
            Err(e) => {
                proof {
                    if e@ is ParseError {
                        let sites = ctx.compiler.cases_sites(cases, i as int, id, scope);
                        ctx.compiler.lemma_refused_at_first(site, inner, e);
                        if ctx.compiler.first_defect(cases[i as int].nodes, 0, id) is Some {
                            assert(sites == seq![site] + inner);
                        } else {
                            ctx.compiler.lemma_refused_in_either(seq![site] + inner, later, e);
                            assert(sites == seq![site] + inner + later);
                        }
                        assert(ctx.compiler.refused_in(sites, e));
                    }
                }
                return Err(e);
            },
        };
        let rest = match ctx.compiler.compile_next(ctx.node_id(), &case.nodes, 0, ctx.var_names) {
            Ok(rest) => rest,
            Err(e) => {
                proof {
                    if e@ is ParseError {
                        let sites = ctx.compiler.cases_sites(cases, i as int, id, scope);
                        ctx.compiler.lemma_refused_in_either(seq![site], inner, e);
                        if ctx.compiler.first_defect(cases[i as int].nodes, 0, id) is Some {
                            assert(sites == seq![site] + inner);
                        } else {
                            ctx.compiler.lemma_refused_in_either(seq![site] + inner, later, e);
                            assert(sites == seq![site] + inner + later);
                        }
                        assert(ctx.compiler.refused_in(sites, e));
                    }
                }
                return Err(e);
            },
        };
        compiled.push(CompiledCase { rest: Box::new(rest), expression });
        proof {
            assert forall|e: ScenarioCompilationError| #[trigger]
                ctx.compiler.refused_in(later, e) implies ctx.compiler.refused_in(
                ctx.compiler.cases_sites(cases, 0, id, scope),
                e,
            ) by {
                ctx.compiler.lemma_refused_in_either(seq![site] + inner, later, e);
                assert(ctx.compiler.cases_sites(cases, i as int, id, scope) == seq![site] + inner
                    + later);
                assert(ctx.compiler.refused_in(
                    ctx.compiler.cases_sites(cases, i as int, id, scope),
                    e,
                ));
            }
        }
        i = i + 1;
    }
    ctx.assert_end(CompiledNode::Switch(CompiledSwitch { nexts: compiled }))
}

} // verus!
