use crate::expression::{CompiledExpression, Parser};
use crate::interpreter::compiler::{
    considered, followed_by, no_records, prefixed, records_of, CompilationContext,
    CompilationResult, CompiledNode,
};
use crate::interpreter::data::{
    outcome_of, Outcome, OutputRecord, RuntimeErrorView, ScenarioCompilationError,
    ScenarioOutput, ScenarioRuntimeError, SingleScenarioOutput, VarContext,
};
use crate::interpreter::CustomNode;
use crate::scenariomodel::{branches_view, Node};
use vstd::prelude::*;

verus! {

/// A split: every branch runs on the same data.
pub struct CompiledSplit<E, C> {
    pub nexts: Vec<CompiledNode<E, C>>,
}

impl<E: CompiledExpression, C: CustomNode> CompiledSplit<E, C> {
    /// Runs every branch on the data as it came in and gives their records
    /// in the order of the branches.
    #[verifier::loop_isolation(false)]
    pub fn run(&self, data: &VarContext) -> (r: Result<ScenarioOutput, ScenarioRuntimeError>)
        ensures
            CompiledNode::Split(*self).spec_yields(data@, outcome_of(r)),
        decreases self, 1nat,
    {
        let mut out: Vec<SingleScenarioOutput> = Vec::new();
        let mut i: usize = 0;
        assert(records_of(out@) =~= Seq::empty());
        assert forall|tail: Outcome| #[trigger]
            CompiledNode::branches_yield(self.nexts@, 0, data@, tail) implies CompiledNode::branches_yield(
            self.nexts@,
            0,
            data@,
            prefixed(records_of(out@), tail),
        ) by {
            assert(prefixed(records_of(out@), tail) == tail) by {
                if let Ok(records) = tail {
                    assert(Seq::<OutputRecord>::empty() + records =~= records);
                }
            }
        }
        while i < self.nexts.len()
            invariant
                i <= self.nexts@.len(),
                forall|tail: Outcome| #[trigger]
                    CompiledNode::branches_yield(self.nexts@, i as int, data@, tail)
                        ==> CompiledNode::branches_yield(
                        self.nexts@,
                        0,
                        data@,
                        prefixed(records_of(out@), tail),
                    ),
            decreases self.nexts@.len() - i,
        {
            let ghost so_far = records_of(out@);
            let branch = self.nexts[i].run_node(data);
            let ghost first = outcome_of(branch);
            assert(considered(first));
            match branch {
                Err(e) => {
                    assert(CompiledNode::branches_yield(self.nexts@, i as int, data@, Err(e@)));
                    return Err(e);
                },
                Ok(part) => {
                    let mut records = part.0;
                    let ghost head = records_of(records@);
                    out.append(&mut records);
                    proof {
                        assert(records_of(out@) =~= so_far + head);
                        assert forall|tail: Outcome| #[trigger]
                            CompiledNode::branches_yield(
                                self.nexts@,
                                i as int + 1,
                                data@,
                                tail,
                            ) implies CompiledNode::branches_yield(
                            self.nexts@,
                            0,
                            data@,
                            prefixed(records_of(out@), tail),
                        ) by {
                            let here = prefixed(head, tail);
                            assert(followed_by(head, tail, here));
                            assert(considered(tail) && considered(first));
                            assert(CompiledNode::branches_yield(self.nexts@, i as int, data@, here));
                            assert(prefixed(so_far, here) == prefixed(so_far + head, tail)) by {
                                if let Ok(records) = tail {
                                    assert(so_far + (head + records) =~= (so_far + head) + records);
                                }
                            }
                        }
                    }
                },
            }
            i = i + 1;
        }
        let result = ScenarioOutput(out);
        proof {
            assert(CompiledNode::branches_yield(self.nexts@, i as int, data@, no_records()));
            assert(prefixed(records_of(out@), no_records()) == Ok::<
                Seq<OutputRecord>,
                RuntimeErrorView,
            >(result@)) by {
                assert(records_of(out@) + Seq::<OutputRecord>::empty() =~= result@);
            }
        }
        Ok(result)
    }
}

/// Compiles a split: each branch in turn, in the scope of the split. A
/// split must be the last node of its sequence.
#[verifier::loop_isolation(false)]
pub(crate) fn compile<P: Parser, C: CustomNode>(
    ctx: CompilationContext<P, C>,
    nexts: &Vec<Vec<Node>>,
) -> (r: CompilationResult<P::Compiled, C>)
    requires
        ctx.at < ctx.nodes.len(),
        ctx.nodes@[ctx.at as int] matches Node::Split { nexts: n, .. } && n == *nexts,
    ensures
        ctx.compiler.node_compiles_to(ctx.views(), ctx.at as int, ctx.var_names.names(), r),
    decreases ctx.nodes, ctx.nodes.len() - ctx.at, 0nat,
{
    let ghost id = ctx.views()[ctx.at as int].id();
    let ghost branches = branches_view(nexts@);
    let ghost scope = ctx.var_names.names();
    let mut compiled: Vec<CompiledNode<P::Compiled, C>> = Vec::new();
    let mut i: usize = 0;
    while i < nexts.len()
        invariant
            i <= nexts@.len(),
            compiled@.len() == i,
            ctx.compiler.branches_defect(branches, i as int, id) == ctx.compiler.branches_defect(
                branches,
                0,
                id,
            ),
            forall|e: ScenarioCompilationError| #[trigger]
                ctx.compiler.refused_in(
                    ctx.compiler.branches_sites(branches, i as int, id, scope),
                    e,
                ) ==> ctx.compiler.refused_in(ctx.compiler.branches_sites(branches, 0, id, scope), e),
            forall|j: int|
                0 <= j < i ==> ctx.compiler.mirrors(#[trigger] compiled@[j], branches[j], 0, scope),
        decreases nexts@.len() - i,
    {
        let ghost here = ctx.compiler.parse_sites(branches[i as int], 0, scope);
        let ghost later = ctx.compiler.branches_sites(branches, i as int + 1, id, scope);
        match ctx.compiler.compile_next(ctx.node_id(), &nexts[i], 0, ctx.var_names) {
            Ok(branch) => {
                compiled.push(branch);
                proof {
                    assert forall|e: ScenarioCompilationError| #[trigger]
                        ctx.compiler.refused_in(later, e) implies ctx.compiler.refused_in(
                        ctx.compiler.branches_sites(branches, 0, id, scope),
                        e,
                    ) by {
                        ctx.compiler.lemma_refused_in_either(here, later, e);
                        assert(ctx.compiler.branches_sites(branches, i as int, id, scope) == here
                            + later);
                        assert(ctx.compiler.refused_in(
                            ctx.compiler.branches_sites(branches, i as int, id, scope),
                            e,
                        ));
                    }
                }
            },
            Err(e) => {
                proof {
                    if e@ is ParseError {
                        let sites = ctx.compiler.branches_sites(branches, i as int, id, scope);
                        if ctx.compiler.first_defect(branches[i as int], 0, id) is Some {
                            assert(sites == here);
                        } else {
                            ctx.compiler.lemma_refused_in_either(here, later, e);
                            assert(sites == here + later);
                        }
                        assert(ctx.compiler.refused_in(sites, e));
                    }
                }
                return Err(e);
            },
        }
        i = i + 1;
    }
    ctx.assert_end(CompiledNode::Split(CompiledSplit { nexts: compiled }))
}

} // verus!
