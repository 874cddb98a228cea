use crate::expression::Parser;
use crate::interpreter::compiler::{CompilationContext, CompilationResult, CompiledNode};
use crate::interpreter::data::{
    outcome_of, OutputRecord, RuntimeErrorView, ScenarioOutput, ScenarioRuntimeError,
    SingleScenarioOutput, VarContext,
};
use crate::interpreter::CustomNode;
use crate::scenariomodel::{Node, NodeId};
use vstd::prelude::*;

verus! {

/// A sink: it emits the variables in scope, labelled with its identifier.
pub struct CompiledSink {
    pub node_id: NodeId,
}

impl CompiledSink {
    /// One record: this sink and the bindings as they came in.
    pub fn run(&self, data: &VarContext) -> (r: Result<ScenarioOutput, ScenarioRuntimeError>)
        ensures
            outcome_of(r) == Ok::<Seq<OutputRecord>, RuntimeErrorView>(
                seq![OutputRecord { node_id: self.node_id@, variables: data@ }],
            ),
    {
        let record = SingleScenarioOutput {
            node_id: self.node_id.clone(),
            variables: data.to_external_form(),
        };
        let out = ScenarioOutput(vec![record]);
        assert(out@ =~= seq![OutputRecord { node_id: self.node_id@, variables: data@ }]);
        Ok(out)
    }
}

/// Compiles a sink: it must be the last node of its sequence.
pub(crate) fn compile<P: Parser, C: CustomNode>(ctx: CompilationContext<P, C>, sink_id: &NodeId) -> (r:
    CompilationResult<P::Compiled, C>)
    requires
        ctx.at < ctx.nodes.len(),
        ctx.nodes@[ctx.at as int] matches Node::Sink { id } && id == *sink_id,
    ensures
        ctx.compiler.node_compiles_to(ctx.views(), ctx.at as int, ctx.var_names.names(), r),
{
    ctx.assert_end(CompiledNode::Sink(CompiledSink { node_id: sink_id.clone() }))
}

} // verus!
