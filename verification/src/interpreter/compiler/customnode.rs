use crate::expression::{CompiledExpression, Parser};
use crate::interpreter::compiler::{
    considered, extended, followed_by, no_records, prefixed, records_of, CompilationContext,
    CompilationResult, CompiledNode, ParameterValues, ParseSite,
};
use crate::interpreter::data::{
    bindings_of, clone_value, evaluation_of, outcome_of, share, values_view, Outcome,
    OutputRecord, RuntimeErrorView, ScenarioCompilationError, ScenarioOutput,
    ScenarioRuntimeError, SingleScenarioOutput, VarContext, VarValue,
};
use crate::interpreter::{expansion_of, CustomNode};
use crate::namemap::NameMap;
use crate::scenariomodel::{Node, Parameter};
use std::sync::Arc;
use vstd::prelude::*;

verus! {

/// A custom node: a registered component decides on which values the rest
/// of the scenario runs.
pub struct CompiledCustomNode<E, C> {
    pub rest: Box<CompiledNode<E, C>>,
    pub output_var: String,
    pub params: NameMap<E>,
    pub custom_node: Arc<C>,
}

impl<E: CompiledExpression, C: CustomNode> CompiledCustomNode<E, C> {
    /// Evaluates the parameters, in the order of their names; the first
    /// error ends the evaluation.
    pub fn evaluate_parameters(&self, data: &VarContext) -> (r: Result<
        NameMap<VarValue>,
        ScenarioRuntimeError,
    >)
        ensures
            CompiledNode::<E, C>::parameters_yield(
                self.params@,
                self.params.names(),
                0,
                data@,
                Map::empty(),
                match r {
                    Ok(values) => Ok(bindings_of(values@)),
                    Err(e) => Err(e@),
                },
            ),
    {
        let mut parameters: NameMap<VarValue> = NameMap::new();
        let n = self.params.len();
        let mut i: usize = 0;
        assert(bindings_of(parameters@) =~= Map::empty());
        while i < n
            invariant
                i <= n,
                n == self.params.names().len(),
                forall|values: ParameterValues| #[trigger]
                    CompiledNode::<E, C>::parameters_yield(
                        self.params@,
                        self.params.names(),
                        i as int,
                        data@,
                        bindings_of(parameters@),
                        values,
                    ) ==> CompiledNode::<E, C>::parameters_yield(
                        self.params@,
                        self.params.names(),
                        0,
                        data@,
                        Map::empty(),
                        values,
                    ),
            decreases n - i,
        {
            let ghost so_far = bindings_of(parameters@);
            let name = self.params.name_at(i);
            let evaluated = self.params.value_at(i).execute(data);
            let ghost ev = evaluation_of(evaluated);
            assert(self.params@[self.params.names()[i as int]].evaluates_to(data@, ev));
            match evaluated {
                Err(e) => {
                    assert(CompiledNode::<E, C>::parameters_yield(
                        self.params@,
                        self.params.names(),
                        i as int,
                        data@,
                        so_far,
                        Err(e@),
                    ));
                    return Err(e);
                },
                Ok(value) => {
                    parameters = parameters.with(name.clone(), value);
                    proof {
                        assert(bindings_of(parameters@) =~= so_far.insert(name@, value@));
                        assert forall|values: ParameterValues| #[trigger]
                            CompiledNode::<E, C>::parameters_yield(
                                self.params@,
                                self.params.names(),
                                i as int + 1,
                                data@,
                                bindings_of(parameters@),
                                values,
                            ) implies CompiledNode::<E, C>::parameters_yield(
                            self.params@,
                            self.params.names(),
                            0,
                            data@,
                            Map::empty(),
                            values,
                        ) by {
                            assert(CompiledNode::<E, C>::parameters_yield(
                                self.params@,
                                self.params.names(),
                                i as int,
                                data@,
                                so_far,
                                values,
                            ));
                        }
                    }
                },
            }
            i = i + 1;
        }
        assert(CompiledNode::<E, C>::parameters_yield(
            self.params@,
            self.params.names(),
            i as int,
            data@,
            bindings_of(parameters@),
            Ok(bindings_of(parameters@)),
        ));
        Ok(parameters)
    }

    /// Runs the rest of the scenario once for each item, the item bound to
    /// the output variable, and gives the records of the runs in order.
    #[verifier::loop_isolation(false)]
    pub fn run_each(&self, items: &Vec<VarValue>, data: &VarContext) -> (r: Result<
        ScenarioOutput,
        ScenarioRuntimeError,
    >)
        ensures
            CompiledNode::each_yields(
                *self.rest,
                self.output_var@,
                values_view(items@),
                0,
                data@,
                outcome_of(r),
            ),
        decreases self, 0nat,
    {
        let ghost values = values_view(items@);
        let mut out: Vec<SingleScenarioOutput> = Vec::new();
        let mut i: usize = 0;
        assert(records_of(out@) =~= Seq::empty());
        assert forall|tail: Outcome| #[trigger]
            CompiledNode::each_yields(
                *self.rest,
                self.output_var@,
                values,
                0,
                data@,
                tail,
            ) implies CompiledNode::each_yields(
            *self.rest,
            self.output_var@,
            values,
            0,
            data@,
            prefixed(records_of(out@), tail),
        ) by {
            assert(prefixed(records_of(out@), tail) == tail) by {
                if let Ok(records) = tail {
                    assert(Seq::<OutputRecord>::empty() + records =~= records);
                }
            }
        }
        while i < items.len()
            invariant
                i <= items@.len(),
                values == values_view(items@),
                forall|tail: Outcome| #[trigger]
                    CompiledNode::each_yields(
                        *self.rest,
                        self.output_var@,
                        values,
                        i as int,
                        data@,
                        tail,
                    ) ==> CompiledNode::each_yields(
                        *self.rest,
                        self.output_var@,
                        values,
                        0,
                        data@,
                        prefixed(records_of(out@), tail),
                    ),
            decreases items@.len() - i,
        {
            let ghost so_far = records_of(out@);
            let with_item = data.with_new_var(self.output_var.as_str(), clone_value(&items[i]));
            assert(with_item@ == data@.insert(self.output_var@, values[i as int]));
            let run = self.rest.run_node(&with_item);
            let ghost first = outcome_of(run);
            assert(considered(first));
            match run {
                Err(e) => {
                    assert(CompiledNode::each_yields(
                        *self.rest,
                        self.output_var@,
                        values,
                        i as int,
                        data@,
                        Err(e@),
                    ));
                    return Err(e);
                },
                Ok(part) => {
                    let mut records = part.0;
                    let ghost head = records_of(records@);
                    out.append(&mut records);
                    proof {
                        assert(records_of(out@) =~= so_far + head);
                        assert forall|tail: Outcome| #[trigger]
                            CompiledNode::each_yields(
                                *self.rest,
                                self.output_var@,
                                values,
                                i as int + 1,
                                data@,
                                tail,
                            ) implies CompiledNode::each_yields(
                            *self.rest,
                            self.output_var@,
                            values,
                            0,
                            data@,
                            prefixed(records_of(out@), tail),
                        ) by {
                            let here = prefixed(head, tail);
                            assert(followed_by(head, tail, here));
                            assert(considered(tail) && considered(first));
                            assert(CompiledNode::each_yields(
                                *self.rest,
                                self.output_var@,
                                values,
                                i as int,
                                data@,
                                here,
                            ));
                            assert(prefixed(so_far, here) == prefixed(so_far + head, tail)) by {
                                if let Ok(records) = tail {
                                    assert(so_far + (head + records) =~= (so_far + head) + records);
                                }
                            }
                        }
                    }
                },
            }
            i = i + 1;
        }
        let result = ScenarioOutput(out);
        proof {
            assert(CompiledNode::each_yields(
                *self.rest,
                self.output_var@,
                values,
                i as int,
                data@,
                no_records(),
            ));
            assert(prefixed(records_of(out@), no_records()) == Ok::<
                Seq<OutputRecord>,
                RuntimeErrorView,
            >(result@)) by {
                assert(records_of(out@) + Seq::<OutputRecord>::empty() =~= result@);
            }
        }
        Ok(result)
    }

    /// Evaluates the parameters, lets the component decide on the values to
    /// bind, and runs the rest of the scenario once for each of them.
    pub fn run(&self, data: &VarContext) -> (r: Result<ScenarioOutput, ScenarioRuntimeError>)
        ensures
            CompiledNode::Custom(*self).spec_yields(data@, outcome_of(r)),
        decreases self, 1nat,
    {
        let parameters = match self.evaluate_parameters(data) {
            Ok(parameters) => parameters,
            Err(e) => {
                assert(considered::<ParameterValues>(Err(e@)));
                return Err(e);
            },
        };
        assert(considered::<ParameterValues>(Ok(bindings_of(parameters@))));
        let expansion = self.custom_node.expand(&parameters, data);
        assert(considered(expansion_of(expansion)));
        match expansion {
            Ok(items) => self.run_each(&items, data),
            Err(e) => Err(e),
        }
    }
}

/// Compiles a custom node: its parameters in the scope of the node, then the
/// rest of the scenario in the scope that the output variable extends.
#[verifier::loop_isolation(false)]
pub(crate) fn compile<P: Parser, C: CustomNode>(
    ctx: CompilationContext<P, C>,
    output_var: &String,
    parameters: &Vec<Parameter>,
    implementation: &Arc<C>,
) -> (r: CompilationResult<P::Compiled, C>)
    requires
        ctx.at < ctx.nodes.len(),
        ctx.nodes@[ctx.at as int] matches Node::CustomNode {
            output_var: o,
            node_type: t,
            parameters: p,
            ..
        } && o == *output_var && p == *parameters && ctx.compiler.custom_nodes@.contains_key(t@)
            && ctx.compiler.custom_nodes@[t@] == *implementation,
    ensures
        ctx.compiler.node_compiles_to(ctx.views(), ctx.at as int, ctx.var_names.names(), r),
    decreases ctx.nodes, ctx.nodes.len() - ctx.at, 0nat,
{
    let ghost id = ctx.views()[ctx.at as int].id();
    let ghost declared = parameters@.map_values(|p: Parameter| p@);
    let ghost scope = ctx.var_names.names();
    let ghost all_sites = ctx.compiler.node_sites(ctx.views(), ctx.at as int, scope);
    let ghost own_sites = ctx.compiler.parameters_sites(declared, 0, id, scope);
    let ghost rest_sites = ctx.compiler.parse_sites(
        ctx.views(),
        ctx.at + 1,
        extended(scope, output_var@),
    );
    proof {
        assert forall|e: ScenarioCompilationError| #[trigger]
            ctx.compiler.refused_in(own_sites, e) implies ctx.compiler.refused_in(all_sites, e) by {
            if all_sites != own_sites {
                ctx.compiler.lemma_refused_in_either(own_sites, rest_sites, e);
            }
        }
    }
    let mut compiled_parameters: NameMap<P::Compiled> = NameMap::new();
    let mut i: usize = 0;
    while i < parameters.len()
        invariant
            i <= parameters@.len(),
            ctx.compiler.parameters_defect(declared, i as int, id)
                == ctx.compiler.parameters_defect(declared, 0, id),
            forall|e: ScenarioCompilationError| #[trigger]
                ctx.compiler.refused_in(
                    ctx.compiler.parameters_sites(declared, i as int, id, scope),
                    e,
                ) ==> ctx.compiler.refused_in(own_sites, e),
            ctx.compiler.parameters_mirror(compiled_parameters@, declared, i as int, id, scope),
        decreases parameters@.len() - i,
    {
        let parameter = &parameters[i];
        let ghost before = compiled_parameters@;
        let ghost site = ParseSite { node_id: id, expression: parameter.expression@, scope };
        let ghost later = ctx.compiler.parameters_sites(declared, i as int + 1, id, scope);
        assert(declared[i as int] == parameter@);
        match compile_parameter(&ctx, parameter) {
            Ok((name, compiled)) => {
                compiled_parameters = compiled_parameters.with(name, compiled);
                proof {
                    assert forall|name: Seq<char>| #[trigger]
                        compiled_parameters@.contains_key(name) implies exists|k: int|
                        0 <= k < i + 1 && (#[trigger] declared[k]).name == name
                            && ctx.compiler.parsed(
                            id,
                            declared[k].expression,
                            scope,
                            compiled_parameters@[name],
                        ) by {
                        if name == parameter.name@ {
                            assert(declared[i as int].name == name);
                        } else {
                            assert(before.contains_key(name));
                            let k = choose|k: int|
                                0 <= k < i && (#[trigger] declared[k]).name == name
                                    && ctx.compiler.parsed(
                                    id,
                                    declared[k].expression,
                                    scope,
                                    before[name],
                                );
                            assert(declared[k].name == name);
                        }
                    }
                    assert forall|e: ScenarioCompilationError| #[trigger]
                        ctx.compiler.refused_in(later, e) implies ctx.compiler.refused_in(
                        own_sites,
                        e,
                    ) by {
                        ctx.compiler.lemma_refused_in_either(seq![site], later, e);
                        assert(ctx.compiler.parameters_sites(declared, i as int, id, scope)
                            == seq![site] + later);
                        assert(ctx.compiler.refused_in(
                            ctx.compiler.parameters_sites(declared, i as int, id, scope),
                            e,
                        ));
                    }
                }
            },
            Err(e) => {
                proof {
                    if e@ is ParseError {
                        ctx.compiler.lemma_refused_at_first(site, later, e);
                        assert(ctx.compiler.parameters_sites(declared, i as int, id, scope)
                            == seq![site] + later);
                        assert(ctx.compiler.refused_in(
                            ctx.compiler.parameters_sites(declared, i as int, id, scope),
                            e,
                        ));
                        assert(ctx.compiler.refused_in(own_sites, e));
                    }
                }
                return Err(e);
            },
        }
        i = i + 1;
    }
    let scope = match ctx.var_names.with_var(ctx.node_id(), output_var.as_str()) {
        Ok(scope) => scope,
        Err(e) => {
            return Err(e);
        },
    };
    let next_part = match ctx.compiler.compile_next(ctx.node_id(), ctx.nodes, ctx.at + 1, &scope) {
        Ok(rest) => rest,
        Err(e) => {
            proof {
                if e@ is ParseError {
                    ctx.compiler.lemma_refused_in_either(own_sites, rest_sites, e);
                }
            }
            return Err(e);
        },
    };
    Ok(
        CompiledNode::Custom(
            CompiledCustomNode {
                rest: Box::new(next_part),
                output_var: output_var.clone(),
                params: compiled_parameters,
                custom_node: share(implementation),
            },
        ),
    )
}

/// Parses one parameter in the scope of its node.
pub(crate) fn compile_parameter<P: Parser, C: CustomNode>(
    ctx: &CompilationContext<P, C>,
    parameter: &Parameter,
) -> (r: Result<(String, P::Compiled), ScenarioCompilationError>)
    requires
        ctx.at < ctx.nodes.len(),
    ensures
        match r {
            Ok((name, compiled)) => name@ == parameter.name@ && ctx.compiler.parsed(
                ctx.views()[ctx.at as int].id(),
                parameter.expression@,
                ctx.var_names.names(),
                compiled,
            ),
            Err(e) => ctx.compiler.parser.parses_to(
                ctx.views()[ctx.at as int].id(),
                parameter.expression@,
                ctx.var_names.names(),
                Err(e),
            ),
        },
{
    match ctx.compiler.parser.parse(ctx.node_id(), &parameter.expression, ctx.var_names) {
        Ok(compiled_expression) => Ok((parameter.name.clone(), compiled_expression)),
        Err(e) => Err(e),
    }
}

} // verus!
