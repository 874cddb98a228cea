//! What holds of every compiled scenario, proved from what running and
//! compiling mean.
use crate::customnodes::{for_each_expansion, ForEach};
use crate::expression::{CompiledExpression, Parser};
use crate::interpreter::compiler::customnode::CompiledCustomNode;
use crate::interpreter::compiler::filter::CompiledFilter;
use crate::interpreter::compiler::sink::CompiledSink;
use crate::interpreter::compiler::split::CompiledSplit;
use crate::interpreter::compiler::switch::CompiledCase;
use crate::interpreter::compiler::{
    considered, extended, followed_by, no_records, CompilationResult, CompiledNode, Compiler,
    ParameterValues, ParseSite,
};
use crate::interpreter::data::{
    input_name, is_valid_var_name, Bindings, CompilationErrorView, Evaluation, JsonValue,
    Outcome, OutputRecord, RuntimeErrorView,
};
use crate::interpreter::{CustomNode, Expansion};
use crate::scenariomodel::{CaseView, NodeView, ParameterView};
use vstd::prelude::*;

verus! {

/// A filter whose predicate can only give `false` lets nothing pass: it
/// gives no record, whatever follows it.
pub proof fn lemma_filter_false<E: CompiledExpression, C: CustomNode>(
    filter: CompiledFilter<E, C>,
    data: Bindings,
    result: Outcome,
)
    requires
        forall|ev: Evaluation| #[trigger]
            filter.expression.evaluates_to(data, ev) ==> ev == Ok::<JsonValue, RuntimeErrorView>(
                JsonValue::Bool(false),
            ),
        CompiledNode::Filter(filter).spec_yields(data, result),
    ensures
        result == no_records(),
{
}

/// The records of the parts from `from` on, one part after the other.
pub open spec fn concatenated(parts: Seq<Seq<OutputRecord>>, from: int) -> Seq<OutputRecord>
    decreases parts.len() - from,
{
    if from < 0 || from >= parts.len() {
        Seq::empty()
    } else {
        parts[from] + concatenated(parts, from + 1)
    }
}

/// Where the branches from `from` on give records, each branch gave its
/// part, and the records are the parts in the order of the branches.
pub proof fn lemma_branches_give_parts<E: CompiledExpression, C: CustomNode>(
    branches: Seq<CompiledNode<E, C>>,
    from: int,
    data: Bindings,
    records: Seq<OutputRecord>,
) -> (parts: Seq<Seq<OutputRecord>>)
    requires
        0 <= from <= branches.len(),
        CompiledNode::branches_yield(branches, from, data, Ok(records)),
    ensures
        parts.len() == branches.len(),
        forall|k: int| from <= k < branches.len() ==> (#[trigger] branches[k]).spec_yields(data, Ok(parts[k])),
        records == concatenated(parts, from),
    decreases branches.len() - from,
{
    if from >= branches.len() {
        let parts = Seq::new(branches.len(), |k: int| Seq::<OutputRecord>::empty());
        parts
    } else {
        let first = choose|first: Outcome| #[trigger]
            considered(first) && branches[from].spec_yields(data, first) && match first {
                Err(e) => Ok::<Seq<OutputRecord>, RuntimeErrorView>(records) == Err::<
                    Seq<OutputRecord>,
                    RuntimeErrorView,
                >(e),
                Ok(head) => exists|more: Outcome| #[trigger]
                    considered(more) && CompiledNode::branches_yield(
                        branches,
                        from + 1,
                        data,
                        more,
                    ) && followed_by(head, more, Ok(records)),
            };
        let head = first->Ok_0;
        let more = choose|more: Outcome| #[trigger]
            considered(more) && CompiledNode::branches_yield(branches, from + 1, data, more)
                && followed_by(head, more, Ok(records));
        let tail = more->Ok_0;
        let rest = lemma_branches_give_parts(branches, from + 1, data, tail);
        let parts = rest.update(from, head);
        assert forall|k: int| from <= k < branches.len() implies (#[trigger] branches[k]).spec_yields(
            data,
            Ok(parts[k]),
        ) by {
            if k > from {
                assert(parts[k] == rest[k]);
            }
        }
        lemma_concatenated_ignores_earlier(rest, parts, from + 1);
        parts
    }
}

/// The parts from `from` on decide what `concatenated` gives from `from` on.
pub proof fn lemma_concatenated_ignores_earlier(
    a: Seq<Seq<OutputRecord>>,
    b: Seq<Seq<OutputRecord>>,
    from: int,
)
    requires
        a.len() == b.len(),
        0 <= from,
        forall|k: int| from <= k < a.len() ==> a[k] == b[k],
    ensures
        concatenated(a, from) == concatenated(b, from),
    decreases a.len() - from,
{
    if from < a.len() {
        lemma_concatenated_ignores_earlier(a, b, from + 1);
    }
}

/// Where each branch from `from` on gives its part, the branches give the
/// parts in the order of the branches.
pub proof fn lemma_parts_give_branches<E: CompiledExpression, C: CustomNode>(
    branches: Seq<CompiledNode<E, C>>,
    from: int,
    data: Bindings,
    parts: Seq<Seq<OutputRecord>>,
)
    requires
        0 <= from <= branches.len(),
        parts.len() == branches.len(),
        forall|k: int| from <= k < branches.len() ==> (#[trigger] branches[k]).spec_yields(data, Ok(parts[k])),
    ensures
        CompiledNode::branches_yield(branches, from, data, Ok(concatenated(parts, from))),
    decreases branches.len() - from,
{
    if from < branches.len() {
        lemma_parts_give_branches(branches, from + 1, data, parts);
        let first: Outcome = Ok(parts[from]);
        let more: Outcome = Ok(concatenated(parts, from + 1));
        assert(considered(first) && considered(more));
        assert(branches[from].spec_yields(data, first));
        assert(followed_by(parts[from], more, Ok(concatenated(parts, from))));
    }
}

/// A split gives the records of its branches, each run on the same
/// bindings, in the order of the branches, and nothing else.
pub proof fn lemma_split_fan_out<E: CompiledExpression, C: CustomNode>(
    split: CompiledSplit<E, C>,
    data: Bindings,
    records: Seq<OutputRecord>,
)
    ensures
        CompiledNode::Split(split).spec_yields(data, Ok(records)) <==> exists|
            parts: Seq<Seq<OutputRecord>>,
        |
            {
                &&& parts.len() == split.nexts@.len()
                &&& forall|k: int|
                    0 <= k < split.nexts@.len() ==> (#[trigger] split.nexts@[k]).spec_yields(
                        data,
                        Ok(parts[k]),
                    )
                &&& records == #[trigger] concatenated(parts, 0)
            },
{
    if CompiledNode::Split(split).spec_yields(data, Ok(records)) {
        let parts = lemma_branches_give_parts(split.nexts@, 0, data, records);
        assert(records == concatenated(parts, 0));
    }
    if exists|parts: Seq<Seq<OutputRecord>>|
        {
            &&& parts.len() == split.nexts@.len()
            &&& forall|k: int|
                0 <= k < split.nexts@.len() ==> (#[trigger] split.nexts@[k]).spec_yields(
                    data,
                    Ok(parts[k]),
                )
            &&& records == #[trigger] concatenated(parts, 0)
        } {
        let parts = choose|parts: Seq<Seq<OutputRecord>>|
            {
                &&& parts.len() == split.nexts@.len()
                &&& forall|k: int|
                    0 <= k < split.nexts@.len() ==> (#[trigger] split.nexts@[k]).spec_yields(
                        data,
                        Ok(parts[k]),
                    )
                &&& records == #[trigger] concatenated(parts, 0)
            };
        lemma_parts_give_branches(split.nexts@, 0, data, parts);
    }
}

/// Whether running `tree` with the names `scope` bound may reach the sink
/// `sink_id` with exactly the names `visible` bound there: the names in
/// scope at the start and those that the nodes on the way to the sink bind.
pub open spec fn reaches<E: CompiledExpression, C: CustomNode>(
    tree: CompiledNode<E, C>,
    scope: Set<Seq<char>>,
    sink_id: Seq<char>,
    visible: Set<Seq<char>>,
) -> bool
    decreases tree,
{
    match tree {
        CompiledNode::Filter(f) => reaches(*f.rest, scope, sink_id, visible),
        CompiledNode::Variable(v) => reaches(*v.rest, scope.insert(v.var_name@), sink_id, visible),
        CompiledNode::Switch(s) => exists|k: int|
            0 <= k < s.nexts@.len() && reaches(
                *(#[trigger] s.nexts@[k]).rest,
                scope,
                sink_id,
                visible,
            ),
        CompiledNode::Split(s) => exists|k: int|
            0 <= k < s.nexts@.len() && reaches(#[trigger] s.nexts@[k], scope, sink_id, visible),
        CompiledNode::Sink(s) => s.node_id@ == sink_id && visible == scope,
        CompiledNode::Custom(c) => reaches(*c.rest, scope.insert(c.output_var@), sink_id, visible),
    }
}

/// Every record of a run comes from a sink of the tree, and binds exactly
/// the names in scope at that sink: those bound at the start and those bound
/// by the nodes on the way to the sink. A name bound on another branch is
/// not among them.
pub proof fn lemma_records_reach_sinks<E: CompiledExpression, C: CustomNode>(
    tree: CompiledNode<E, C>,
    data: Bindings,
    records: Seq<OutputRecord>,
    i: int,
)
    requires
        tree.spec_yields(data, Ok(records)),
        0 <= i < records.len(),
    ensures
        reaches(tree, data.dom(), records[i].node_id, records[i].variables.dom()),
    decreases tree, 0nat, 0nat,
{
    match tree {
        CompiledNode::Filter(f) => {
            let ev = choose|ev: Evaluation| #[trigger]
                f.expression.evaluates_to(data, ev) && match ev {
                    Err(e) => Ok::<Seq<OutputRecord>, RuntimeErrorView>(records) == Err::<
                        Seq<OutputRecord>,
                        RuntimeErrorView,
                    >(e),
                    Ok(JsonValue::Bool(true)) => f.rest.spec_yields(data, Ok(records)),
                    Ok(JsonValue::Bool(false)) => Ok::<Seq<OutputRecord>, RuntimeErrorView>(records)
                        == no_records(),
                    Ok(other) => Ok::<Seq<OutputRecord>, RuntimeErrorView>(records) == Err::<
                        Seq<OutputRecord>,
                        RuntimeErrorView,
                    >(RuntimeErrorView::InvalidFilterType(other)),
                };
            lemma_records_reach_sinks(*f.rest, data, records, i);
        },
        CompiledNode::Variable(v) => {
            let ev = choose|ev: Evaluation| #[trigger]
                v.expression.evaluates_to(data, ev) && match ev {
                    Err(e) => Ok::<Seq<OutputRecord>, RuntimeErrorView>(records) == Err::<
                        Seq<OutputRecord>,
                        RuntimeErrorView,
                    >(e),
                    Ok(value) => v.rest.spec_yields(data.insert(v.var_name@, value), Ok(records)),
                };
            let value = ev->Ok_0;
            lemma_records_reach_sinks(*v.rest, data.insert(v.var_name@, value), records, i);
            assert(data.insert(v.var_name@, value).dom() =~= data.dom().insert(v.var_name@));
        },
        CompiledNode::Switch(s) => {
            lemma_case_records_reach_sinks(s.nexts@, 0, data, records, i);
        },
        CompiledNode::Split(s) => {
            lemma_branch_records_reach_sinks(s.nexts@, 0, data, records, i);
        },
        CompiledNode::Sink(s) => {},
        CompiledNode::Custom(c) => {
            let values = choose|values: ParameterValues| #[trigger]
                considered(values) && CompiledNode::<E, C>::parameters_yield(
                    c.params@,
                    c.params.names(),
                    0,
                    data,
                    Map::empty(),
                    values,
                ) && match values {
                    Err(e) => Ok::<Seq<OutputRecord>, RuntimeErrorView>(records) == Err::<
                        Seq<OutputRecord>,
                        RuntimeErrorView,
                    >(e),
                    Ok(parameters) => exists|expansion: Expansion| #[trigger]
                        considered(expansion) && c.custom_node.expands_to(
                            parameters,
                            data,
                            expansion,
                        ) && match expansion {
                            Err(e) => Ok::<Seq<OutputRecord>, RuntimeErrorView>(records) == Err::<
                                Seq<OutputRecord>,
                                RuntimeErrorView,
                            >(e),
                            Ok(items) => CompiledNode::each_yields(
                                *c.rest,
                                c.output_var@,
                                items,
                                0,
                                data,
                                Ok(records),
                            ),
                        },
                };
            let parameters = values->Ok_0;
            let expansion = choose|expansion: Expansion| #[trigger]
                considered(expansion) && c.custom_node.expands_to(parameters, data, expansion)
                    && match expansion {
                    Err(e) => Ok::<Seq<OutputRecord>, RuntimeErrorView>(records) == Err::<
                        Seq<OutputRecord>,
                        RuntimeErrorView,
                    >(e),
                    Ok(items) => CompiledNode::each_yields(
                        *c.rest,
                        c.output_var@,
                        items,
                        0,
                        data,
                        Ok(records),
                    ),
                };
            let items = expansion->Ok_0;
            lemma_item_records_reach_sinks(*c.rest, c.output_var@, items, 0, data, records, i);
        },
    }
}

/// Every record that the cases of a switch give comes from a sink of the
/// case that ran.
pub proof fn lemma_case_records_reach_sinks<E: CompiledExpression, C: CustomNode>(
    cases: Seq<CompiledCase<E, C>>,
    from: int,
    data: Bindings,
    records: Seq<OutputRecord>,
    i: int,
)
    requires
        0 <= from,
        CompiledNode::cases_yield(cases, from, data, Ok(records)),
        0 <= i < records.len(),
    ensures
        exists|k: int|
            0 <= k < cases.len() && reaches(
                *(#[trigger] cases[k]).rest,
                data.dom(),
                records[i].node_id,
                records[i].variables.dom(),
            ),
    decreases cases, cases.len() - from, 0nat,
{
    if from < cases.len() {
        let ev = choose|ev: Evaluation| #[trigger]
            cases[from].expression.evaluates_to(data, ev) && match ev {
                Err(e) => Ok::<Seq<OutputRecord>, RuntimeErrorView>(records) == Err::<
                    Seq<OutputRecord>,
                    RuntimeErrorView,
                >(e),
                Ok(JsonValue::Bool(true)) => cases[from].rest.spec_yields(data, Ok(records)),
                Ok(JsonValue::Bool(false)) => CompiledNode::cases_yield(
                    cases,
                    from + 1,
                    data,
                    Ok(records),
                ),
                Ok(other) => Ok::<Seq<OutputRecord>, RuntimeErrorView>(records) == Err::<
                    Seq<OutputRecord>,
                    RuntimeErrorView,
                >(RuntimeErrorView::InvalidSwitchType(other)),
            };
        if ev == Ok::<JsonValue, RuntimeErrorView>(JsonValue::Bool(true)) {
            lemma_records_reach_sinks(*cases[from].rest, data, records, i);
        } else {
            lemma_case_records_reach_sinks(cases, from + 1, data, records, i);
        }
    }
}

/// Every record that the branches of a split give comes from a sink of one
/// of the branches.
pub proof fn lemma_branch_records_reach_sinks<E: CompiledExpression, C: CustomNode>(
    branches: Seq<CompiledNode<E, C>>,
    from: int,
    data: Bindings,
    records: Seq<OutputRecord>,
    i: int,
)
    requires
        0 <= from,
        CompiledNode::branches_yield(branches, from, data, Ok(records)),
        0 <= i < records.len(),
    ensures
        exists|k: int|
            0 <= k < branches.len() && reaches(
                #[trigger] branches[k],
                data.dom(),
                records[i].node_id,
                records[i].variables.dom(),
            ),
    decreases branches, branches.len() - from, 0nat,
{
    if from < branches.len() {
        let first = choose|first: Outcome| #[trigger]
            considered(first) && branches[from].spec_yields(data, first) && match first {
                Err(e) => Ok::<Seq<OutputRecord>, RuntimeErrorView>(records) == Err::<
                    Seq<OutputRecord>,
                    RuntimeErrorView,
                >(e),
                Ok(head) => exists|more: Outcome| #[trigger]
                    considered(more) && CompiledNode::branches_yield(
                        branches,
                        from + 1,
                        data,
                        more,
                    ) && followed_by(head, more, Ok(records)),
            };
        let head = first->Ok_0;
        let more = choose|more: Outcome| #[trigger]
            considered(more) && CompiledNode::branches_yield(branches, from + 1, data, more)
                && followed_by(head, more, Ok(records));
        let tail = more->Ok_0;
        if i < head.len() {
            lemma_records_reach_sinks(branches[from], data, head, i);
        } else {
            lemma_branch_records_reach_sinks(branches, from + 1, data, tail, i - head.len());
        }
    }
}

/// Every record that the runs for the items of a custom node give comes from
/// a sink of what follows the node, with the output variable bound.
pub proof fn lemma_item_records_reach_sinks<E: CompiledExpression, C: CustomNode>(
    rest: CompiledNode<E, C>,
    output_var: Seq<char>,
    items: Seq<JsonValue>,
    from: int,
    data: Bindings,
    records: Seq<OutputRecord>,
    i: int,
)
    requires
        0 <= from,
        CompiledNode::each_yields(rest, output_var, items, from, data, Ok(records)),
        0 <= i < records.len(),
    ensures
        reaches(rest, data.dom().insert(output_var), records[i].node_id, records[i].variables.dom()),
    decreases rest, 1nat, items.len() - from,
{
    if from < items.len() {
        let first = choose|first: Outcome| #[trigger]
            considered(first) && rest.spec_yields(data.insert(output_var, items[from]), first)
                && match first {
                Err(e) => Ok::<Seq<OutputRecord>, RuntimeErrorView>(records) == Err::<
                    Seq<OutputRecord>,
                    RuntimeErrorView,
                >(e),
                Ok(head) => exists|more: Outcome| #[trigger]
                    considered(more) && CompiledNode::each_yields(
                        rest,
                        output_var,
                        items,
                        from + 1,
                        data,
                        more,
                    ) && followed_by(head, more, Ok(records)),
            };
        let head = first->Ok_0;
        let more = choose|more: Outcome| #[trigger]
            considered(more) && CompiledNode::each_yields(
                rest,
                output_var,
                items,
                from + 1,
                data,
                more,
            ) && followed_by(head, more, Ok(records));
        let tail = more->Ok_0;
        if i < head.len() {
            lemma_records_reach_sinks(rest, data.insert(output_var, items[from]), head, i);
            assert(data.insert(output_var, items[from]).dom() =~= data.dom().insert(output_var));
        } else {
            lemma_item_records_reach_sinks(
                rest,
                output_var,
                items,
                from + 1,
                data,
                tail,
                i - head.len(),
            );
        }
    }
}

/// Whether evaluating `expression` on the same bindings always gives the
/// same result.
pub open spec fn deterministic_expression<E: CompiledExpression>(expression: E) -> bool {
    forall|data: Bindings, a: Evaluation, b: Evaluation|
        #[trigger] expression.evaluates_to(data, a) && #[trigger] expression.evaluates_to(data, b)
            ==> a == b
}

/// Whether `component` always decides the same for the same parameters on
/// the same bindings.
pub open spec fn deterministic_component<C: CustomNode>(component: C) -> bool {
    forall|parameters: Bindings, data: Bindings, a: Expansion, b: Expansion|
        #[trigger] component.expands_to(parameters, data, a) && #[trigger] component.expands_to(
            parameters,
            data,
            b,
        ) ==> a == b
}

/// Whether every expression and every custom node of `tree` is
/// deterministic.
pub open spec fn deterministic<E: CompiledExpression, C: CustomNode>(tree: CompiledNode<E, C>) -> bool
    decreases tree,
{
    match tree {
        CompiledNode::Filter(f) => deterministic_expression(f.expression) && deterministic(*f.rest),
        CompiledNode::Variable(v) => deterministic_expression(v.expression) && deterministic(
            *v.rest,
        ),
        CompiledNode::Switch(s) => forall|k: int|
            0 <= k < s.nexts@.len() ==> deterministic_expression(
                (#[trigger] s.nexts@[k]).expression,
            ) && deterministic(*s.nexts@[k].rest),
        CompiledNode::Split(s) => forall|k: int|
            0 <= k < s.nexts@.len() ==> deterministic(#[trigger] s.nexts@[k]),
        CompiledNode::Sink(s) => true,
        CompiledNode::Custom(c) => {
            &&& forall|k: int|
                0 <= k < c.params.names().len() ==> deterministic_expression(
                    c.params@[#[trigger] c.params.names()[k]],
                )
            &&& deterministic_component(*c.custom_node)
            &&& deterministic(*c.rest)
        },
    }
}

/// Running a tree whose expressions and custom nodes are deterministic is a
/// function of the bindings: two runs on the same bindings give the same
/// records in the same order, or the same error.
pub proof fn lemma_run_is_deterministic<E: CompiledExpression, C: CustomNode>(
    tree: CompiledNode<E, C>,
    data: Bindings,
    a: Outcome,
    b: Outcome,
)
    requires
        deterministic(tree),
        tree.spec_yields(data, a),
        tree.spec_yields(data, b),
    ensures
        a == b,
    decreases tree, 0nat, 0nat,
{
    match tree {
        CompiledNode::Filter(f) => {
            let ea = choose|ev: Evaluation| #[trigger]
                f.expression.evaluates_to(data, ev) && match ev {
                    Err(e) => a == Err::<Seq<OutputRecord>, RuntimeErrorView>(e),
                    Ok(JsonValue::Bool(true)) => f.rest.spec_yields(data, a),
                    Ok(JsonValue::Bool(false)) => a == no_records(),
                    Ok(other) => a == Err::<Seq<OutputRecord>, RuntimeErrorView>(
                        RuntimeErrorView::InvalidFilterType(other),
                    ),
                };
            let eb = choose|ev: Evaluation| #[trigger]
                f.expression.evaluates_to(data, ev) && match ev {
                    Err(e) => b == Err::<Seq<OutputRecord>, RuntimeErrorView>(e),
                    Ok(JsonValue::Bool(true)) => f.rest.spec_yields(data, b),
                    Ok(JsonValue::Bool(false)) => b == no_records(),
                    Ok(other) => b == Err::<Seq<OutputRecord>, RuntimeErrorView>(
                        RuntimeErrorView::InvalidFilterType(other),
                    ),
                };
            assert(ea == eb);
            if ea == Ok::<JsonValue, RuntimeErrorView>(JsonValue::Bool(true)) {
                lemma_run_is_deterministic(*f.rest, data, a, b);
            }
        },
        CompiledNode::Variable(v) => {
            let ea = choose|ev: Evaluation| #[trigger]
                v.expression.evaluates_to(data, ev) && match ev {
                    Err(e) => a == Err::<Seq<OutputRecord>, RuntimeErrorView>(e),
                    Ok(value) => v.rest.spec_yields(data.insert(v.var_name@, value), a),
                };
            let eb = choose|ev: Evaluation| #[trigger]
                v.expression.evaluates_to(data, ev) && match ev {
                    Err(e) => b == Err::<Seq<OutputRecord>, RuntimeErrorView>(e),
                    Ok(value) => v.rest.spec_yields(data.insert(v.var_name@, value), b),
                };
            assert(ea == eb);
            if let Ok(value) = ea {
                lemma_run_is_deterministic(*v.rest, data.insert(v.var_name@, value), a, b);
            }
        },
        CompiledNode::Switch(s) => {
            lemma_cases_are_deterministic(s.nexts@, 0, data, a, b);
        },
        CompiledNode::Split(s) => {
            lemma_branches_are_deterministic(s.nexts@, 0, data, a, b);
        },
        CompiledNode::Sink(s) => {},
        CompiledNode::Custom(c) => {
            let va = choose|values: ParameterValues| #[trigger]
                considered(values) && CompiledNode::<E, C>::parameters_yield(
                    c.params@,
                    c.params.names(),
                    0,
                    data,
                    Map::empty(),
                    values,
                ) && match values {
                    Err(e) => a == Err::<Seq<OutputRecord>, RuntimeErrorView>(e),
                    Ok(parameters) => exists|expansion: Expansion| #[trigger]
                        considered(expansion) && c.custom_node.expands_to(
                            parameters,
                            data,
                            expansion,
                        ) && match expansion {
                            Err(e) => a == Err::<Seq<OutputRecord>, RuntimeErrorView>(e),
                            Ok(items) => CompiledNode::each_yields(
                                *c.rest,
                                c.output_var@,
                                items,
                                0,
                                data,
                                a,
                            ),
                        },
                };
            let vb = choose|values: ParameterValues| #[trigger]
                considered(values) && CompiledNode::<E, C>::parameters_yield(
                    c.params@,
                    c.params.names(),
                    0,
                    data,
                    Map::empty(),
                    values,
                ) && match values {
                    Err(e) => b == Err::<Seq<OutputRecord>, RuntimeErrorView>(e),
                    Ok(parameters) => exists|expansion: Expansion| #[trigger]
                        considered(expansion) && c.custom_node.expands_to(
                            parameters,
                            data,
                            expansion,
                        ) && match expansion {
                            Err(e) => b == Err::<Seq<OutputRecord>, RuntimeErrorView>(e),
                            Ok(items) => CompiledNode::each_yields(
                                *c.rest,
                                c.output_var@,
                                items,
                                0,
                                data,
                                b,
                            ),
                        },
                };
            lemma_parameters_are_deterministic::<E, C>(
                c.params@,
                c.params.names(),
                0,
                data,
                Map::empty(),
                va,
                vb,
            );
            if let Ok(parameters) = va {
                let xa = choose|expansion: Expansion| #[trigger]
                    considered(expansion) && c.custom_node.expands_to(parameters, data, expansion)
                        && match expansion {
                        Err(e) => a == Err::<Seq<OutputRecord>, RuntimeErrorView>(e),
                        Ok(items) => CompiledNode::each_yields(
                            *c.rest,
                            c.output_var@,
                            items,
                            0,
                            data,
                            a,
                        ),
                    };
                let xb = choose|expansion: Expansion| #[trigger]
                    considered(expansion) && c.custom_node.expands_to(parameters, data, expansion)
                        && match expansion {
                        Err(e) => b == Err::<Seq<OutputRecord>, RuntimeErrorView>(e),
                        Ok(items) => CompiledNode::each_yields(
                            *c.rest,
                            c.output_var@,
                            items,
                            0,
                            data,
                            b,
                        ),
                    };
                assert(xa == xb);
                if let Ok(items) = xa {
                    lemma_items_are_deterministic(*c.rest, c.output_var@, items, 0, data, a, b);
                }
            }
        },
    }
}

/// The cases of a switch with deterministic predicates and branches give
/// one result.
pub proof fn lemma_cases_are_deterministic<E: CompiledExpression, C: CustomNode>(
    cases: Seq<CompiledCase<E, C>>,
    from: int,
    data: Bindings,
    a: Outcome,
    b: Outcome,
)
    requires
        0 <= from,
        forall|k: int|
            0 <= k < cases.len() ==> deterministic_expression((#[trigger] cases[k]).expression)
                && deterministic(*cases[k].rest),
        CompiledNode::cases_yield(cases, from, data, a),
        CompiledNode::cases_yield(cases, from, data, b),
    ensures
        a == b,
    decreases cases, cases.len() - from, 0nat,
{
    if from < cases.len() {
        let ea = choose|ev: Evaluation| #[trigger]
            cases[from].expression.evaluates_to(data, ev) && match ev {
                Err(e) => a == Err::<Seq<OutputRecord>, RuntimeErrorView>(e),
                Ok(JsonValue::Bool(true)) => cases[from].rest.spec_yields(data, a),
                Ok(JsonValue::Bool(false)) => CompiledNode::cases_yield(cases, from + 1, data, a),
                Ok(other) => a == Err::<Seq<OutputRecord>, RuntimeErrorView>(
                    RuntimeErrorView::InvalidSwitchType(other),
                ),
            };
        let eb = choose|ev: Evaluation| #[trigger]
            cases[from].expression.evaluates_to(data, ev) && match ev {
                Err(e) => b == Err::<Seq<OutputRecord>, RuntimeErrorView>(e),
                Ok(JsonValue::Bool(true)) => cases[from].rest.spec_yields(data, b),
                Ok(JsonValue::Bool(false)) => CompiledNode::cases_yield(cases, from + 1, data, b),
                Ok(other) => b == Err::<Seq<OutputRecord>, RuntimeErrorView>(
                    RuntimeErrorView::InvalidSwitchType(other),
                ),
            };
        assert(deterministic_expression(cases[from].expression));
        assert(ea == eb);
        if ea == Ok::<JsonValue, RuntimeErrorView>(JsonValue::Bool(true)) {
            lemma_run_is_deterministic(*cases[from].rest, data, a, b);
        } else if ea == Ok::<JsonValue, RuntimeErrorView>(JsonValue::Bool(false)) {
            lemma_cases_are_deterministic(cases, from + 1, data, a, b);
        }
    }
}

/// Deterministic branches give one result.
pub proof fn lemma_branches_are_deterministic<E: CompiledExpression, C: CustomNode>(
    branches: Seq<CompiledNode<E, C>>,
    from: int,
    data: Bindings,
    a: Outcome,
    b: Outcome,
)
    requires
        0 <= from,
        forall|k: int| 0 <= k < branches.len() ==> deterministic(#[trigger] branches[k]),
        CompiledNode::branches_yield(branches, from, data, a),
        CompiledNode::branches_yield(branches, from, data, b),
    ensures
        a == b,
    decreases branches, branches.len() - from, 0nat,
{
    if from < branches.len() {
        let fa = choose|first: Outcome| #[trigger]
            considered(first) && branches[from].spec_yields(data, first) && match first {
                Err(e) => a == Err::<Seq<OutputRecord>, RuntimeErrorView>(e),
                Ok(head) => exists|more: Outcome| #[trigger]
                    considered(more) && CompiledNode::branches_yield(
                        branches,
                        from + 1,
                        data,
                        more,
                    ) && followed_by(head, more, a),
            };
        let fb = choose|first: Outcome| #[trigger]
            considered(first) && branches[from].spec_yields(data, first) && match first {
                Err(e) => b == Err::<Seq<OutputRecord>, RuntimeErrorView>(e),
                Ok(head) => exists|more: Outcome| #[trigger]
                    considered(more) && CompiledNode::branches_yield(
                        branches,
                        from + 1,
                        data,
                        more,
                    ) && followed_by(head, more, b),
            };
        lemma_run_is_deterministic(branches[from], data, fa, fb);
        if let Ok(head) = fa {
            let ma = choose|more: Outcome| #[trigger]
                considered(more) && CompiledNode::branches_yield(branches, from + 1, data, more)
                    && followed_by(head, more, a);
            let mb = choose|more: Outcome| #[trigger]
                considered(more) && CompiledNode::branches_yield(branches, from + 1, data, more)
                    && followed_by(head, more, b);
            lemma_branches_are_deterministic(branches, from + 1, data, ma, mb);
        }
    }
}

/// The runs of a deterministic tree for the items of a custom node give one
/// result.
pub proof fn lemma_items_are_deterministic<E: CompiledExpression, C: CustomNode>(
    rest: CompiledNode<E, C>,
    output_var: Seq<char>,
    items: Seq<JsonValue>,
    from: int,
    data: Bindings,
    a: Outcome,
    b: Outcome,
)
    requires
        0 <= from,
        deterministic(rest),
        CompiledNode::each_yields(rest, output_var, items, from, data, a),
        CompiledNode::each_yields(rest, output_var, items, from, data, b),
    ensures
        a == b,
    decreases rest, 1nat, items.len() - from,
{
    if from < items.len() {
        let fa = choose|first: Outcome| #[trigger]
            considered(first) && rest.spec_yields(data.insert(output_var, items[from]), first)
                && match first {
                Err(e) => a == Err::<Seq<OutputRecord>, RuntimeErrorView>(e),
                Ok(head) => exists|more: Outcome| #[trigger]
                    considered(more) && CompiledNode::each_yields(
                        rest,
                        output_var,
                        items,
                        from + 1,
                        data,
                        more,
                    ) && followed_by(head, more, a),
            };
        let fb = choose|first: Outcome| #[trigger]
            considered(first) && rest.spec_yields(data.insert(output_var, items[from]), first)
                && match first {
                Err(e) => b == Err::<Seq<OutputRecord>, RuntimeErrorView>(e),
                Ok(head) => exists|more: Outcome| #[trigger]
                    considered(more) && CompiledNode::each_yields(
                        rest,
                        output_var,
                        items,
                        from + 1,
                        data,
                        more,
                    ) && followed_by(head, more, b),
            };
        lemma_run_is_deterministic(rest, data.insert(output_var, items[from]), fa, fb);
        if let Ok(head) = fa {
            let ma = choose|more: Outcome| #[trigger]
                considered(more) && CompiledNode::each_yields(
                    rest,
                    output_var,
                    items,
                    from + 1,
                    data,
                    more,
                ) && followed_by(head, more, a);
            let mb = choose|more: Outcome| #[trigger]
                considered(more) && CompiledNode::each_yields(
                    rest,
                    output_var,
                    items,
                    from + 1,
                    data,
                    more,
                ) && followed_by(head, more, b);
            lemma_items_are_deterministic(rest, output_var, items, from + 1, data, ma, mb);
        }
    }
}

/// Deterministic parameters evaluate to one map of values.
pub proof fn lemma_parameters_are_deterministic<E: CompiledExpression, C: CustomNode>(
    parameters: Map<Seq<char>, E>,
    names: Seq<Seq<char>>,
    from: int,
    data: Bindings,
    so_far: Bindings,
    a: ParameterValues,
    b: ParameterValues,
)
    requires
        0 <= from,
        forall|k: int|
            0 <= k < names.len() ==> deterministic_expression(parameters[#[trigger] names[k]]),
        CompiledNode::<E, C>::parameters_yield(parameters, names, from, data, so_far, a),
        CompiledNode::<E, C>::parameters_yield(parameters, names, from, data, so_far, b),
    ensures
        a == b,
    decreases names.len() - from,
{
    if from < names.len() {
        let ea = choose|ev: Evaluation| #[trigger]
            parameters[names[from]].evaluates_to(data, ev) && match ev {
                Err(e) => a == Err::<Bindings, RuntimeErrorView>(e),
                Ok(value) => CompiledNode::<E, C>::parameters_yield(
                    parameters,
                    names,
                    from + 1,
                    data,
                    so_far.insert(names[from], value),
                    a,
                ),
            };
        let eb = choose|ev: Evaluation| #[trigger]
            parameters[names[from]].evaluates_to(data, ev) && match ev {
                Err(e) => b == Err::<Bindings, RuntimeErrorView>(e),
                Ok(value) => CompiledNode::<E, C>::parameters_yield(
                    parameters,
                    names,
                    from + 1,
                    data,
                    so_far.insert(names[from], value),
                    b,
                ),
            };
        assert(deterministic_expression(parameters[names[from]]));
        assert(ea == eb);
        if let Ok(value) = ea {
            lemma_parameters_are_deterministic::<E, C>(
                parameters,
                names,
                from + 1,
                data,
                so_far.insert(names[from], value),
                a,
                b,
            );
        }
    }
}

/// The records that a sink gives where it runs once for each item from
/// `from` on, the item bound to `output_var`: one record for each item, in
/// the order of the items.
pub open spec fn one_record_each(
    sink_id: Seq<char>,
    output_var: Seq<char>,
    items: Seq<JsonValue>,
    from: int,
    data: Bindings,
) -> Seq<OutputRecord> {
    Seq::new(
        (items.len() - from) as nat,
        |i: int|
            OutputRecord { node_id: sink_id, variables: data.insert(output_var, items[from + i]) },
    )
}

/// A sink that runs once for each item gives one record for each item, in
/// the order of the items, with the item bound to the output variable.
pub proof fn lemma_each_item_reaches_the_sink<E: CompiledExpression, C: CustomNode>(
    sink: CompiledSink,
    output_var: Seq<char>,
    items: Seq<JsonValue>,
    from: int,
    data: Bindings,
    result: Outcome,
)
    requires
        0 <= from <= items.len(),
        CompiledNode::<E, C>::each_yields(
            CompiledNode::Sink(sink),
            output_var,
            items,
            from,
            data,
            result,
        ),
    ensures
        result == Ok::<Seq<OutputRecord>, RuntimeErrorView>(
            one_record_each(sink.node_id@, output_var, items, from, data),
        ),
    decreases items.len() - from,
{
    let rest = CompiledNode::<E, C>::Sink(sink);
    if from < items.len() {
        let first = choose|first: Outcome| #[trigger]
            considered(first) && rest.spec_yields(data.insert(output_var, items[from]), first)
                && match first {
                Err(e) => result == Err::<Seq<OutputRecord>, RuntimeErrorView>(e),
                Ok(head) => exists|more: Outcome| #[trigger]
                    considered(more) && CompiledNode::each_yields(
                        rest,
                        output_var,
                        items,
                        from + 1,
                        data,
                        more,
                    ) && followed_by(head, more, result),
            };
        let head = first->Ok_0;
        let more = choose|more: Outcome| #[trigger]
            considered(more) && CompiledNode::each_yields(
                rest,
                output_var,
                items,
                from + 1,
                data,
                more,
            ) && followed_by(head, more, result);
        lemma_each_item_reaches_the_sink::<E, C>(sink, output_var, items, from + 1, data, more);
        assert(head + one_record_each(sink.node_id@, output_var, items, from + 1, data)
            =~= one_record_each(sink.node_id@, output_var, items, from, data));
    } else {
        assert(one_record_each(sink.node_id@, output_var, items, from, data) =~= Seq::empty());
    }
}

/// `forEach` before a sink: where the run gives records, the parameter
/// `value` held an array, and the sink gives one record for each element, in
/// the order of the elements, with the element bound to the output variable.
pub proof fn lemma_for_each_round_trip<E: CompiledExpression>(
    node: CompiledCustomNode<E, ForEach>,
    sink: CompiledSink,
    data: Bindings,
    records: Seq<OutputRecord>,
)
    requires
        *node.rest == CompiledNode::<E, ForEach>::Sink(sink),
        CompiledNode::Custom(node).spec_yields(data, Ok(records)),
    ensures
        exists|parameters: Bindings, items: Seq<JsonValue>|
            {
                &&& #[trigger] CompiledNode::<E, ForEach>::parameters_yield(
                    node.params@,
                    node.params.names(),
                    0,
                    data,
                    Map::empty(),
                    Ok(parameters),
                )
                &&& for_each_expansion(parameters) == Ok::<Seq<JsonValue>, RuntimeErrorView>(
                    items,
                )
                &&& records == #[trigger] one_record_each(
                    sink.node_id@,
                    node.output_var@,
                    items,
                    0,
                    data,
                )
            },
{
    let values = choose|values: ParameterValues| #[trigger]
        considered(values) && CompiledNode::<E, ForEach>::parameters_yield(
            node.params@,
            node.params.names(),
            0,
            data,
            Map::empty(),
            values,
        ) && match values {
            Err(e) => Ok::<Seq<OutputRecord>, RuntimeErrorView>(records) == Err::<
                Seq<OutputRecord>,
                RuntimeErrorView,
            >(e),
            Ok(parameters) => exists|expansion: Expansion| #[trigger]
                considered(expansion) && node.custom_node.expands_to(parameters, data, expansion)
                    && match expansion {
                    Err(e) => Ok::<Seq<OutputRecord>, RuntimeErrorView>(records) == Err::<
                        Seq<OutputRecord>,
                        RuntimeErrorView,
                    >(e),
                    Ok(items) => CompiledNode::each_yields(
                        *node.rest,
                        node.output_var@,
                        items,
                        0,
                        data,
                        Ok(records),
                    ),
                },
        };
    let parameters = values->Ok_0;
    let expansion = choose|expansion: Expansion| #[trigger]
        considered(expansion) && node.custom_node.expands_to(parameters, data, expansion)
            && match expansion {
            Err(e) => Ok::<Seq<OutputRecord>, RuntimeErrorView>(records) == Err::<
                Seq<OutputRecord>,
                RuntimeErrorView,
            >(e),
            Ok(items) => CompiledNode::each_yields(
                *node.rest,
                node.output_var@,
                items,
                0,
                data,
                Ok(records),
            ),
        };
    let items = expansion->Ok_0;
    lemma_each_item_reaches_the_sink::<E, ForEach>(
        sink,
        node.output_var@,
        items,
        0,
        data,
        Ok(records),
    );
    assert(for_each_expansion(parameters) == Ok::<Seq<JsonValue>, RuntimeErrorView>(items));
}

/// A scenario with something wrong is refused. An empty scenario and one
/// that does not start with a source are refused with exactly that. Else
/// the error is the first thing wrong with the scenario, unless a parser
/// refused an expression that the compiler reached before it.
pub proof fn lemma_defective_scenario_is_refused<P: Parser, C: CustomNode>(
    compiler: Compiler<P, C>,
    nodes: Seq<NodeView>,
    result: CompilationResult<P::Compiled, C>,
)
    requires
        compiler.scenario_compiles_to(nodes, result),
    ensures
        nodes.len() == 0 ==> result is Err && result->Err_0@ == CompilationErrorView::EmptyScenario,
        nodes.len() > 0 && !(nodes[0] is Source) ==> result is Err && result->Err_0@
            == CompilationErrorView::FirstNodeNotSource(nodes[0].id()),
        compiler.scenario_defect(nodes) is Some ==> result is Err,
        result is Err && !(result->Err_0@ is ParseError) ==> compiler.scenario_defect(nodes) == Some(
            result->Err_0@,
        ),
        result is Err && result->Err_0@ is ParseError ==> nodes.len() > 0 && nodes[0] is Source
            && compiler.refused_in(
            compiler.parse_sites(nodes, 1, seq![input_name()]),
            result->Err_0,
        ),
{
}

/// What is wrong with a node, where nothing is wrong before it in the node:
/// nodes after a sink, a switch or a split; a name that is no variable
/// name; a language or a custom node that is not registered; a source that
/// is not the first node.
pub proof fn lemma_defects_by_kind<P: Parser, C: CustomNode>(
    compiler: Compiler<P, C>,
    nodes: Seq<NodeView>,
    at: int,
)
    requires
        0 <= at < nodes.len(),
    ensures
        match nodes[at] {
            NodeView::Sink { id } => at + 1 < nodes.len() ==> compiler.node_defect(nodes, at)
                == Some(
                CompilationErrorView::NodesAfterEndingNode {
                    node_id: id,
                    unexpected_nodes: nodes.subrange(at + 1, nodes.len() as int),
                },
            ),
            NodeView::Switch { id, nexts } => at + 1 < nodes.len() && compiler.cases_defect(
                nexts,
                0,
                id,
            ) is None ==> compiler.node_defect(nodes, at) == Some(
                CompilationErrorView::NodesAfterEndingNode {
                    node_id: id,
                    unexpected_nodes: nodes.subrange(at + 1, nodes.len() as int),
                },
            ),
            NodeView::Split { id, nexts } => at + 1 < nodes.len() && compiler.branches_defect(
                nexts,
                0,
                id,
            ) is None ==> compiler.node_defect(nodes, at) == Some(
                CompilationErrorView::NodesAfterEndingNode {
                    node_id: id,
                    unexpected_nodes: nodes.subrange(at + 1, nodes.len() as int),
                },
            ),
            NodeView::Filter { id, expression } => !compiler.knows_language(expression)
                ==> compiler.node_defect(nodes, at) == Some(
                CompilationErrorView::UnknownLanguage { node_id: id, language: expression.language },
            ),
            NodeView::Variable { id, var_name, value } => {
                &&& !compiler.knows_language(value) ==> compiler.node_defect(nodes, at) == Some(
                    CompilationErrorView::UnknownLanguage { node_id: id, language: value.language },
                )
                &&& compiler.knows_language(value) && !is_valid_var_name(var_name)
                    ==> compiler.node_defect(nodes, at) == Some(
                    CompilationErrorView::IncorrectVariableName { node_id: id, var_name },
                )
            },
            NodeView::CustomNode { id, output_var, node_type, parameters } => {
                &&& !compiler.custom_nodes@.contains_key(node_type) ==> compiler.node_defect(
                    nodes,
                    at,
                ) == Some(CompilationErrorView::UnknownCustomNode { node_id: id, node_type })
                &&& compiler.custom_nodes@.contains_key(node_type) && compiler.parameters_defect(
                    parameters,
                    0,
                    id,
                ) is None && !is_valid_var_name(output_var) ==> compiler.node_defect(nodes, at)
                    == Some(
                    CompilationErrorView::IncorrectVariableName {
                        node_id: id,
                        var_name: output_var,
                    },
                )
            },
            NodeView::Source { id } => compiler.node_defect(nodes, at) == Some(
                CompilationErrorView::UnknownNode(id),
            ),
        },
{
}

/// Whether each of `sites` has at least the names `least` in scope and at
/// most the names `most`.
pub open spec fn scopes_within(
    sites: Seq<ParseSite>,
    least: Set<Seq<char>>,
    most: Set<Seq<char>>,
) -> bool {
    forall|k: int|
        0 <= k < sites.len() ==> least.subset_of((#[trigger] sites[k]).scope.to_set())
            && sites[k].scope.to_set().subset_of(most)
}

/// The names that the nodes from `from` on bind, nested nodes included.
pub open spec fn bound_names(nodes: Seq<NodeView>, from: int) -> Set<Seq<char>>
    decreases nodes, nodes.len() - from, 1nat,
{
    if from < 0 || from >= nodes.len() {
        Set::empty()
    } else {
        node_bound_names(nodes, from).union(bound_names(nodes, from + 1))
    }
}

/// The names that the node at `at` binds, nested nodes included.
pub open spec fn node_bound_names(nodes: Seq<NodeView>, at: int) -> Set<Seq<char>>
    decreases nodes, nodes.len() - at, 0nat,
{
    if at < 0 || at >= nodes.len() {
        Set::empty()
    } else {
        match nodes[at] {
            NodeView::Variable { var_name, .. } => Set::empty().insert(var_name),
            NodeView::CustomNode { output_var, .. } => Set::empty().insert(output_var),
            NodeView::Switch { nexts, .. } => cases_bound_names(nexts, 0),
            NodeView::Split { nexts, .. } => branches_bound_names(nexts, 0),
            _ => Set::empty(),
        }
    }
}

/// The names that the cases of a switch from `from` on bind.
pub open spec fn cases_bound_names(cases: Seq<CaseView>, from: int) -> Set<Seq<char>>
    decreases cases, cases.len() - from, 0nat,
{
    if from < 0 || from >= cases.len() {
        Set::empty()
    } else {
        bound_names(cases[from].nodes, 0).union(cases_bound_names(cases, from + 1))
    }
}

/// The names that the branches of a split from `from` on bind.
pub open spec fn branches_bound_names(branches: Seq<Seq<NodeView>>, from: int) -> Set<Seq<char>>
    decreases branches, branches.len() - from, 0nat,
{
    if from < 0 || from >= branches.len() {
        Set::empty()
    } else {
        bound_names(branches[from], 0).union(branches_bound_names(branches, from + 1))
    }
}

/// The names in scope after a name came into scope are those before and the
/// name.
pub proof fn lemma_extended_names(scope: Seq<Seq<char>>, name: Seq<char>)
    ensures
        extended(scope, name).to_set() == scope.to_set().insert(name),
{
    let after = extended(scope, name);
    assert forall|n: Seq<char>| after.to_set().contains(n) <==> scope.to_set().insert(
        name,
    ).contains(n) by {
        if scope.to_set().contains(name) {
        } else {
            if after.contains(n) {
                let i = choose|i: int| 0 <= i < after.len() && after[i] == n;
                if i < scope.len() {
                    assert(scope[i] == n);
                }
            }
            if scope.contains(n) {
                let i = choose|i: int| 0 <= i < scope.len() && scope[i] == n;
                assert(after[i] == n);
            }
            assert(after[scope.len() as int] == name);
        }
    }
    assert(after.to_set() =~= scope.to_set().insert(name));
}

/// Sites within bounds, one after the other, are within the bounds.
pub proof fn lemma_scopes_within_both(
    head: Seq<ParseSite>,
    tail: Seq<ParseSite>,
    least: Set<Seq<char>>,
    most: Set<Seq<char>>,
)
    requires
        scopes_within(head, least, most),
        scopes_within(tail, least, most),
    ensures
        scopes_within(head + tail, least, most),
{
    assert forall|k: int| 0 <= k < (head + tail).len() implies least.subset_of(
        (#[trigger] (head + tail)[k]).scope.to_set(),
    ) && (head + tail)[k].scope.to_set().subset_of(most) by {
        if k < head.len() {
            assert((head + tail)[k] == head[k]);
        } else {
            assert((head + tail)[k] == tail[k - head.len()]);
        }
    }
}

/// Sites within bounds are within wider bounds.
pub proof fn lemma_scopes_within_wider(
    sites: Seq<ParseSite>,
    least: Set<Seq<char>>,
    most: Set<Seq<char>>,
    fewer: Set<Seq<char>>,
    more: Set<Seq<char>>,
)
    requires
        scopes_within(sites, least, most),
        fewer.subset_of(least),
        most.subset_of(more),
    ensures
        scopes_within(sites, fewer, more),
{
    assert forall|k: int| 0 <= k < sites.len() implies fewer.subset_of(
        (#[trigger] sites[k]).scope.to_set(),
    ) && sites[k].scope.to_set().subset_of(more) by {
        assert(least.subset_of(sites[k].scope.to_set()));
        assert(sites[k].scope.to_set().subset_of(most));
    }
}

/// Variable scoping, for the nodes of one sequence. Wherever the compiler
/// parses an expression while it compiles the nodes from `from` on, every
/// name in `scope` is in scope, and every name in scope there is in `scope`
/// or bound by one of these nodes.
pub proof fn lemma_scopes_of_nodes<P: Parser, C: CustomNode>(
    compiler: Compiler<P, C>,
    nodes: Seq<NodeView>,
    from: int,
    scope: Seq<Seq<char>>,
)
    ensures
        scopes_within(
            compiler.parse_sites(nodes, from, scope),
            scope.to_set(),
            scope.to_set().union(bound_names(nodes, from)),
        ),
    decreases nodes, nodes.len() - from, 1nat,
{
    if 0 <= from < nodes.len() {
        lemma_scopes_of_node(compiler, nodes, from, scope);
        lemma_scopes_within_wider(
            compiler.node_sites(nodes, from, scope),
            scope.to_set(),
            scope.to_set().union(node_bound_names(nodes, from)).union(
                bound_names(nodes, from + 1),
            ),
            scope.to_set(),
            scope.to_set().union(bound_names(nodes, from)),
        );
    }
}

/// Variable scoping, for one node and what follows it: as
/// `lemma_scopes_of_nodes`.
pub proof fn lemma_scopes_of_node<P: Parser, C: CustomNode>(
    compiler: Compiler<P, C>,
    nodes: Seq<NodeView>,
    at: int,
    scope: Seq<Seq<char>>,
)
    requires
        0 <= at < nodes.len(),
    ensures
        scopes_within(
            compiler.node_sites(nodes, at, scope),
            scope.to_set(),
            scope.to_set().union(node_bound_names(nodes, at)).union(bound_names(nodes, at + 1)),
        ),
    decreases nodes, nodes.len() - at, 0nat,
{
    let least = scope.to_set();
    let most = scope.to_set().union(node_bound_names(nodes, at)).union(bound_names(nodes, at + 1));
    match nodes[at] {
        NodeView::Filter { id, expression } => {
            if compiler.knows_language(expression) {
                let here = seq![ParseSite { node_id: id, expression, scope }];
                lemma_scopes_of_nodes(compiler, nodes, at + 1, scope);
                lemma_scopes_within_wider(
                    compiler.parse_sites(nodes, at + 1, scope),
                    least,
                    least.union(bound_names(nodes, at + 1)),
                    least,
                    most,
                );
                lemma_scopes_within_both(
                    here,
                    compiler.parse_sites(nodes, at + 1, scope),
                    least,
                    most,
                );
            }
        },
        NodeView::Variable { id, var_name, value } => {
            if compiler.knows_language(value) {
                let here = seq![ParseSite { node_id: id, expression: value, scope }];
                if is_valid_var_name(var_name) {
                    let inner = extended(scope, var_name);
                    lemma_extended_names(scope, var_name);
                    lemma_scopes_of_nodes(compiler, nodes, at + 1, inner);
                    lemma_scopes_within_wider(
                        compiler.parse_sites(nodes, at + 1, inner),
                        inner.to_set(),
                        inner.to_set().union(bound_names(nodes, at + 1)),
                        least,
                        most,
                    );
                    lemma_scopes_within_both(
                        here,
                        compiler.parse_sites(nodes, at + 1, inner),
                        least,
                        most,
                    );
                }
            }
        },
        NodeView::Switch { id, nexts } => {
            lemma_scopes_of_cases(compiler, nexts, 0, id, scope);
            lemma_scopes_within_wider(
                compiler.cases_sites(nexts, 0, id, scope),
                least,
                least.union(cases_bound_names(nexts, 0)),
                least,
                most,
            );
        },
        NodeView::Split { id, nexts } => {
            lemma_scopes_of_branches(compiler, nexts, 0, id, scope);
            lemma_scopes_within_wider(
                compiler.branches_sites(nexts, 0, id, scope),
                least,
                least.union(branches_bound_names(nexts, 0)),
                least,
                most,
            );
        },
        NodeView::Sink { id } => {},
        NodeView::CustomNode { id, output_var, node_type, parameters } => {
            if compiler.custom_nodes@.contains_key(node_type) {
                let own = compiler.parameters_sites(parameters, 0, id, scope);
                lemma_scopes_of_parameters(compiler, parameters, 0, id, scope);
                lemma_scopes_within_wider(own, least, least, least, most);
                if !(compiler.parameters_defect(parameters, 0, id) is Some || !is_valid_var_name(
                    output_var,
                )) {
                    let inner = extended(scope, output_var);
                    lemma_extended_names(scope, output_var);
                    lemma_scopes_of_nodes(compiler, nodes, at + 1, inner);
                    lemma_scopes_within_wider(
                        compiler.parse_sites(nodes, at + 1, inner),
                        inner.to_set(),
                        inner.to_set().union(bound_names(nodes, at + 1)),
                        least,
                        most,
                    );
                    lemma_scopes_within_both(
                        own,
                        compiler.parse_sites(nodes, at + 1, inner),
                        least,
                        most,
                    );
                }
            }
        },
        NodeView::Source { id } => {},
    }
}

/// Variable scoping, for the cases of a switch: each case starts in the
/// scope of the switch, whatever the other cases bind.
pub proof fn lemma_scopes_of_cases<P: Parser, C: CustomNode>(
    compiler: Compiler<P, C>,
    cases: Seq<CaseView>,
    from: int,
    id: Seq<char>,
    scope: Seq<Seq<char>>,
)
    requires
        0 <= from,
    ensures
        scopes_within(
            compiler.cases_sites(cases, from, id, scope),
            scope.to_set(),
            scope.to_set().union(cases_bound_names(cases, from)),
        ),
    decreases cases, cases.len() - from, 0nat,
{
    let least = scope.to_set();
    let most = scope.to_set().union(cases_bound_names(cases, from));
    if from < cases.len() && compiler.knows_language(cases[from].expression) {
        let here = seq![ParseSite { node_id: id, expression: cases[from].expression, scope }];
        let inner = compiler.parse_sites(cases[from].nodes, 0, scope);
        lemma_scopes_of_nodes(compiler, cases[from].nodes, 0, scope);
        lemma_scopes_within_wider(
            inner,
            least,
            least.union(bound_names(cases[from].nodes, 0)),
            least,
            most,
        );
        lemma_scopes_within_both(here, inner, least, most);
        if !(compiler.first_defect(cases[from].nodes, 0, id) is Some) {
            let later = compiler.cases_sites(cases, from + 1, id, scope);
            lemma_scopes_of_cases(compiler, cases, from + 1, id, scope);
            lemma_scopes_within_wider(
                later,
                least,
                least.union(cases_bound_names(cases, from + 1)),
                least,
                most,
            );
            lemma_scopes_within_both(here + inner, later, least, most);
        }
    }
}

/// Variable scoping, for the branches of a split: each branch starts in the
/// scope of the split, whatever the other branches bind.
pub proof fn lemma_scopes_of_branches<P: Parser, C: CustomNode>(
    compiler: Compiler<P, C>,
    branches: Seq<Seq<NodeView>>,
    from: int,
    id: Seq<char>,
    scope: Seq<Seq<char>>,
)
    requires
        0 <= from,
    ensures
        scopes_within(
            compiler.branches_sites(branches, from, id, scope),
            scope.to_set(),
            scope.to_set().union(branches_bound_names(branches, from)),
        ),
    decreases branches, branches.len() - from, 0nat,
{
    let least = scope.to_set();
    let most = scope.to_set().union(branches_bound_names(branches, from));
    if from < branches.len() {
        let here = compiler.parse_sites(branches[from], 0, scope);
        lemma_scopes_of_nodes(compiler, branches[from], 0, scope);
        lemma_scopes_within_wider(
            here,
            least,
            least.union(bound_names(branches[from], 0)),
            least,
            most,
        );
        if !(compiler.first_defect(branches[from], 0, id) is Some) {
            let later = compiler.branches_sites(branches, from + 1, id, scope);
            lemma_scopes_of_branches(compiler, branches, from + 1, id, scope);
            lemma_scopes_within_wider(
                later,
                least,
                least.union(branches_bound_names(branches, from + 1)),
                least,
                most,
            );
            lemma_scopes_within_both(here, later, least, most);
        }
    }
}

/// The parameters of a custom node are parsed in the scope of the node: the
/// output variable is not in scope for them.
pub proof fn lemma_scopes_of_parameters<P: Parser, C: CustomNode>(
    compiler: Compiler<P, C>,
    parameters: Seq<ParameterView>,
    from: int,
    id: Seq<char>,
    scope: Seq<Seq<char>>,
)
    requires
        0 <= from,
    ensures
        scopes_within(
            compiler.parameters_sites(parameters, from, id, scope),
            scope.to_set(),
            scope.to_set(),
        ),
    decreases parameters.len() - from,
{
    if from < parameters.len() && compiler.knows_language(parameters[from].expression) {
        let here = seq![ParseSite { node_id: id, expression: parameters[from].expression, scope }];
        lemma_scopes_of_parameters(compiler, parameters, from + 1, id, scope);
        lemma_scopes_within_both(
            here,
            compiler.parameters_sites(parameters, from + 1, id, scope),
            scope.to_set(),
            scope.to_set(),
        );
    }
}

/// A name that a variable or a custom node binds is in scope wherever the
/// compiler parses an expression in what follows the node.
pub proof fn lemma_bound_name_is_visible_downstream<P: Parser, C: CustomNode>(
    compiler: Compiler<P, C>,
    nodes: Seq<NodeView>,
    at: int,
    scope: Seq<Seq<char>>,
    name: Seq<char>,
    k: int,
)
    requires
        0 <= at < nodes.len(),
        node_bound_names(nodes, at).contains(name),
        nodes[at] is Variable || nodes[at] is CustomNode,
        0 <= k < compiler.parse_sites(nodes, at + 1, extended(scope, name)).len(),
    ensures
        compiler.parse_sites(nodes, at + 1, extended(scope, name))[k].scope.contains(name),
{
    lemma_extended_names(scope, name);
    lemma_scopes_of_nodes(compiler, nodes, at + 1, extended(scope, name));
    let site = compiler.parse_sites(nodes, at + 1, extended(scope, name))[k];
    assert(extended(scope, name).to_set().subset_of(site.scope.to_set()));
    assert(site.scope.to_set().contains(name));
}

/// A name that is not in scope at a split, and that a branch does not bind
/// itself, is in scope nowhere in that branch, whatever the other branches
/// bind.
pub proof fn lemma_sibling_branch_does_not_see<P: Parser, C: CustomNode>(
    compiler: Compiler<P, C>,
    branches: Seq<Seq<NodeView>>,
    branch: int,
    scope: Seq<Seq<char>>,
    name: Seq<char>,
    k: int,
)
    requires
        0 <= branch < branches.len(),
        !scope.contains(name),
        !bound_names(branches[branch], 0).contains(name),
        0 <= k < compiler.parse_sites(branches[branch], 0, scope).len(),
    ensures
        !compiler.parse_sites(branches[branch], 0, scope)[k].scope.contains(name),
{
    lemma_scopes_of_nodes(compiler, branches[branch], 0, scope);
    let site = compiler.parse_sites(branches[branch], 0, scope)[k];
    assert(site.scope.to_set().subset_of(scope.to_set().union(bound_names(branches[branch], 0))));
    if site.scope.contains(name) {
        assert(site.scope.to_set().contains(name));
        assert(scope.to_set().contains(name));
    }
}

} // verus!
