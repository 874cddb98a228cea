//! The compiler: it walks a scenario from its source, checks it, and builds
//! the tree of executable nodes. This file holds the tree and what running
//! it means; each kind of node has a file of its own.
use crate::customnodes::ForEach;
use crate::expression::{CompiledExpression, LanguageParser, Parser};
use crate::interpreter::data::{
    input_name, is_valid_var_name, outcome_of, Bindings, CompilationErrorView, CompilationVarContext,
    Evaluation, JsonValue, OutputRecord, Outcome, RuntimeErrorView, ScenarioCompilationError,
    ScenarioOutput, ScenarioRuntimeError, SingleScenarioOutput, VarContext,
};
use crate::scenariomodel::{
    nodes_view, CaseView, ExpressionView, Node, NodeId, NodeView, ParameterView, Scenario,
};
use crate::interpreter::{CustomNode, Expansion, Interpreter};
use crate::namemap::NameMap;
use std::sync::Arc;
use vstd::prelude::*;

pub mod customnode;
pub mod filter;
pub mod sink;
pub mod split;
pub mod switch;
pub mod variable;

use customnode::CompiledCustomNode;
use filter::CompiledFilter;
use sink::CompiledSink;
use split::CompiledSplit;
use switch::{CompiledCase, CompiledSwitch};
use variable::CompiledVariable;

verus! {

/// A compiled scenario, or the rest of one from some node on. Each node owns
/// what follows it.
pub enum CompiledNode<E, C> {
    Filter(CompiledFilter<E, C>),
    Variable(CompiledVariable<E, C>),
    Switch(CompiledSwitch<E, C>),
    Split(CompiledSplit<E, C>),
    Sink(CompiledSink),
    Custom(CompiledCustomNode<E, C>),
}

/// Marks a value as one to look at where a contract says that some value
/// exists.
pub open spec fn considered<T>(value: T) -> bool {
    true
}

/// The output that holds no record.
pub open spec fn no_records() -> Outcome {
    Ok(Seq::<OutputRecord>::empty())
}

/// Whether `result` is what comes of `head` followed by `more`: the records
/// of both in order, or the error of `more`.
pub open spec fn followed_by(head: Seq<OutputRecord>, more: Outcome, result: Outcome) -> bool {
    match more {
        Ok(tail) => result == Ok::<Seq<OutputRecord>, RuntimeErrorView>(head + tail),
        Err(e) => result == Err::<Seq<OutputRecord>, RuntimeErrorView>(e),
    }
}

/// What evaluating the parameters of a custom node gives: the value of each
/// by name, or the first error.
pub type ParameterValues = Result<Bindings, RuntimeErrorView>;

impl<E: CompiledExpression, C: CustomNode> CompiledNode<E, C> {
    /// Whether running this node on the bindings `data` may give `result`.
    /// The first error ends the run and is the result.
    pub open spec fn spec_yields(self, data: Bindings, result: Outcome) -> bool
        decreases self, 0nat,
    {
        match self {
            // the predicate must give a boolean: `true` lets the data pass,
            // `false` drops it, anything else is an error
            CompiledNode::Filter(f) => exists|ev: Evaluation| #[trigger]
                f.expression.evaluates_to(data, ev) && match ev {
                    Err(e) => result == Err::<Seq<OutputRecord>, RuntimeErrorView>(e),
                    Ok(JsonValue::Bool(true)) => f.rest.spec_yields(data, result),
                    Ok(JsonValue::Bool(false)) => result == no_records(),
                    Ok(other) => result == Err::<Seq<OutputRecord>, RuntimeErrorView>(
                        RuntimeErrorView::InvalidFilterType(other),
                    ),
                },
            // the value is bound for what follows
            CompiledNode::Variable(v) => exists|ev: Evaluation| #[trigger]
                v.expression.evaluates_to(data, ev) && match ev {
                    Err(e) => result == Err::<Seq<OutputRecord>, RuntimeErrorView>(e),
                    Ok(value) => v.rest.spec_yields(data.insert(v.var_name@, value), result),
                },
            CompiledNode::Switch(s) => Self::cases_yield(s.nexts@, 0, data, result),
            CompiledNode::Split(s) => Self::branches_yield(s.nexts@, 0, data, result),
            CompiledNode::Sink(s) => result == Ok::<Seq<OutputRecord>, RuntimeErrorView>(
                seq![OutputRecord { node_id: s.node_id@, variables: data }],
            ),
            CompiledNode::Custom(c) => exists|values: ParameterValues| #[trigger]
                considered(values) && Self::parameters_yield(
                    c.params@,
                    c.params.names(),
                    0,
                    data,
                    Map::empty(),
                    values,
                ) && match values {
                    Err(e) => result == Err::<Seq<OutputRecord>, RuntimeErrorView>(e),
                    Ok(parameters) => exists|expansion: Expansion| #[trigger]
                        considered(expansion) && c.custom_node.expands_to(
                            parameters,
                            data,
                            expansion,
                        ) && match expansion {
                            Err(e) => result == Err::<Seq<OutputRecord>, RuntimeErrorView>(e),
                            Ok(items) => Self::each_yields(
                                *c.rest,
                                c.output_var@,
                                items,
                                0,
                                data,
                                result,
                            ),
                        },
                },
        }
    }

    /// Whether the cases from `from` on may give `result`: the first case
    /// whose predicate gives `true` runs on the unchanged bindings, and no
    /// later case is looked at; with no such case there is no record.
    pub open spec fn cases_yield(
        cases: Seq<CompiledCase<E, C>>,
        from: int,
        data: Bindings,
        result: Outcome,
    ) -> bool
        decreases cases, cases.len() - from,
    {
        if from < 0 || from >= cases.len() {
            result == no_records()
        } else {
            exists|ev: Evaluation| #[trigger]
                cases[from].expression.evaluates_to(data, ev) && match ev {
                    Err(e) => result == Err::<Seq<OutputRecord>, RuntimeErrorView>(e),
                    Ok(JsonValue::Bool(true)) => cases[from].rest.spec_yields(data, result),
                    Ok(JsonValue::Bool(false)) => Self::cases_yield(cases, from + 1, data, result),
                    Ok(other) => result == Err::<Seq<OutputRecord>, RuntimeErrorView>(
                        RuntimeErrorView::InvalidSwitchType(other),
                    ),
                }
        }
    }

    /// Whether the branches from `from` on, each run on the same bindings,
    /// may give `result`: their records in the order of the branches.
    pub open spec fn branches_yield(
        branches: Seq<CompiledNode<E, C>>,
        from: int,
        data: Bindings,
        result: Outcome,
    ) -> bool
        decreases branches, branches.len() - from,
    {
        if from < 0 || from >= branches.len() {
            result == no_records()
        } else {
            exists|first: Outcome| #[trigger]
                considered(first) && branches[from].spec_yields(data, first) && match first {
                    Err(e) => result == Err::<Seq<OutputRecord>, RuntimeErrorView>(e),
                    Ok(head) => exists|more: Outcome| #[trigger]
                        considered(more) && Self::branches_yield(branches, from + 1, data, more)
                            && followed_by(head, more, result),
                }
        }
    }

    /// Whether the rest of the scenario, run once for each item from `from`
    /// on with the item bound to `output_var`, may give `result`: the records
    /// of the runs in the order of the items.
    pub open spec fn each_yields(
        rest: CompiledNode<E, C>,
        output_var: Seq<char>,
        items: Seq<JsonValue>,
        from: int,
        data: Bindings,
        result: Outcome,
    ) -> bool
        decreases rest, items.len() - from,
    {
        if from < 0 || from >= items.len() {
            result == no_records()
        } else {
            exists|first: Outcome| #[trigger]
                considered(first) && rest.spec_yields(data.insert(output_var, items[from]), first)
                    && match first {
                    Err(e) => result == Err::<Seq<OutputRecord>, RuntimeErrorView>(e),
                    Ok(head) => exists|more: Outcome| #[trigger]
                        considered(more) && Self::each_yields(
                            rest,
                            output_var,
                            items,
                            from + 1,
                            data,
                            more,
                        ) && followed_by(head, more, result),
                }
        }
    }

    /// Whether evaluating the parameters from `from` on, in the order of
    /// their names, may add to `so_far` to give `values`.
    pub open spec fn parameters_yield(
        parameters: Map<Seq<char>, E>,
        names: Seq<Seq<char>>,
        from: int,
        data: Bindings,
        so_far: Bindings,
        values: ParameterValues,
    ) -> bool
        decreases names.len() - from,
    {
        if from < 0 || from >= names.len() {
            values == Ok::<Bindings, RuntimeErrorView>(so_far)
        } else {
            exists|ev: Evaluation| #[trigger]
                parameters[names[from]].evaluates_to(data, ev) && match ev {
                    Err(e) => values == Err::<Bindings, RuntimeErrorView>(e),
                    Ok(value) => Self::parameters_yield(
                        parameters,
                        names,
                        from + 1,
                        data,
                        so_far.insert(names[from], value),
                        values,
                    ),
                }
        }
    }
}

impl<E: CompiledExpression, C: CustomNode> CompiledNode<E, C> {
    /// Runs this node on a context.
    pub fn run_node(&self, data: &VarContext) -> (r: Result<ScenarioOutput, ScenarioRuntimeError>)
        ensures
            self.spec_yields(data@, outcome_of(r)),
        decreases self, 2nat,
    {
        match self {
            CompiledNode::Filter(f) => f.run(data),
            CompiledNode::Variable(v) => v.run(data),
            CompiledNode::Switch(s) => s.run(data),
            CompiledNode::Split(s) => s.run(data),
            CompiledNode::Sink(s) => s.run(data),
            CompiledNode::Custom(c) => c.run(data),
        }
    }
}

impl<E: CompiledExpression, C: CustomNode> Interpreter for CompiledNode<E, C> {
    open spec fn yields(&self, data: Bindings, result: Outcome) -> bool {
        self.spec_yields(data, result)
    }

    fn run(&self, data: &VarContext) -> (r: Result<ScenarioOutput, ScenarioRuntimeError>) {
        self.run_node(data)
    }
}

/// The views of the records of an output under construction.
pub open spec fn records_of(records: Seq<SingleScenarioOutput>) -> Seq<OutputRecord> {
    records.map_values(|o: SingleScenarioOutput| o@)
}

/// What comes of the records `so_far` followed by `tail`.
pub open spec fn prefixed(so_far: Seq<OutputRecord>, tail: Outcome) -> Outcome {
    match tail {
        Ok(records) => Ok(so_far + records),
        Err(e) => Err(e),
    }
}

/// The compiler. It knows the languages in which expressions may be written
/// and the custom nodes that a scenario may use, each by its name.
pub struct Compiler<P: Parser, C: CustomNode> {
    pub custom_nodes: NameMap<Arc<C>>,
    pub parser: LanguageParser<P>,
}

/// The names in scope after `name` came into scope: a name already there
/// changes nothing.
pub open spec fn extended(scope: Seq<Seq<char>>, name: Seq<char>) -> Seq<Seq<char>> {
    if scope.to_set().contains(name) {
        scope
    } else {
        scope.push(name)
    }
}

/// What is wrong where nodes follow a node that must be the last of its
/// sequence.
pub open spec fn end_defect(nodes: Seq<NodeView>, at: int, id: Seq<char>) -> Option<
    CompilationErrorView,
> {
    if at + 1 >= nodes.len() {
        None
    } else {
        Some(
            CompilationErrorView::NodesAfterEndingNode {
                node_id: id,
                unexpected_nodes: nodes.subrange(at + 1, nodes.len() as int),
            },
        )
    }
}

impl<P: Parser, C: CustomNode> Compiler<P, C> {
    /// Whether a language is registered under the name that an expression
    /// gives.
    pub open spec fn knows_language(&self, expression: ExpressionView) -> bool {
        self.parser.languages().contains_key(expression.language)
    }

    /// The first thing wrong with the nodes from `from` on, in the order in
    /// which the compiler meets them, parsing aside: `None` where the
    /// sequence is well formed. `prev` is the node before `from`.
    pub open spec fn first_defect(&self, nodes: Seq<NodeView>, from: int, prev: Seq<char>) -> Option<
        CompilationErrorView,
    >
        decreases nodes, nodes.len() - from, 1nat,
    {
        if from < 0 || from >= nodes.len() {
            Some(CompilationErrorView::InvalidEnd(prev))
        } else {
            self.node_defect(nodes, from)
        }
    }

    /// The first thing wrong with the node at `at` and what follows it.
    pub open spec fn node_defect(&self, nodes: Seq<NodeView>, at: int) -> Option<
        CompilationErrorView,
    >
        decreases nodes, nodes.len() - at, 0nat,
    {
        if at < 0 || at >= nodes.len() {
            None
        } else {
            match nodes[at] {
                NodeView::Filter { id, expression } => {
                    if !self.knows_language(expression) {
                        Some(
                            CompilationErrorView::UnknownLanguage {
                                node_id: id,
                                language: expression.language,
                            },
                        )
                    } else {
                        self.first_defect(nodes, at + 1, id)
                    }
                },
                NodeView::Variable { id, var_name, value } => {
                    if !self.knows_language(value) {
                        Some(
                            CompilationErrorView::UnknownLanguage {
                                node_id: id,
                                language: value.language,
                            },
                        )
                    } else if !is_valid_var_name(var_name) {
                        Some(CompilationErrorView::IncorrectVariableName { node_id: id, var_name })
                    } else {
                        self.first_defect(nodes, at + 1, id)
                    }
                },
                NodeView::Switch { id, nexts } => {
                    match self.cases_defect(nexts, 0, id) {
                        Some(defect) => Some(defect),
                        None => end_defect(nodes, at, id),
                    }
                },
                NodeView::Split { id, nexts } => {
                    match self.branches_defect(nexts, 0, id) {
                        Some(defect) => Some(defect),
                        None => end_defect(nodes, at, id),
                    }
                },
                NodeView::Sink { id } => end_defect(nodes, at, id),
                NodeView::CustomNode { id, output_var, node_type, parameters } => {
                    if !self.custom_nodes@.contains_key(node_type) {
                        Some(CompilationErrorView::UnknownCustomNode { node_id: id, node_type })
                    } else {
                        match self.parameters_defect(parameters, 0, id) {
                            Some(defect) => Some(defect),
                            None => {
                                if !is_valid_var_name(output_var) {
                                    Some(
                                        CompilationErrorView::IncorrectVariableName {
                                            node_id: id,
                                            var_name: output_var,
                                        },
                                    )
                                } else {
                                    self.first_defect(nodes, at + 1, id)
                                }
                            },
                        }
                    }
                },
                NodeView::Source { id } => Some(CompilationErrorView::UnknownNode(id)),
            }
        }
    }

    /// The first thing wrong with the cases of a switch from `from` on.
    pub open spec fn cases_defect(&self, cases: Seq<CaseView>, from: int, id: Seq<char>) -> Option<
        CompilationErrorView,
    >
        decreases cases, cases.len() - from, 0nat,
    {
        if from < 0 || from >= cases.len() {
            None
        } else if !self.knows_language(cases[from].expression) {
            Some(
                CompilationErrorView::UnknownLanguage {
                    node_id: id,
                    language: cases[from].expression.language,
                },
            )
        } else {
            match self.first_defect(cases[from].nodes, 0, id) {
                Some(defect) => Some(defect),
                None => self.cases_defect(cases, from + 1, id),
            }
        }
    }

    /// The first thing wrong with the branches of a split from `from` on.
    pub open spec fn branches_defect(
        &self,
        branches: Seq<Seq<NodeView>>,
        from: int,
        id: Seq<char>,
    ) -> Option<CompilationErrorView>
        decreases branches, branches.len() - from, 0nat,
    {
        if from < 0 || from >= branches.len() {
            None
        } else {
            match self.first_defect(branches[from], 0, id) {
                Some(defect) => Some(defect),
                None => self.branches_defect(branches, from + 1, id),
            }
        }
    }

    /// The first parameter from `from` on whose language is not registered.
    pub open spec fn parameters_defect(
        &self,
        parameters: Seq<ParameterView>,
        from: int,
        id: Seq<char>,
    ) -> Option<CompilationErrorView>
        decreases parameters.len() - from,
    {
        if from < 0 || from >= parameters.len() {
            None
        } else if !self.knows_language(parameters[from].expression) {
            Some(
                CompilationErrorView::UnknownLanguage {
                    node_id: id,
                    language: parameters[from].expression.language,
                },
            )
        } else {
            self.parameters_defect(parameters, from + 1, id)
        }
    }

    /// Whether `compiled` is what parsing `expression` for the node `id`,
    /// with the names `scope` in scope, may give.
    pub open spec fn parsed(
        &self,
        id: Seq<char>,
        expression: ExpressionView,
        scope: Seq<Seq<char>>,
        compiled: P::Compiled,
    ) -> bool {
        self.parser.parses_to(id, expression, scope, Ok(compiled))
    }

    /// Whether `tree` is the nodes from `from` on, compiled with the names
    /// `scope` in scope: node for node of the same kind, each expression
    /// parsed in the scope of its node, each name that a node binds in scope
    /// for what follows it, and for nothing else.
    pub open spec fn mirrors(
        &self,
        tree: CompiledNode<P::Compiled, C>,
        nodes: Seq<NodeView>,
        from: int,
        scope: Seq<Seq<char>>,
    ) -> bool
        decreases nodes, nodes.len() - from,
    {
        &&& 0 <= from < nodes.len()
        &&& match nodes[from] {
            NodeView::Filter { id, expression } => {
                &&& tree matches CompiledNode::Filter(f)
                &&& self.parsed(id, expression, scope, f.expression)
                &&& self.mirrors(*f.rest, nodes, from + 1, scope)
            },
            NodeView::Variable { id, var_name, value } => {
                &&& tree matches CompiledNode::Variable(v)
                &&& v.var_name@ == var_name
                &&& self.parsed(id, value, scope, v.expression)
                &&& self.mirrors(*v.rest, nodes, from + 1, extended(scope, var_name))
            },
            NodeView::Switch { id, nexts } => {
                &&& tree matches CompiledNode::Switch(s)
                &&& s.nexts@.len() == nexts.len()
                &&& forall|i: int|
                    0 <= i < nexts.len() ==> {
                        &&& self.parsed(
                            id,
                            nexts[i].expression,
                            scope,
                            (#[trigger] s.nexts@[i]).expression,
                        )
                        &&& self.mirrors(*s.nexts@[i].rest, nexts[i].nodes, 0, scope)
                    }
            },
            NodeView::Split { id, nexts } => {
                &&& tree matches CompiledNode::Split(s)
                &&& s.nexts@.len() == nexts.len()
                &&& forall|i: int|
                    0 <= i < nexts.len() ==> self.mirrors(#[trigger] s.nexts@[i], nexts[i], 0, scope)
            },
            NodeView::Sink { id } => {
                &&& tree matches CompiledNode::Sink(s)
                &&& s.node_id@ == id
            },
            NodeView::CustomNode { id, output_var, node_type, parameters } => {
                &&& tree matches CompiledNode::Custom(c)
                &&& self.custom_nodes@.contains_key(node_type)
                &&& c.custom_node == self.custom_nodes@[node_type]
                &&& c.output_var@ == output_var
                &&& self.parameters_mirror(c.params@, parameters, parameters.len() as int, id, scope)
                &&& self.mirrors(*c.rest, nodes, from + 1, extended(scope, output_var))
            },
            NodeView::Source { id } => false,
        }
    }

    /// Whether `compiled` holds the first `count` parameters as declared,
    /// each by its name and parsed in `scope`; of two parameters of one name
    /// the later one stands.
    pub open spec fn parameters_mirror(
        &self,
        compiled: Map<Seq<char>, P::Compiled>,
        declared: Seq<ParameterView>,
        count: int,
        id: Seq<char>,
        scope: Seq<Seq<char>>,
    ) -> bool {
        &&& forall|i: int| 0 <= i < count ==> compiled.contains_key(#[trigger] declared[i].name)
        &&& forall|name: Seq<char>| #[trigger]
            compiled.contains_key(name) ==> exists|i: int|
                0 <= i < count && (#[trigger] declared[i]).name == name && self.parsed(
                    id,
                    declared[i].expression,
                    scope,
                    compiled[name],
                )
    }
}

/// A place where the compiler parses an expression: the node, the
/// expression, and the names in scope there.
pub struct ParseSite {
    pub node_id: Seq<char>,
    pub expression: ExpressionView,
    pub scope: Seq<Seq<char>>,
}

impl<P: Parser, C: CustomNode> Compiler<P, C> {
    /// The places where the compiler parses an expression while it compiles
    /// the nodes from `from` on, in the order in which it reaches them. It
    /// reaches none after the first thing wrong with the nodes.
    pub open spec fn parse_sites(&self, nodes: Seq<NodeView>, from: int, scope: Seq<Seq<char>>) -> Seq<
        ParseSite,
    >
        decreases nodes, nodes.len() - from, 1nat,
    {
        if from < 0 || from >= nodes.len() {
            Seq::empty()
        } else {
            self.node_sites(nodes, from, scope)
        }
    }

    /// The places where the compiler parses an expression while it compiles
    /// the node at `at` and what follows it.
    pub open spec fn node_sites(&self, nodes: Seq<NodeView>, at: int, scope: Seq<Seq<char>>) -> Seq<
        ParseSite,
    >
        decreases nodes, nodes.len() - at, 0nat,
    {
        if at < 0 || at >= nodes.len() {
            Seq::empty()
        } else {
            match nodes[at] {
                NodeView::Filter { id, expression } => {
                    if !self.knows_language(expression) {
                        Seq::empty()
                    } else {
                        seq![ParseSite { node_id: id, expression, scope }] + self.parse_sites(
                            nodes,
                            at + 1,
                            scope,
                        )
                    }
                },
                NodeView::Variable { id, var_name, value } => {
                    if !self.knows_language(value) {
                        Seq::empty()
                    } else if !is_valid_var_name(var_name) {
                        seq![ParseSite { node_id: id, expression: value, scope }]
                    } else {
                        seq![ParseSite { node_id: id, expression: value, scope }]
                            + self.parse_sites(nodes, at + 1, extended(scope, var_name))
                    }
                },
                NodeView::Switch { id, nexts } => self.cases_sites(nexts, 0, id, scope),
                NodeView::Split { id, nexts } => self.branches_sites(nexts, 0, id, scope),
                NodeView::Sink { id } => Seq::empty(),
                NodeView::CustomNode { id, output_var, node_type, parameters } => {
                    if !self.custom_nodes@.contains_key(node_type) {
                        Seq::empty()
                    } else if self.parameters_defect(parameters, 0, id) is Some
                        || !is_valid_var_name(output_var) {
                        self.parameters_sites(parameters, 0, id, scope)
                    } else {
                        self.parameters_sites(parameters, 0, id, scope) + self.parse_sites(
                            nodes,
                            at + 1,
                            extended(scope, output_var),
                        )
                    }
                },
                NodeView::Source { id } => Seq::empty(),
            }
        }
    }

    /// The places where the compiler parses an expression while it compiles
    /// the cases of a switch from `from` on.
    pub open spec fn cases_sites(
        &self,
        cases: Seq<CaseView>,
        from: int,
        id: Seq<char>,
        scope: Seq<Seq<char>>,
    ) -> Seq<ParseSite>
        decreases cases, cases.len() - from, 0nat,
    {
        if from < 0 || from >= cases.len() {
            Seq::empty()
        } else if !self.knows_language(cases[from].expression) {
            Seq::empty()
        } else if self.first_defect(cases[from].nodes, 0, id) is Some {
            seq![ParseSite { node_id: id, expression: cases[from].expression, scope }]
                + self.parse_sites(cases[from].nodes, 0, scope)
        } else {
            seq![ParseSite { node_id: id, expression: cases[from].expression, scope }]
                + self.parse_sites(cases[from].nodes, 0, scope) + self.cases_sites(
                cases,
                from + 1,
                id,
                scope,
            )
        }
    }

    /// The places where the compiler parses an expression while it compiles
    /// the branches of a split from `from` on.
    pub open spec fn branches_sites(
        &self,
        branches: Seq<Seq<NodeView>>,
        from: int,
        id: Seq<char>,
        scope: Seq<Seq<char>>,
    ) -> Seq<ParseSite>
        decreases branches, branches.len() - from, 0nat,
    {
        if from < 0 || from >= branches.len() {
            Seq::empty()
        } else if self.first_defect(branches[from], 0, id) is Some {
            self.parse_sites(branches[from], 0, scope)
        } else {
            self.parse_sites(branches[from], 0, scope) + self.branches_sites(
                branches,
                from + 1,
                id,
                scope,
            )
        }
    }

    /// The places where the compiler parses the parameters of a custom node
    /// from `from` on.
    pub open spec fn parameters_sites(
        &self,
        parameters: Seq<ParameterView>,
        from: int,
        id: Seq<char>,
        scope: Seq<Seq<char>>,
    ) -> Seq<ParseSite>
        decreases parameters.len() - from,
    {
        if from < 0 || from >= parameters.len() {
            Seq::empty()
        } else if !self.knows_language(parameters[from].expression) {
            Seq::empty()
        } else {
            seq![ParseSite { node_id: id, expression: parameters[from].expression, scope }]
                + self.parameters_sites(parameters, from + 1, id, scope)
        }
    }

    /// Whether `error` is what parsing at `site` may give.
    pub open spec fn refused_at(&self, site: ParseSite, error: ScenarioCompilationError) -> bool {
        self.parser.parses_to(site.node_id, site.expression, site.scope, Err(error))
    }

    /// Whether `error` is what parsing at one of `sites` may give.
    pub open spec fn refused_in(&self, sites: Seq<ParseSite>, error: ScenarioCompilationError) -> bool {
        exists|k: int| 0 <= k < sites.len() && self.refused_at(#[trigger] sites[k], error)
    }

    /// Whether `error` is what is owed where compiling fails: the first thing
    /// wrong, `defect`, or, before the compiler reaches it, the report of a
    /// parser that refused its expression at one of `sites`.
    pub open spec fn fails_with(
        &self,
        defect: Option<CompilationErrorView>,
        sites: Seq<ParseSite>,
        error: ScenarioCompilationError,
    ) -> bool {
        if error@ is ParseError {
            self.refused_in(sites, error)
        } else {
            defect == Some(error@)
        }
    }

    /// A refusal at `site` is one at one of the sites that start with it.
    pub proof fn lemma_refused_at_first(
        &self,
        site: ParseSite,
        rest: Seq<ParseSite>,
        error: ScenarioCompilationError,
    )
        requires
            self.refused_at(site, error),
        ensures
            self.refused_in(seq![site] + rest, error),
    {
        assert((seq![site] + rest)[0] == site);
    }

    /// A refusal at one of `head` or of `tail` is one at one of `head + tail`.
    pub proof fn lemma_refused_in_either(
        &self,
        head: Seq<ParseSite>,
        tail: Seq<ParseSite>,
        error: ScenarioCompilationError,
    )
        requires
            self.refused_in(head, error) || self.refused_in(tail, error),
        ensures
            self.refused_in(head + tail, error),
    {
        if self.refused_in(head, error) {
            let k = choose|k: int| 0 <= k < head.len() && self.refused_at(#[trigger] head[k], error);
            assert((head + tail)[k] == head[k]);
        } else {
            let k = choose|k: int| 0 <= k < tail.len() && self.refused_at(#[trigger] tail[k], error);
            assert((head + tail)[head.len() + k] == tail[k]);
        }
    }
}

/// What compiling gives: the tree, or why the scenario was refused.
pub type CompilationResult<E, C> = Result<CompiledNode<E, C>, ScenarioCompilationError>;

impl<P: Parser, C: CustomNode> Compiler<P, C> {
    /// Whether compiling the node at `at` and what follows it, with the
    /// names `scope` in scope, may give `result`. On success nothing is
    /// wrong with the nodes and the tree mirrors them. An error is the first
    /// thing wrong with them, or the report of a parser that refused an
    /// expression.
    pub open spec fn node_compiles_to(
        &self,
        nodes: Seq<NodeView>,
        at: int,
        scope: Seq<Seq<char>>,
        result: CompilationResult<P::Compiled, C>,
    ) -> bool {
        match result {
            Ok(tree) => self.node_defect(nodes, at) is None && self.mirrors(tree, nodes, at, scope),
            Err(e) => self.fails_with(
                self.node_defect(nodes, at),
                self.node_sites(nodes, at, scope),
                e,
            ),
        }
    }

    /// Whether compiling the nodes from `from` on, after the node `prev`,
    /// may give `result`; as `node_compiles_to`, with `InvalidEnd` where no
    /// node is left.
    pub open spec fn compiles_to(
        &self,
        nodes: Seq<NodeView>,
        from: int,
        prev: Seq<char>,
        scope: Seq<Seq<char>>,
        result: CompilationResult<P::Compiled, C>,
    ) -> bool {
        match result {
            Ok(tree) => self.first_defect(nodes, from, prev) is None && self.mirrors(
                tree,
                nodes,
                from,
                scope,
            ),
            Err(e) => self.fails_with(
                self.first_defect(nodes, from, prev),
                self.parse_sites(nodes, from, scope),
                e,
            ),
        }
    }

    /// The compiler that knows the given languages and no custom node.
    pub fn new(parser: LanguageParser<P>) -> (r: Compiler<P, C>)
        ensures
            r.parser == parser,
            r.custom_nodes@ == Map::<Seq<char>, Arc<C>>::empty(),
    {
        Compiler { custom_nodes: NameMap::new(), parser }
    }

    /// The compiler that also knows a custom node under the given name; one
    /// registered again under the same name replaces the earlier one.
    pub fn with_custom_node(self, node_type: &str, implementation: C) -> (r: Compiler<P, C>)
        ensures
            r.parser == self.parser,
            r.custom_nodes@ == self.custom_nodes@.insert(node_type@, Arc::new(implementation)),
    {
        Compiler {
            custom_nodes: self.custom_nodes.with(node_type.to_owned(), Arc::new(implementation)),
            parser: self.parser,
        }
    }

    /// Compiles the nodes from `from` on; `node_id` is the node before them.
    pub(crate) fn compile_next(
        &self,
        node_id: &NodeId,
        next_nodes: &Vec<Node>,
        from: usize,
        var_names: &CompilationVarContext,
    ) -> (r: CompilationResult<P::Compiled, C>)
        requires
            from <= next_nodes.len(),
        ensures
            self.compiles_to(nodes_view(next_nodes@), from as int, node_id@, var_names.names(), r),
        decreases next_nodes, next_nodes.len() - from, 2nat,
    {
        if from < next_nodes.len() {
            self.compile_next_node(next_nodes, from, var_names)
        } else {
            Err(ScenarioCompilationError::InvalidEnd(node_id.clone()))
        }
    }

    /// Compiles the node at `at` and what follows it.
    pub fn compile_next_node(
        &self,
        nodes: &Vec<Node>,
        at: usize,
        var_names: &CompilationVarContext,
    ) -> (r: CompilationResult<P::Compiled, C>)
        requires
            at < nodes.len(),
        ensures
            self.node_compiles_to(nodes_view(nodes@), at as int, var_names.names(), r),
        decreases nodes, nodes.len() - at, 1nat,
    {
        let ctx = CompilationContext { compiler: self, var_names, nodes, at };
        match &nodes[at] {
            Node::Filter { id: _, expression } => filter::compile(ctx, expression),
            Node::Variable { id: _, var_name, value } => variable::compile(ctx, var_name, value),
            Node::Switch { id: _, nexts } => switch::compile(ctx, nexts),
            Node::Split { id: _, nexts } => split::compile(ctx, nexts),
            Node::Sink { id } => sink::compile(ctx, id),
            Node::CustomNode { id, output_var, node_type, parameters } => {
                match self.custom_node(id, node_type.as_str()) {
                    Ok(implementation) => customnode::compile(
                        ctx,
                        output_var,
                        parameters,
                        implementation,
                    ),
                    Err(e) => Err(e),
                }
            },
            other => Err(ScenarioCompilationError::UnknownNode(other.id().clone())),
        }
    }

    /// The custom node registered under a name, or `UnknownCustomNode`.
    pub(crate) fn custom_node(&self, node_id: &NodeId, node_type: &str) -> (r: Result<
        &Arc<C>,
        ScenarioCompilationError,
    >)
        ensures
            match r {
                Ok(implementation) => self.custom_nodes@.contains_key(node_type@)
                    && *implementation == self.custom_nodes@[node_type@],
                Err(e) => !self.custom_nodes@.contains_key(node_type@) && e@
                    == (CompilationErrorView::UnknownCustomNode {
                    node_id: node_id@,
                    node_type: node_type@,
                }),
            },
    {
        match self.custom_nodes.get(node_type) {
            Some(implementation) => Ok(implementation),
            None => Err(
                ScenarioCompilationError::UnknownCustomNode {
                    node_id: node_id.clone(),
                    node_type: node_type.to_owned(),
                },
            ),
        }
    }
}

/// What a kind of node gets to compile itself: the compiler, the names in
/// scope, and its place among the nodes of its sequence.
pub(crate) struct CompilationContext<'a, P: Parser, C: CustomNode> {
    pub compiler: &'a Compiler<P, C>,
    pub var_names: &'a CompilationVarContext,
    pub nodes: &'a Vec<Node>,
    pub at: usize,
}

impl<'a, P: Parser, C: CustomNode> CompilationContext<'a, P, C> {
    /// The views of the nodes of the sequence.
    pub(crate) open spec fn views(&self) -> Seq<NodeView> {
        nodes_view(self.nodes@)
    }

    /// The identifier of the node that is being compiled.
    pub(crate) fn node_id(&self) -> (r: &'a NodeId)
        requires
            self.at < self.nodes.len(),
        ensures
            r@ == self.views()[self.at as int].id(),
    {
        self.nodes[self.at].id()
    }

    /// The nodes that follow the node that is being compiled.
    pub(crate) fn rest(&self) -> (r: Vec<Node>)
        requires
            self.at < self.nodes.len(),
        ensures
            nodes_view(r@) == self.views().subrange(self.at + 1, self.nodes.len() as int),
    {
        let mut out: Vec<Node> = Vec::new();
        let mut i: usize = self.at + 1;
        while i < self.nodes.len()
            invariant
                self.at < i <= self.nodes.len(),
                out@.len() == i - self.at - 1,
                forall|j: int| 0 <= j < out@.len() ==> out@[j]@ == self.nodes@[self.at + 1 + j]@,
            decreases self.nodes.len() - i,
        {
            out.push(self.nodes[i].clone());
            i = i + 1;
        }
        assert(nodes_view(out@) =~= self.views().subrange(
            self.at + 1,
            self.nodes.len() as int,
        ));
        out
    }

    /// `value`, where the node that is being compiled is the last of its
    /// sequence; else `NodesAfterEndingNode` with the nodes that follow it.
    pub(crate) fn assert_end(&self, value: CompiledNode<P::Compiled, C>) -> (r: CompilationResult<
        P::Compiled,
        C,
    >)
        requires
            self.at < self.nodes.len(),
        ensures
            match r {
                Ok(tree) => tree == value && end_defect(
                    self.views(),
                    self.at as int,
                    self.views()[self.at as int].id(),
                ) is None,
                Err(e) => end_defect(
                    self.views(),
                    self.at as int,
                    self.views()[self.at as int].id(),
                ) == Some(e@),
            },
    {
        if self.at + 1 == self.nodes.len() {
            Ok(value)
        } else {
            Err(
                ScenarioCompilationError::NodesAfterEndingNode {
                    node_id: self.node_id().clone(),
                    unexpected_nodes: self.rest(),
                },
            )
        }
    }
}

/// The name under which `forEach` is registered.
pub const FOR_EACH: &'static str = "forEach";

impl<P: Parser> Compiler<P, ForEach> {
    /// The compiler that knows the given languages and the custom nodes that
    /// come with the library: `forEach`.
    pub fn with_languages(parser: LanguageParser<P>) -> (r: Compiler<P, ForEach>)
        ensures
            r.parser == parser,
            r.custom_nodes@ == Map::<Seq<char>, Arc<ForEach>>::empty().insert(
                FOR_EACH@,
                Arc::new(ForEach),
            ),
    {
        Compiler::new(parser).with_custom_node(FOR_EACH, ForEach)
    }
}

impl<P: Parser, C: CustomNode> Compiler<P, C> {
    /// The first thing wrong with a scenario, parsing aside: it is empty, it
    /// does not start with a source, or something is wrong with the nodes
    /// after the source.
    pub open spec fn scenario_defect(&self, nodes: Seq<NodeView>) -> Option<CompilationErrorView> {
        if nodes.len() == 0 {
            Some(CompilationErrorView::EmptyScenario)
        } else {
            match nodes[0] {
                NodeView::Source { id } => self.first_defect(nodes, 1, id),
                other => Some(CompilationErrorView::FirstNodeNotSource(other.id())),
            }
        }
    }

    /// Whether compiling a scenario may give `result`. On success nothing is
    /// wrong with the scenario and the tree mirrors the nodes after the
    /// source, with the input alone in scope. An error is the first thing
    /// wrong with the scenario, or the report of a parser that refused an
    /// expression.
    pub open spec fn scenario_compiles_to(
        &self,
        nodes: Seq<NodeView>,
        result: CompilationResult<P::Compiled, C>,
    ) -> bool {
        match result {
            Ok(tree) => self.scenario_defect(nodes) is None && self.mirrors(
                tree,
                nodes,
                1,
                seq![input_name()],
            ),
            Err(e) => self.fails_with(
                self.scenario_defect(nodes),
                if nodes.len() > 0 && nodes[0] is Source {
                    self.parse_sites(nodes, 1, seq![input_name()])
                } else {
                    Seq::empty()
                },
                e,
            ),
        }
    }

    /// Compiles a scenario: checks it and builds the tree that runs it.
    pub fn compile(&self, scenario: &Scenario) -> (r: CompilationResult<P::Compiled, C>)
        ensures
            self.scenario_compiles_to(nodes_view(scenario.nodes@), r),
    {
        let nodes = &scenario.nodes;
        let initial_input = CompilationVarContext::default();
        if nodes.len() == 0 {
            return Err(ScenarioCompilationError::EmptyScenario());
        }
        match &nodes[0] {
            // the source carries no behaviour: it marks where the scenario starts
            Node::Source { id } => self.compile_next(id, nodes, 1, &initial_input),
            other => Err(ScenarioCompilationError::FirstNodeNotSource(other.id().clone())),
        }
    }
}

} // verus!
