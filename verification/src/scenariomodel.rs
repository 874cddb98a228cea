//! The scenario graph as it is authored: an ordered list of typed nodes,
//! nested where a node branches. Each type has a mathematical view that the
//! contracts of the compiler speak of.
use vstd::prelude::*;

verus! {

/// Identifier of a node; labels outputs and error reports.
#[derive(Debug, PartialEq, Eq)]
pub struct NodeId(String);

impl View for NodeId {
    type V = Seq<char>;

    open spec fn view(&self) -> Seq<char> {
        self.text()@
    }
}

impl NodeId {
    /// The identifier's text.
    pub closed spec fn text(&self) -> String {
        self.0
    }

    /// The identifier with the given text.
    pub fn new(id: &str) -> (r: NodeId)
        ensures
            r@ == id@,
    {
        NodeId(id.to_owned())
    }

    /// The identifier as a string slice.
    pub fn as_str(&self) -> (r: &str)
        ensures
            r@ == self@,
    {
        self.0.as_str()
    }

    /// Whether two identifiers name the same node.
    pub fn same_as(&self, other: &NodeId) -> (r: bool)
        ensures
            r == (self@ == other@),
    {
        self.0 == other.0
    }
}

impl Clone for NodeId {
    fn clone(&self) -> (r: NodeId)
        ensures
            r@ == self@,
    {
        NodeId(self.0.clone())
    }
}

/// An expression as written in a scenario: the language and the text.
#[derive(Debug, PartialEq, Eq)]
pub struct Expression {
    pub language: String,
    pub expression: String,
}

/// The mathematical view of an expression.
pub struct ExpressionView {
    pub language: Seq<char>,
    pub expression: Seq<char>,
}

impl View for Expression {
    type V = ExpressionView;

    open spec fn view(&self) -> ExpressionView {
        ExpressionView { language: self.language@, expression: self.expression@ }
    }
}

impl Clone for Expression {
    fn clone(&self) -> (r: Expression)
        ensures
            r@ == self@,
    {
        Expression { language: self.language.clone(), expression: self.expression.clone() }
    }
}

/// A named parameter of a custom node.
#[derive(Debug, PartialEq, Eq)]
pub struct Parameter {
    pub name: String,
    pub expression: Expression,
}

/// The mathematical view of a parameter.
pub struct ParameterView {
    pub name: Seq<char>,
    pub expression: ExpressionView,
}

impl View for Parameter {
    type V = ParameterView;

    open spec fn view(&self) -> ParameterView {
        ParameterView { name: self.name@, expression: self.expression@ }
    }
}

impl Clone for Parameter {
    fn clone(&self) -> (r: Parameter)
        ensures
            r@ == self@,
    {
        Parameter { name: self.name.clone(), expression: self.expression.clone() }
    }
}

/// One branch of a switch: the predicate and the nodes that run when it holds.
#[derive(Debug, PartialEq, Eq)]
pub struct Case {
    pub expression: Expression,
    pub nodes: Vec<Node>,
}

/// The mathematical view of a case.
pub struct CaseView {
    pub expression: ExpressionView,
    pub nodes: Seq<NodeView>,
}

/// A node of the scenario graph.
#[derive(Debug, PartialEq, Eq)]
#[allow(inconsistent_fields)]
pub enum Node {
    Filter { id: NodeId, expression: Expression },
    Source { id: NodeId },
    Switch { id: NodeId, nexts: Vec<Case> },
    Split { id: NodeId, nexts: Vec<Vec<Node>> },
    Sink { id: NodeId },
    Variable { id: NodeId, var_name: String, value: Expression },
    CustomNode { id: NodeId, output_var: String, node_type: String, parameters: Vec<Parameter> },
}

/// The mathematical view of a node.
#[allow(inconsistent_fields)]
pub enum NodeView {
    Filter { id: Seq<char>, expression: ExpressionView },
    Source { id: Seq<char> },
    Switch { id: Seq<char>, nexts: Seq<CaseView> },
    Split { id: Seq<char>, nexts: Seq<Seq<NodeView>> },
    Sink { id: Seq<char> },
    Variable { id: Seq<char>, var_name: Seq<char>, value: ExpressionView },
    CustomNode {
        id: Seq<char>,
        output_var: Seq<char>,
        node_type: Seq<char>,
        parameters: Seq<ParameterView>,
    },
}

impl NodeView {
    /// The identifier, whatever the kind of the node.
    pub open spec fn id(self) -> Seq<char> {
        match self {
            NodeView::Filter { id, .. } => id,
            NodeView::Source { id } => id,
            NodeView::Switch { id, .. } => id,
            NodeView::Split { id, .. } => id,
            NodeView::Sink { id } => id,
            NodeView::Variable { id, .. } => id,
            NodeView::CustomNode { id, .. } => id,
        }
    }
}

/// The view of one node.
pub open spec fn node_view(node: Node) -> NodeView
    decreases node,
{
    match node {
        Node::Filter { id, expression } => NodeView::Filter { id: id@, expression: expression@ },
        Node::Source { id } => NodeView::Source { id: id@ },
        Node::Switch { id, nexts } => NodeView::Switch { id: id@, nexts: cases_view(nexts@) },
        Node::Split { id, nexts } => NodeView::Split { id: id@, nexts: branches_view(nexts@) },
        Node::Sink { id } => NodeView::Sink { id: id@ },
        Node::Variable { id, var_name, value } => NodeView::Variable {
            id: id@,
            var_name: var_name@,
            value: value@,
        },
        Node::CustomNode { id, output_var, node_type, parameters } => NodeView::CustomNode {
            id: id@,
            output_var: output_var@,
            node_type: node_type@,
            parameters: parameters@.map_values(|p: Parameter| p@),
        },
    }
}

/// The views of a sequence of nodes, in order.
pub open spec fn nodes_view(nodes: Seq<Node>) -> Seq<NodeView>
    decreases nodes,
{
    Seq::new(
        nodes.len(),
        |i: int|
            if 0 <= i < nodes.len() {
                node_view(nodes[i])
            } else {
                NodeView::Source { id: Seq::empty() }
            },
    )
}

/// The view of one case of a switch.
pub open spec fn case_view(case: Case) -> CaseView
    decreases case,
{
    CaseView { expression: case.expression@, nodes: nodes_view(case.nodes@) }
}

/// The views of the cases of a switch, in order.
pub open spec fn cases_view(cases: Seq<Case>) -> Seq<CaseView>
    decreases cases,
{
    Seq::new(
        cases.len(),
        |i: int|
            if 0 <= i < cases.len() {
                case_view(cases[i])
            } else {
                CaseView { expression: arbitrary(), nodes: Seq::empty() }
            },
    )
}

/// The views of the branches of a split, in order.
pub open spec fn branches_view(branches: Seq<Vec<Node>>) -> Seq<Seq<NodeView>>
    decreases branches,
{
    Seq::new(
        branches.len(),
        |i: int|
            if 0 <= i < branches.len() {
                nodes_view(branches[i]@)
            } else {
                Seq::empty()
            },
    )
}

impl View for Node {
    type V = NodeView;

    open spec fn view(&self) -> NodeView {
        node_view(*self)
    }
}

impl View for Case {
    type V = CaseView;

    open spec fn view(&self) -> CaseView {
        case_view(*self)
    }
}

impl Node {
    /// The identifier, whatever the kind of the node.
    pub fn id(&self) -> (r: &NodeId)
        ensures
            r@ == self@.id(),
    {
        match self {
            Node::Filter { id, expression: _ } => id,
            Node::Switch { id, nexts: _ } => id,
            Node::Split { id, nexts: _ } => id,
            Node::Variable { id, var_name: _, value: _ } => id,
            Node::CustomNode { id, output_var: _, node_type: _, parameters: _ } => id,
            Node::Source { id } => id,
            Node::Sink { id } => id,
        }
    }
}

/// A copy of a list of parameters.
pub fn clone_parameters(parameters: &Vec<Parameter>) -> (r: Vec<Parameter>)
    ensures
        r@.map_values(|p: Parameter| p@) == parameters@.map_values(|p: Parameter| p@),
{
    let mut out: Vec<Parameter> = Vec::new();
    let mut i: usize = 0;
    while i < parameters.len()
        invariant
            i <= parameters.len(),
            out@.len() == i,
            forall|j: int| 0 <= j < i ==> out@[j]@ == parameters@[j]@,
        decreases parameters.len() - i,
    {
        out.push(parameters[i].clone());
        i = i + 1;
    }
    assert(out@.map_values(|p: Parameter| p@) =~= parameters@.map_values(|p: Parameter| p@));
    out
}

/// A copy of a list of nodes, nested nodes included.
pub fn clone_nodes(nodes: &Vec<Node>) -> (r: Vec<Node>)
    ensures
        nodes_view(r@) == nodes_view(nodes@),
    decreases nodes,
{
    let mut out: Vec<Node> = Vec::new();
    let mut i: usize = 0;
    while i < nodes.len()
        invariant
            i <= nodes.len(),
            out@.len() == i,
            forall|j: int| 0 <= j < i ==> node_view(out@[j]) == node_view(nodes@[j]),
        decreases nodes.len() - i,
    {
        out.push(clone_node(&nodes[i]));
        i = i + 1;
    }
    assert(nodes_view(out@) =~= nodes_view(nodes@));
    out
}

/// A copy of the cases of a switch.
pub fn clone_cases(cases: &Vec<Case>) -> (r: Vec<Case>)
    ensures
        cases_view(r@) == cases_view(cases@),
    decreases cases,
{
    let mut out: Vec<Case> = Vec::new();
    let mut i: usize = 0;
    while i < cases.len()
        invariant
            i <= cases.len(),
            out@.len() == i,
            forall|j: int| 0 <= j < i ==> case_view(out@[j]) == case_view(cases@[j]),
        decreases cases.len() - i,
    {
        let case = &cases[i];
        out.push(Case { expression: case.expression.clone(), nodes: clone_nodes(&case.nodes) });
        i = i + 1;
    }
    assert(cases_view(out@) =~= cases_view(cases@));
    out
}

/// A copy of the branches of a split.
pub fn clone_branches(branches: &Vec<Vec<Node>>) -> (r: Vec<Vec<Node>>)
    ensures
        branches_view(r@) == branches_view(branches@),
    decreases branches,
{
    let mut out: Vec<Vec<Node>> = Vec::new();
    let mut i: usize = 0;
    while i < branches.len()
        invariant
            i <= branches.len(),
            out@.len() == i,
            forall|j: int| 0 <= j < i ==> nodes_view(out@[j]@) == nodes_view(branches@[j]@),
        decreases branches.len() - i,
    {
        out.push(clone_nodes(&branches[i]));
        i = i + 1;
    }
    assert(branches_view(out@) =~= branches_view(branches@));
    out
}

/// A copy of one node, nested nodes included.
pub fn clone_node(node: &Node) -> (r: Node)
    ensures
        r@ == node@,
    decreases node,
{
    match node {
        Node::Filter { id, expression } => Node::Filter {
            id: id.clone(),
            expression: expression.clone(),
        },
        Node::Source { id } => Node::Source { id: id.clone() },
        Node::Switch { id, nexts } => Node::Switch { id: id.clone(), nexts: clone_cases(nexts) },
        Node::Split { id, nexts } => Node::Split { id: id.clone(), nexts: clone_branches(nexts) },
        Node::Sink { id } => Node::Sink { id: id.clone() },
        Node::Variable { id, var_name, value } => Node::Variable {
            id: id.clone(),
            var_name: var_name.clone(),
            value: value.clone(),
        },
        Node::CustomNode { id, output_var, node_type, parameters } => Node::CustomNode {
            id: id.clone(),
            output_var: output_var.clone(),
            node_type: node_type.clone(),
            parameters: clone_parameters(parameters),
        },
    }
}

impl Clone for Node {
    fn clone(&self) -> (r: Node)
        ensures
            r@ == self@,
    {
        clone_node(self)
    }
}

impl Clone for Case {
    fn clone(&self) -> (r: Case)
        ensures
            r@ == self@,
    {
        Case { expression: self.expression.clone(), nodes: clone_nodes(&self.nodes) }
    }
}

/// Reference to a service with its parameters, as enricher nodes carry it.
#[derive(Debug)]
pub struct ServiceRef {
    pub id: String,
    pub parameters: Vec<Parameter>,
}

/// What a scenario says of itself.
#[derive(Debug)]
pub struct MetaData {
    pub id: String,
}

/// A scenario: its metadata and its top-level nodes in order.
#[derive(Debug)]
pub struct Scenario {
    pub meta_data: MetaData,
    pub nodes: Vec<Node>,
}

} // verus!
