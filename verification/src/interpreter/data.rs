//! The values that flow through a scenario, the contexts that carry them,
//! the records that sinks emit, and the two families of errors.
use crate::customnodes::{ForEachError, ForEachErrorView};
use crate::javascriptexpression::{JavascriptExecutionError, JavascriptExecutionErrorView};
use crate::namemap::NameMap;
use crate::scenariomodel::{nodes_view, Node, NodeId, NodeView};
use std::sync::Arc;
use vstd::prelude::*;

verus! {

/// The name under which the input of an invocation is bound.
pub const DEFAULT_INPUT_NAME: &'static str = "input";

/// The default input name as a sequence of characters.
pub open spec fn input_name() -> Seq<char> {
    DEFAULT_INPUT_NAME@
}

/// A JSON number; the library carries it and never looks inside.
#[verifier::external_type_specification]
#[verifier::external_body]
pub struct ExNumber(serde_json::Number);

/// `Clone` of `serde_json::Number`: the copy is the same number.
pub assume_specification[ <serde_json::Number as Clone>::clone ](n: &serde_json::Number) -> (r:
    serde_json::Number)
    ensures
        r == *n,
;

/// A dynamic, JSON-like value. Only the presence of a variable is tracked at
/// compile time, never the kind of value it holds.
#[derive(Debug, PartialEq, Eq)]
pub enum VarValue {
    Null,
    Bool(bool),
    Number(serde_json::Number),
    String(String),
    Array(Vec<VarValue>),
    /// The members of an object, in the order given.
    Object(Vec<(String, VarValue)>),
}

/// The mathematical view of a `VarValue`.
pub enum JsonValue {
    Null,
    Bool(bool),
    Number(serde_json::Number),
    String(Seq<char>),
    Array(Seq<JsonValue>),
    Object(Seq<(Seq<char>, JsonValue)>),
}

/// The view of one value.
pub open spec fn value_view(value: VarValue) -> JsonValue
    decreases value,
{
    match value {
        VarValue::Null => JsonValue::Null,
        VarValue::Bool(b) => JsonValue::Bool(b),
        VarValue::Number(n) => JsonValue::Number(n),
        VarValue::String(s) => JsonValue::String(s@),
        VarValue::Array(items) => JsonValue::Array(values_view(items@)),
        VarValue::Object(members) => JsonValue::Object(members_view(members@)),
    }
}

/// The views of a sequence of values, in order.
pub open spec fn values_view(values: Seq<VarValue>) -> Seq<JsonValue>
    decreases values,
{
    Seq::new(
        values.len(),
        |i: int|
            if 0 <= i < values.len() {
                value_view(values[i])
            } else {
                JsonValue::Null
            },
    )
}

/// The views of the members of an object, in order.
pub open spec fn members_view(members: Seq<(String, VarValue)>) -> Seq<(Seq<char>, JsonValue)>
    decreases members,
{
    Seq::new(
        members.len(),
        |i: int|
            if 0 <= i < members.len() {
                (members[i].0@, value_view(members[i].1))
            } else {
                (Seq::empty(), JsonValue::Null)
            },
    )
}

impl View for VarValue {
    type V = JsonValue;

    open spec fn view(&self) -> JsonValue {
        value_view(*self)
    }
}

/// A copy of a list of values.
pub fn clone_values(values: &Vec<VarValue>) -> (r: Vec<VarValue>)
    ensures
        values_view(r@) == values_view(values@),
    decreases values,
{
    let mut out: Vec<VarValue> = Vec::new();
    let mut i: usize = 0;
    while i < values.len()
        invariant
            i <= values.len(),
            out@.len() == i,
            forall|j: int| 0 <= j < i ==> value_view(out@[j]) == value_view(values@[j]),
        decreases values.len() - i,
    {
        out.push(clone_value(&values[i]));
        i = i + 1;
    }
    assert(values_view(out@) =~= values_view(values@));
    out
}

/// A copy of the members of an object.
pub fn clone_members(members: &Vec<(String, VarValue)>) -> (r: Vec<(String, VarValue)>)
    ensures
        members_view(r@) == members_view(members@),
    decreases members,
{
    let mut out: Vec<(String, VarValue)> = Vec::new();
    let mut i: usize = 0;
    while i < members.len()
        invariant
            i <= members.len(),
            out@.len() == i,
            forall|j: int|
                0 <= j < i ==> out@[j].0@ == members@[j].0@ && value_view(out@[j].1) == value_view(
                    members@[j].1,
                ),
        decreases members.len() - i,
    {
        let member = &members[i];
        out.push((member.0.clone(), clone_value(&member.1)));
        i = i + 1;
    }
    assert(members_view(out@) =~= members_view(members@));
    out
}

/// A copy of a value, nested values included.
pub fn clone_value(value: &VarValue) -> (r: VarValue)
    ensures
        r@ == value@,
    decreases value,
{
    match value {
        VarValue::Null => VarValue::Null,
        VarValue::Bool(b) => VarValue::Bool(*b),
        VarValue::Number(n) => VarValue::Number(n.clone()),
        VarValue::String(s) => VarValue::String(s.clone()),
        VarValue::Array(items) => VarValue::Array(clone_values(items)),
        VarValue::Object(members) => VarValue::Object(clone_members(members)),
    }
}

impl Clone for VarValue {
    fn clone(&self) -> (r: VarValue)
        ensures
            r@ == self@,
    {
        clone_value(self)
    }
}

/// A JSON value as `serde_json` reads it. The library takes one apart once,
/// where it is read, and works on `VarValue` from there on.
#[verifier::external_type_specification]
#[verifier::external_body]
pub struct ExValue(serde_json::Value);

/// What `serde_json::from_str` makes of a text: the value that the text
/// denotes, or its report where the text is no JSON value.
pub uninterp spec fn json_reading(text: Seq<char>) -> Result<JsonValue, Seq<char>>;

/// Takes a `serde_json::Value` apart into a `VarValue`, variant by variant:
/// the members of an object in the order in which `serde_json` holds them.
#[verifier::external_body]
fn from_json(value: serde_json::Value) -> VarValue {
    match value {
        serde_json::Value::Null => VarValue::Null,
        serde_json::Value::Bool(b) => VarValue::Bool(b),
        serde_json::Value::Number(n) => VarValue::Number(n),
        serde_json::Value::String(s) => VarValue::String(s),
        serde_json::Value::Array(items) => VarValue::Array(
            items.into_iter().map(from_json).collect(),
        ),
        serde_json::Value::Object(members) => VarValue::Object(
            members.into_iter().map(|(k, v)| (k, from_json(v))).collect(),
        ),
    }
}

/// `serde_json::from_str`, reading a text as one JSON value. The result is
/// what `json_reading` names; the report is the text of the reader's error.
#[verifier::external_body]
pub(crate) fn read_json(text: &str) -> (r: Result<VarValue, String>)
    ensures
        json_reading(text@) == match r {
            Ok(value) => Ok::<JsonValue, Seq<char>>(value@),
            Err(report) => Err::<JsonValue, Seq<char>>(report@),
        },
{
    match serde_json::from_str::<serde_json::Value>(text) {
        Ok(value) => Ok(from_json(value)),
        Err(error) => Err(error.to_string()),
    }
}

/// What a context binds: each name with the view of its value.
pub type Bindings = Map<Seq<char>, JsonValue>;

/// The bindings of a map of values.
pub open spec fn bindings_of(values: Map<Seq<char>, VarValue>) -> Bindings {
    values.map_values(|v: VarValue| v@)
}

/// The bindings of a map of shared values.
pub open spec fn shared_bindings_of(values: Map<Seq<char>, Arc<VarValue>>) -> Bindings {
    values.map_values(|v: Arc<VarValue>| v@)
}

/// `Arc::clone`: a second handle to the same value.
#[verifier::external_body]
pub(crate) fn share<T>(value: &Arc<T>) -> (r: Arc<T>)
    ensures
        r == *value,
{
    Arc::clone(value)
}

/// The data passed through a scenario: each variable in scope with its value.
/// Values sit behind shared handles, so a context is copied without copying
/// what it holds.
pub struct VarContext(NameMap<Arc<VarValue>>);

impl View for VarContext {
    type V = Bindings;

    closed spec fn view(&self) -> Bindings {
        shared_bindings_of(self.0@)
    }
}

impl VarContext {
    /// The names bound, in the order in which they were first bound.
    pub closed spec fn names(&self) -> Seq<Seq<char>> {
        self.0.names()
    }

    /// The context that binds nothing.
    pub fn empty() -> (r: VarContext)
        ensures
            r@ == Bindings::empty(),
            r.names() == Seq::<Seq<char>>::empty(),
    {
        let r = VarContext(NameMap::new());
        assert(r@ =~= Bindings::empty());
        r
    }

    /// The context in which an invocation starts: the input, under its
    /// default name.
    pub fn default_context_for_value(value: VarValue) -> (r: VarContext)
        ensures
            r@ == Bindings::empty().insert(input_name(), value@),
            r.names() == seq![input_name()],
    {
        let names = NameMap::new().with(DEFAULT_INPUT_NAME.to_owned(), Arc::new(value));
        let r = VarContext(names);
        assert(r@ =~= Bindings::empty().insert(input_name(), value@));
        assert(r.names() =~= seq![input_name()]);
        r
    }

    /// The plain mapping from names to values, for output and for feeding an
    /// expression host.
    pub fn to_external_form(&self) -> (r: NameMap<VarValue>)
        ensures
            bindings_of(r@) == self@,
            r.names() == self.names(),
            r.wf(),
    {
        let unshare = |v: &Arc<VarValue>| -> (c: VarValue)
            ensures
                c@ == v@,
            { clone_value(&**v) };
        let r = self.0.map_values(unshare);
        assert(bindings_of(r@) =~= self@);
        r
    }

    /// The context with one more binding; `self` stays as it is. A name
    /// already bound keeps its place and gets the new value.
    pub fn with_new_var(&self, name: &str, value: VarValue) -> (r: VarContext)
        ensures
            r@ == self@.insert(name@, value@),
            r.names() == if self@.contains_key(name@) {
                self.names()
            } else {
                self.names().push(name@)
            },
    {
        let copy = self.0.map_values(share);
        assert(copy@ =~= self.0@);
        let r = VarContext(copy.with(name.to_owned(), Arc::new(value)));
        assert(r@ =~= self@.insert(name@, value@));
        r
    }
}

impl Clone for VarContext {
    fn clone(&self) -> (r: VarContext)
        ensures
            r@ == self@,
            r.names() == self.names(),
    {
        let copy = self.0.map_values(share);
        assert(copy@ =~= self.0@);
        VarContext(copy)
    }
}

/// One record that reached a sink: the sink and the variables in scope there.
#[derive(Debug, PartialEq, Eq)]
pub struct SingleScenarioOutput {
    pub node_id: NodeId,
    pub variables: NameMap<VarValue>,
}

/// The mathematical view of one record.
pub struct OutputRecord {
    pub node_id: Seq<char>,
    pub variables: Bindings,
}

impl View for SingleScenarioOutput {
    type V = OutputRecord;

    open spec fn view(&self) -> OutputRecord {
        OutputRecord { node_id: self.node_id@, variables: bindings_of(self.variables@) }
    }
}

/// The output of a scenario for one input. The data may reach many sinks
/// (after a split) or none (after a filter).
#[derive(Debug, PartialEq, Eq)]
pub struct ScenarioOutput(pub Vec<SingleScenarioOutput>);

impl View for ScenarioOutput {
    type V = Seq<OutputRecord>;

    open spec fn view(&self) -> Seq<OutputRecord> {
        self.0@.map_values(|o: SingleScenarioOutput| o@)
    }
}

/// Variables are not typed: only their presence is tracked.
pub type VarType = ();

/// Whether a character may start a variable name: a lower-case letter.
pub open spec fn is_name_start(c: char) -> bool {
    'a' <= c && c <= 'z'
}

/// Whether a character may stand in a variable name: a lower-case letter, a
/// digit or an underscore.
pub open spec fn is_name_part(c: char) -> bool {
    is_name_start(c) || ('0' <= c && c <= '9') || c == '_'
}

/// Whether a text is a variable name: a lower-case letter, then any number
/// of lower-case letters, digits and underscores.
pub open spec fn is_valid_var_name(name: Seq<char>) -> bool {
    &&& name.len() > 0
    &&& is_name_start(name[0])
    &&& forall|i: int| 0 <= i < name.len() ==> is_name_part(#[trigger] name[i])
}

/// Decides `is_valid_var_name`.
pub fn check_var_name(name: &str) -> (r: bool)
    ensures
        r == is_valid_var_name(name@),
{
    if !name.is_ascii() {
        assert(!is_valid_var_name(name@)) by {
            if is_valid_var_name(name@) {
                assert forall|i: int| 0 <= i < name@.len() implies '\0' <= #[trigger] name@[i]
                    <= '\u{7f}' by {
                    assert(is_name_part(name@[i]));
                }
            }
        }
        return false;
    }
    let bytes = name.as_bytes();
    proof {
        vstd::string::is_ascii_spec_bytes(name);
    }
    let n = bytes.len();
    if n == 0 {
        return false;
    }
    let first = bytes[0];
    if !(97 <= first && first <= 122) {
        assert(!is_name_start(name@[0]));
        return false;
    }
    let mut i: usize = 1;
    while i < n
        invariant
            1 <= i <= n,
            n == name@.len(),
            bytes@.len() == n,
            forall|j: int| 0 <= j < n ==> bytes@[j] == (#[trigger] name@[j]) as u8,
            forall|j: int| 0 <= j < n ==> '\0' <= #[trigger] name@[j] <= '\u{7f}',
            forall|j: int| 0 <= j < i ==> is_name_part(#[trigger] name@[j]),
        decreases n - i,
    {
        let b = bytes[i];
        let part = (97 <= b && b <= 122) || (48 <= b && b <= 57) || b == 95;
        assert(part == is_name_part(name@[i as int]));
        if !part {
            return false;
        }
        i = i + 1;
    }
    true
}

/// The variables in scope at a point of compilation: their names, in the
/// order in which they came into scope.
#[derive(Debug)]
pub struct CompilationVarContext(NameMap<VarType>);

impl View for CompilationVarContext {
    type V = Set<Seq<char>>;

    closed spec fn view(&self) -> Set<Seq<char>> {
        self.0@.dom()
    }
}

impl CompilationVarContext {
    /// The names in scope, in the order in which they came into scope.
    pub closed spec fn names(&self) -> Seq<Seq<char>> {
        self.0.names()
    }

    /// The scope in which a scenario starts: the input alone.
    pub fn default() -> (r: CompilationVarContext)
        ensures
            r@ == Set::<Seq<char>>::empty().insert(input_name()),
            r.names() == seq![input_name()],
    {
        let r = CompilationVarContext(NameMap::new().with(DEFAULT_INPUT_NAME.to_owned(), ()));
        assert(r@ =~= Set::<Seq<char>>::empty().insert(input_name()));
        assert(r.names() =~= seq![input_name()]);
        r
    }

    /// The scope with one more name, or `IncorrectVariableName` where the
    /// name is no variable name. A name already in scope changes nothing.
    pub fn with_var(&self, node_id: &NodeId, name: &str) -> (r: Result<
        CompilationVarContext,
        ScenarioCompilationError,
    >)
        ensures
            match r {
                Ok(scope) => {
                    &&& is_valid_var_name(name@)
                    &&& self@ == self.names().to_set()
                    &&& scope@ == self@.insert(name@)
                    &&& scope.names() == if self@.contains(name@) {
                        self.names()
                    } else {
                        self.names().push(name@)
                    }
                },
                Err(e) => {
                    &&& !is_valid_var_name(name@)
                    &&& e@ == (CompilationErrorView::IncorrectVariableName {
                        node_id: node_id@,
                        var_name: name@,
                    })
                },
            },
    {
        if !check_var_name(name) {
            return Err(
                ScenarioCompilationError::IncorrectVariableName {
                    node_id: node_id.clone(),
                    var_name: name.to_owned(),
                },
            );
        }
        // the scope is copied, so that the branches of a split extend it independently
        let keep = |v: &VarType| -> (c: VarType) { () };
        let copy = self.0.map_values(keep);
        assert(self@ =~= self.names().to_set());
        let scope = CompilationVarContext(copy.with(name.to_owned(), ()));
        assert(scope@ =~= self@.insert(name@));
        Ok(scope)
    }

    /// Whether a name is in scope.
    pub fn contains(&self, name: &str) -> (r: bool)
        ensures
            r == self@.contains(name@),
    {
        self.0.contains(name)
    }

    /// The names in scope, in the order in which they came into scope.
    pub fn to_names(&self) -> (r: Vec<String>)
        ensures
            r@.map_values(|s: String| s@) == self.names(),
    {
        let mut out: Vec<String> = Vec::new();
        let n = self.0.len();
        let mut i: usize = 0;
        while i < n
            invariant
                i <= n,
                n == self.0.names().len(),
                out@.len() == i,
                forall|j: int| 0 <= j < i ==> (#[trigger] out@[j])@ == self.0.names()[j],
            decreases n - i,
        {
            out.push(self.0.name_at(i).clone());
            i = i + 1;
        }
        assert(out@.map_values(|s: String| s@) =~= self.names());
        out
    }
}

impl Clone for CompilationVarContext {
    fn clone(&self) -> (r: CompilationVarContext)
        ensures
            r@ == self@,
            r.names() == self.names(),
    {
        let keep = |v: &VarType| -> (c: VarType) { () };
        CompilationVarContext(self.0.map_values(keep))
    }
}

/// Why a scenario was refused. Reported once, by the compiler; never while a
/// compiled scenario runs.
#[derive(Debug, PartialEq, Eq)]
pub enum ScenarioCompilationError {
    IncorrectVariableName { node_id: NodeId, var_name: String },
    UnknownLanguage { node_id: NodeId, language: String },
    ScenarioReadFailure(String),
    ParseError { node_id: NodeId, error: String },
    InvalidEnd(NodeId),
    FirstNodeNotSource(NodeId),
    UnknownNode(NodeId),
    UnknownCustomNode { node_id: NodeId, node_type: String },
    NodesAfterEndingNode { node_id: NodeId, unexpected_nodes: Vec<Node> },
    EmptyScenario(),
}

/// The mathematical view of a compilation error.
pub enum CompilationErrorView {
    IncorrectVariableName { node_id: Seq<char>, var_name: Seq<char> },
    UnknownLanguage { node_id: Seq<char>, language: Seq<char> },
    ScenarioReadFailure(Seq<char>),
    ParseError { node_id: Seq<char>, error: Seq<char> },
    InvalidEnd(Seq<char>),
    FirstNodeNotSource(Seq<char>),
    UnknownNode(Seq<char>),
    UnknownCustomNode { node_id: Seq<char>, node_type: Seq<char> },
    NodesAfterEndingNode { node_id: Seq<char>, unexpected_nodes: Seq<NodeView> },
    EmptyScenario,
}

impl View for ScenarioCompilationError {
    type V = CompilationErrorView;

    open spec fn view(&self) -> CompilationErrorView {
        match self {
            ScenarioCompilationError::IncorrectVariableName { node_id, var_name } => {
                CompilationErrorView::IncorrectVariableName {
                    node_id: node_id@,
                    var_name: var_name@,
                }
            },
            ScenarioCompilationError::UnknownLanguage { node_id, language } => {
                CompilationErrorView::UnknownLanguage { node_id: node_id@, language: language@ }
            },
            ScenarioCompilationError::ScenarioReadFailure(m) => {
                CompilationErrorView::ScenarioReadFailure(m@)
            },
            ScenarioCompilationError::ParseError { node_id, error } => {
                CompilationErrorView::ParseError { node_id: node_id@, error: error@ }
            },
            ScenarioCompilationError::InvalidEnd(id) => CompilationErrorView::InvalidEnd(id@),
            ScenarioCompilationError::FirstNodeNotSource(id) => {
                CompilationErrorView::FirstNodeNotSource(id@)
            },
            ScenarioCompilationError::UnknownNode(id) => CompilationErrorView::UnknownNode(id@),
            ScenarioCompilationError::UnknownCustomNode { node_id, node_type } => {
                CompilationErrorView::UnknownCustomNode { node_id: node_id@, node_type: node_type@ }
            },
            ScenarioCompilationError::NodesAfterEndingNode { node_id, unexpected_nodes } => {
                CompilationErrorView::NodesAfterEndingNode {
                    node_id: node_id@,
                    unexpected_nodes: nodes_view(unexpected_nodes@),
                }
            },
            ScenarioCompilationError::EmptyScenario() => CompilationErrorView::EmptyScenario,
        }
    }
}

/// Why evaluating an expression failed.
#[derive(Debug, PartialEq, Eq)]
pub enum ExpressionFailure {
    /// A failure of the JavaScript language.
    Javascript(JavascriptExecutionError),
    /// A failure of another language, as text.
    Other(String),
}

/// The mathematical view of an expression failure.
pub enum ExpressionFailureView {
    Javascript(JavascriptExecutionErrorView),
    Other(Seq<char>),
}

impl View for ExpressionFailure {
    type V = ExpressionFailureView;

    open spec fn view(&self) -> ExpressionFailureView {
        match self {
            ExpressionFailure::Javascript(e) => ExpressionFailureView::Javascript(e@),
            ExpressionFailure::Other(m) => ExpressionFailureView::Other(m@),
        }
    }
}

/// Why a custom node failed.
#[derive(Debug, PartialEq, Eq)]
pub enum CustomNodeFailure {
    /// A failure of `forEach`.
    ForEach(ForEachError),
    /// A failure of another custom node, as text.
    Other(String),
}

/// The mathematical view of a custom node failure.
pub enum CustomNodeFailureView {
    ForEach(ForEachErrorView),
    Other(Seq<char>),
}

impl View for CustomNodeFailure {
    type V = CustomNodeFailureView;

    open spec fn view(&self) -> CustomNodeFailureView {
        match self {
            CustomNodeFailure::ForEach(e) => CustomNodeFailureView::ForEach(e@),
            CustomNodeFailure::Other(m) => CustomNodeFailureView::Other(m@),
        }
    }
}

/// Why a compiled scenario stopped on an input. The first error ends the
/// run; nothing is emitted beside it.
#[derive(Debug, PartialEq, Eq)]
pub enum ScenarioRuntimeError {
    CannotParseInput(String),
    InvalidSwitchType(VarValue),
    InvalidFilterType(VarValue),
    ExpressionError(ExpressionFailure),
    CustomNodeError(CustomNodeFailure),
}

/// The mathematical view of a runtime error.
pub enum RuntimeErrorView {
    CannotParseInput(Seq<char>),
    InvalidSwitchType(JsonValue),
    InvalidFilterType(JsonValue),
    ExpressionError(ExpressionFailureView),
    CustomNodeError(CustomNodeFailureView),
}

impl View for ScenarioRuntimeError {
    type V = RuntimeErrorView;

    open spec fn view(&self) -> RuntimeErrorView {
        match self {
            ScenarioRuntimeError::CannotParseInput(m) => RuntimeErrorView::CannotParseInput(m@),
            ScenarioRuntimeError::InvalidSwitchType(v) => RuntimeErrorView::InvalidSwitchType(v@),
            ScenarioRuntimeError::InvalidFilterType(v) => RuntimeErrorView::InvalidFilterType(v@),
            ScenarioRuntimeError::ExpressionError(e) => RuntimeErrorView::ExpressionError(e@),
            ScenarioRuntimeError::CustomNodeError(e) => RuntimeErrorView::CustomNodeError(e@),
        }
    }
}

/// What evaluating an expression gives: a value or an error.
pub type Evaluation = Result<JsonValue, RuntimeErrorView>;

/// What running a compiled scenario gives: the records in order, or an error.
pub type Outcome = Result<Seq<OutputRecord>, RuntimeErrorView>;

/// The view of the result of an evaluation.
pub open spec fn evaluation_of(r: Result<VarValue, ScenarioRuntimeError>) -> Evaluation {
    match r {
        Ok(v) => Ok(v@),
        Err(e) => Err(e@),
    }
}

/// The view of the result of a run.
pub open spec fn outcome_of(r: Result<ScenarioOutput, ScenarioRuntimeError>) -> Outcome {
    match r {
        Ok(out) => Ok(out@),
        Err(e) => Err(e@),
    }
}

/// The records of a sequence of outputs, one output after the other.
pub open spec fn flattened(outputs: Seq<ScenarioOutput>) -> Seq<OutputRecord>
    decreases outputs.len(),
{
    if outputs.len() == 0 {
        Seq::empty()
    } else {
        flattened(outputs.drop_last()) + outputs.last()@
    }
}

/// The records at one sink, in order.
pub open spec fn at_sink(records: Seq<OutputRecord>, sink_id: Seq<char>) -> Seq<OutputRecord> {
    records.filter(|o: OutputRecord| o.node_id == sink_id)
}

impl ScenarioOutput {
    /// The outputs as one: their records in order.
    pub fn flatten(vec: Vec<ScenarioOutput>) -> (r: ScenarioOutput)
        ensures
            r@ == flattened(vec@),
    {
        let mut vec = vec;
        let ghost outputs = vec@;
        let mut out: Vec<SingleScenarioOutput> = Vec::new();
        let mut taken: Vec<ScenarioOutput> = Vec::new();
        let n = vec.len();
        let mut i: usize = 0;
        assert(outputs.take(0) =~= Seq::empty());
        while i < n
            invariant
                i <= n,
                n == outputs.len(),
                vec@.len() == n,
                forall|j: int| i <= j < n ==> vec@[j] == outputs[j],
                out@.map_values(|o: SingleScenarioOutput| o@) == flattened(outputs.take(i as int)),
            decreases n - i,
        {
            let ghost before = out@.map_values(|o: SingleScenarioOutput| o@);
            let mut part = ScenarioOutput(Vec::new());
            core::mem::swap(&mut part, &mut vec[i]);
            let mut records = part.0;
            out.append(&mut records);
            proof {
                assert(part == outputs[i as int]);
                assert(outputs.take(i + 1).drop_last() =~= outputs.take(i as int));
                assert(outputs.take(i + 1).last() == outputs[i as int]);
                assert(out@.map_values(|o: SingleScenarioOutput| o@) =~= before + part@);
            }
            i = i + 1;
        }
        assert(outputs.take(n as int) =~= outputs);
        ScenarioOutput(out)
    }

    /// The variables of each record at a sink, in order.
    pub fn vars_in_sink(&self, sink_id: &NodeId) -> (r: Vec<&NameMap<VarValue>>)
        ensures
            r@.map_values(|m: &NameMap<VarValue>| bindings_of(m@)) == at_sink(self@, sink_id@).map_values(
                |o: OutputRecord| o.variables,
            ),
    {
        let mut out: Vec<&NameMap<VarValue>> = Vec::new();
        let mut i: usize = 0;
        assert(self@.take(0) =~= Seq::empty());
        while i < self.0.len()
            invariant
                i <= self.0@.len(),
                out@.map_values(|m: &NameMap<VarValue>| bindings_of(m@)) == at_sink(
                    self@.take(i as int),
                    sink_id@,
                ).map_values(|o: OutputRecord| o.variables),
            decreases self.0@.len() - i,
        {
            let ghost before = out@.map_values(|m: &NameMap<VarValue>| bindings_of(m@));
            let record = &self.0[i];
            proof {
                assert(self@.take(i + 1).drop_last() =~= self@.take(i as int));
                assert(self@.take(i + 1).last() == record@);
                reveal(Seq::filter);
            }
            if record.node_id.same_as(sink_id) {
                out.push(&record.variables);
                assert(out@.map_values(|m: &NameMap<VarValue>| bindings_of(m@)) =~= before.push(
                    record@.variables,
                ));
                assert(at_sink(self@.take(i + 1), sink_id@) =~= at_sink(
                    self@.take(i as int),
                    sink_id@,
                ).push(record@));
            }
            i = i + 1;
        }
        assert(self@.take(self.0@.len() as int) =~= self@);
        out
    }

    /// What each record at a sink binds to a name, in order; `None` where a
    /// record does not bind it.
    pub fn var_in_sink(&self, sink_id: &NodeId, var_name: &str) -> (r: Vec<Option<&VarValue>>)
        ensures
            r@.map_values(
                |v: Option<&VarValue>|
                    match v {
                        Some(value) => Some(value@),
                        None => None,
                    },
            ) == at_sink(self@, sink_id@).map_values(
                |o: OutputRecord|
                    if o.variables.contains_key(var_name@) {
                        Some(o.variables[var_name@])
                    } else {
                        None
                    },
            ),
    {
        let vars = self.vars_in_sink(sink_id);
        let ghost records = at_sink(self@, sink_id@);
        let mut out: Vec<Option<&VarValue>> = Vec::new();
        let mut i: usize = 0;
        proof {
            let ours = vars@.map_values(|m: &NameMap<VarValue>| bindings_of(m@));
            let theirs = records.map_values(|o: OutputRecord| o.variables);
            assert(ours.len() == theirs.len());
            assert forall|j: int| 0 <= j < vars@.len() implies bindings_of((#[trigger] vars@[j])@)
                == records[j].variables by {
                assert(ours[j] == theirs[j]);
            }
        }
        while i < vars.len()
            invariant
                i <= vars@.len(),
                vars@.len() == records.len(),
                forall|j: int|
                    0 <= j < vars@.len() ==> bindings_of((#[trigger] vars@[j])@)
                        == records[j].variables,
                out@.len() == i,
                forall|j: int|
                    0 <= j < i ==> match #[trigger] out@[j] {
                        Some(value) => records[j].variables.contains_key(var_name@)
                            && records[j].variables[var_name@] == value@,
                        None => !records[j].variables.contains_key(var_name@),
                    },
            decreases vars@.len() - i,
        {
            out.push(vars[i].get(var_name));
            i = i + 1;
        }
        assert(out@.map_values(
            |v: Option<&VarValue>|
                match v {
                    Some(value) => Some(value@),
                    None => None,
                },
        ) =~= records.map_values(
            |o: OutputRecord|
                if o.variables.contains_key(var_name@) {
                    Some(o.variables[var_name@])
                } else {
                    None
                },
        ));
        out
    }
}

} // verus!
