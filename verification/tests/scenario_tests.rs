use rusty_nussknacker::customnodes::{ForEach, ForEachError, VALUE_PARAM};
use rusty_nussknacker::expression::{CompiledExpression, LanguageParser, Parser};
use rusty_nussknacker::interpreter::compiler::{CompilationResult, CompiledNode, Compiler};
use rusty_nussknacker::interpreter::data::{
    CompilationVarContext, CustomNodeFailure, ExpressionFailure, ScenarioCompilationError,
    ScenarioOutput, ScenarioRuntimeError, SingleScenarioOutput, VarContext, VarValue,
    DEFAULT_INPUT_NAME,
};
use rusty_nussknacker::interpreter::Interpreter;
use rusty_nussknacker::javascriptexpression::{
    JavaScriptParser, JavascriptExecutionError, JavascriptExpression, JavascriptParseError,
    ScriptHost,
};
use rusty_nussknacker::namemap::NameMap;
use rusty_nussknacker::scenariomodel::{
    Case, Expression, MetaData, Node, NodeId, Parameter, Scenario,
};
use rusty_nussknacker::{create_interpreter, default_compiler, invoke_interpreter, invoke_on};
use std::sync::Arc;

// ---------------------------------------------------------------------------
// A small script host: it runs the few forms of expression that the tests
// write, on the variables handed to it.
// ---------------------------------------------------------------------------

struct TestHost;

fn number(n: i64) -> VarValue {
    VarValue::Number(serde_json::Number::from(n))
}

fn text(s: &str) -> VarValue {
    VarValue::String(s.to_string())
}

fn user_text(source: &str) -> Option<&str> {
    let start = source.find("return (")? + "return (".len();
    let end = source.rfind(")\n        }")?;
    Some(&source[start..end])
}

fn declared_names(source: &str) -> Vec<String> {
    let start = source.find("const { ").unwrap() + "const { ".len();
    let end = source.find(" } = argMap").unwrap();
    source[start..end]
        .split(", ")
        .filter(|s| !s.is_empty())
        .map(|s| s.to_string())
        .collect()
}

fn as_int(v: &VarValue) -> Option<i64> {
    match v {
        VarValue::Number(n) => n.as_i64(),
        _ => None,
    }
}

fn operand(token: &str, source: &str, arguments: &NameMap<VarValue>) -> Result<VarValue, String> {
    let token = token.trim();
    if let Ok(n) = token.parse::<i64>() {
        return Ok(number(n));
    }
    if token == "true" {
        return Ok(VarValue::Bool(true));
    }
    if token == "false" {
        return Ok(VarValue::Bool(false));
    }
    if token == "null" {
        return Ok(VarValue::Null);
    }
    if token.len() >= 2 && token.starts_with('\'') && token.ends_with('\'') {
        return Ok(text(&token[1..token.len() - 1]));
    }
    if token.starts_with('[') && token.ends_with(']') {
        let inner = &token[1..token.len() - 1];
        let mut items = vec![];
        for part in inner.split(',') {
            if !part.trim().is_empty() {
                items.push(operand(part, source, arguments)?);
            }
        }
        return Ok(VarValue::Array(items));
    }
    if declared_names(source).iter().any(|n| n == token) {
        return match arguments.get(token) {
            Some(v) => Ok(v.clone()),
            None => Err(format!("{} is not defined", token)),
        };
    }
    Err(format!("cannot evaluate {}", token))
}

fn evaluate(expr: &str, source: &str, arguments: &NameMap<VarValue>) -> Result<VarValue, String> {
    if expr.contains("function add(v1, v2)") {
        let input = operand("input", source, arguments)?;
        return match input {
            VarValue::String(s) => Ok(text(&format!("{}+suffix", s))),
            other => Err(format!("unexpected {:?}", other)),
        };
    }
    for op in ["==", "<=", ">", "+"] {
        if let Some(at) = expr.find(op) {
            let left = operand(&expr[..at], source, arguments)?;
            let right = operand(&expr[at + op.len()..], source, arguments)?;
            return match (op, &left, &right) {
                ("==", _, _) => Ok(VarValue::Bool(left == right)),
                ("+", VarValue::String(a), VarValue::String(b)) => Ok(text(&format!("{}{}", a, b))),
                (_, _, _) => match (as_int(&left), as_int(&right)) {
                    (Some(a), Some(b)) => Ok(match op {
                        "<=" => VarValue::Bool(a <= b),
                        ">" => VarValue::Bool(a > b),
                        _ => number(a + b),
                    }),
                    _ => Err(format!("cannot apply {} to {:?} and {:?}", op, left, right)),
                },
            };
        }
    }
    operand(expr, source, arguments)
}

impl ScriptHost for TestHost {
    fn compile(&self, source: &str) -> Result<(), String> {
        match user_text(source) {
            Some(expr) if !expr.trim_start().starts_with("return") && !expr.trim().is_empty() => {
                Ok(())
            }
            _ => Err("SyntaxError: Unexpected token".to_string()),
        }
    }

    fn call(
        &self,
        source: &str,
        arguments: &NameMap<VarValue>,
    ) -> Result<VarValue, JavascriptExecutionError> {
        let expr = match user_text(source) {
            Some(expr) => expr,
            None => return Err(JavascriptExecutionError::ScriptParse(source.to_string())),
        };
        evaluate(expr, source, arguments).map_err(JavascriptExecutionError::RuntimeError)
    }
}

type Js = JavascriptExpression<TestHost>;
type Tree = CompiledNode<Js, ForEach>;

fn compiler() -> Compiler<JavaScriptParser<TestHost>, ForEach> {
    default_compiler(Arc::new(TestHost))
}

fn parser() -> JavaScriptParser<TestHost> {
    JavaScriptParser::new(Arc::new(TestHost))
}

fn compile_node(node: Node, rest: &[Node]) -> CompilationResult<Js, ForEach> {
    let var_ctx = CompilationVarContext::default();
    let mut nodes = vec![node];
    nodes.extend(rest.iter().cloned());
    compiler().compile_next_node(&nodes, 0, &var_ctx)
}

fn js(value: &str) -> Expression {
    Expression { language: String::from("javascript"), expression: String::from(value) }
}

fn sink(id: &NodeId) -> Vec<Node> {
    vec![Node::Sink { id: id.clone() }]
}

fn scenario(nodes: Vec<Node>) -> Scenario {
    Scenario { meta_data: MetaData { id: String::from("") }, nodes }
}

fn source() -> Node {
    Node::Source { id: NodeId::new("source") }
}

fn compile_invoke_to_output(node: Node, input: VarValue) -> ScenarioOutput {
    let scenario = scenario(vec![source(), node, Node::Sink { id: NodeId::new("sink") }]);
    let compiled_scenario = compiler().compile(&scenario).unwrap();
    compiled_scenario.run(&VarContext::default_context_for_value(input)).unwrap()
}

fn variables(pairs: Vec<(&str, VarValue)>) -> NameMap<VarValue> {
    let mut map = NameMap::new();
    for (name, value) in pairs {
        map.insert(name.to_string(), value);
    }
    map
}

// ---------------------------------------------------------------------------
// The custom node forEach
// ---------------------------------------------------------------------------

const TEST_OUTPUT: &str = "test_output";

struct MockInterpreter {}

impl Interpreter for MockInterpreter {
    fn run(&self, data: &VarContext) -> Result<ScenarioOutput, ScenarioRuntimeError> {
        Ok(ScenarioOutput(vec![SingleScenarioOutput {
            node_id: NodeId::new(TEST_OUTPUT),
            variables: data.to_external_form(),
        }]))
    }
}

fn check_for_value(v: &[&VarValue]) -> Result<(), ScenarioRuntimeError> {
    let foreach = ForEach {};
    let output_var = "output";
    let next_part = MockInterpreter {};
    let array = VarValue::Array(v.iter().map(|x| (*x).clone()).collect());
    let parameters = variables(vec![(VALUE_PARAM, array)]);
    let result = foreach.run(output_var, &parameters, &VarContext::empty(), &next_part)?;
    let values: Vec<&VarValue> = result
        .var_in_sink(&NodeId::new(TEST_OUTPUT), output_var)
        .iter()
        .map(|o| o.unwrap())
        .collect();
    assert_eq!(values, v);
    Ok(())
}

#[test]
fn test_arrays() {
    check_for_value(&[&text("a"), &number(12)]).unwrap();
    check_for_value(&[]).unwrap();
    check_for_value(&[&text(""), &VarValue::Null]).unwrap();
}

fn test_parameter(params: &NameMap<VarValue>, expected_error: ForEachError) {
    let foreach = ForEach {};
    let next_part = MockInterpreter {};
    let output_var = "output";
    let result =
        foreach.run(output_var, params, &VarContext::empty(), &next_part).unwrap_err();
    let error = match result {
        ScenarioRuntimeError::CustomNodeError(CustomNodeFailure::ForEach(error)) => error,
        other => panic!("Unexpected error {:?}", other),
    };
    assert_eq!(error, expected_error);
}

#[test]
fn test_wrong_parameters() {
    test_parameter(&variables(vec![]), ForEachError::NoValueParam);
    test_parameter(
        &variables(vec![("dummy_name", VarValue::Array(vec![]))]),
        ForEachError::NoValueParam,
    );
    test_parameter(
        &variables(vec![(VALUE_PARAM, text(""))]),
        ForEachError::WrongValueType(text("")),
    );
}

// ---------------------------------------------------------------------------
// The JavaScript language
// ---------------------------------------------------------------------------

#[test]
fn parse_test_simple_expression() {
    let expr = parser().parse("10 + 5", &CompilationVarContext::default()).unwrap();
    let res = expr.execute(&VarContext::empty());
    assert_eq!(res.unwrap(), number(15));
}

#[test]
fn parse_test_expression_with_variable() {
    let scope = CompilationVarContext::default().with_var(&NodeId::new("n"), "ala").unwrap();
    let expr = parser().parse("ala + 5", &scope).unwrap();
    let data = VarContext::empty().with_new_var("ala", number(10));
    let res = expr.execute(&data);
    assert_eq!(res.unwrap(), number(15));
}

#[test]
fn javascriptexpression_test_simple_expression() {
    let expr = parser().parse("10 + 5", &CompilationVarContext::default()).unwrap();
    let res = expr.execute(&VarContext::empty()).unwrap();
    assert_eq!(res, number(15));
}

#[test]
fn test_parse_wrong_expression() {
    let expr = parser().parse("return aaaa", &CompilationVarContext::default());
    assert!(expr.is_err());
}

#[test]
fn javascriptexpression_test_expression_with_variable() {
    let expr = parser().parse("input + 5", &CompilationVarContext::default()).unwrap();
    let res = expr.execute(&VarContext::default_context_for_value(number(10))).unwrap();
    assert_eq!(res, number(15));
}

#[test]
fn test_nested_multiline_expression() {
    let expr = parser()
        .parse(
            "[input].map(x => {
               function add(v1, v2) { return v1 + v2; }
               return add(x, '+suffix');
            })[0]",
            &CompilationVarContext::default(),
        )
        .unwrap();
    let res = expr.execute(&VarContext::default_context_for_value(text("my_input"))).unwrap();
    assert_eq!(res, text("my_input+suffix"));
}

#[test]
fn wrapper_source_is_exact() {
    let scope = CompilationVarContext::default().with_var(&NodeId::new("n"), "other").unwrap();
    let source = JavaScriptParser::<TestHost>::transform("input + other", &scope);
    assert_eq!(
        source,
        "function run (argMap) {\n            const { input, other } = argMap\n            return (input + other)\n        }"
    );
}

#[test]
fn parsing_follows_what_the_host_made_of_the_source() {
    let accepted = parser().checked(String::from("function run () {}"), Ok(()));
    match accepted {
        Ok(expression) => assert_eq!(expression.transformed, "function run () {}"),
        Err(refusal) => panic!("Unexpected: {:?}", refusal),
    }
    let refused = parser().checked(String::from("function"), Err(String::from("no body")));
    match refused {
        Err(refusal) => assert_eq!(refusal, JavascriptParseError(String::from("no body"))),
        Ok(_) => panic!("Unexpected: the source was accepted"),
    }
}

#[test]
fn script_failure_becomes_expression_error() {
    let expr = parser().parse("input + 5", &CompilationVarContext::default()).unwrap();
    let res = expr.execute(&VarContext::default_context_for_value(text("x")));
    match res {
        Err(ScenarioRuntimeError::ExpressionError(ExpressionFailure::Javascript(
            JavascriptExecutionError::RuntimeError(_),
        ))) => (),
        other => panic!("Unexpected: {:?}", other),
    }
}

// ---------------------------------------------------------------------------
// The compiler and the compiled nodes
// ---------------------------------------------------------------------------

#[test]
fn test_variable() {
    let input = number(22);
    let new_var_name = "new_var";
    let new_var_value = 12;

    let node = Node::Variable {
        id: NodeId::new("var"),
        var_name: String::from(new_var_name),
        value: js(&new_var_value.to_string()),
    };
    let output = compile_invoke_to_output(node, input.clone());
    assert_eq!(
        output,
        ScenarioOutput(vec![SingleScenarioOutput {
            node_id: NodeId::new("sink"),
            variables: variables(vec![
                (DEFAULT_INPUT_NAME, input),
                (new_var_name, number(new_var_value))
            ])
        }])
    )
}

#[test]
fn test_filter() {
    let node = Node::Filter { id: NodeId::new("filter"), expression: js("input == 22") };
    let output_true = compile_invoke_to_output(node, number(22));
    assert_eq!(
        output_true,
        ScenarioOutput(vec![SingleScenarioOutput {
            node_id: NodeId::new("sink"),
            variables: variables(vec![(DEFAULT_INPUT_NAME, number(22))])
        }])
    );
    let node = Node::Filter { id: NodeId::new("filter"), expression: js("input == 22") };
    let output_false = compile_invoke_to_output(node, number(11));
    assert_eq!(output_false, ScenarioOutput(vec![]))
}

#[test]
fn test_filter_outputs() {
    let node_to_test = Node::Filter { id: NodeId::new("filter"), expression: js("input>5") };
    let sink_id = NodeId::new("sink1");

    let compiled = compile_node(node_to_test, &sink(&sink_id)).unwrap();

    let result = compiled.run(&VarContext::default_context_for_value(number(3))).unwrap();
    assert_eq!(result.var_in_sink(&sink_id, DEFAULT_INPUT_NAME), []);

    let input = number(8);
    let result = compiled.run(&VarContext::default_context_for_value(input.clone())).unwrap();
    assert_eq!(result.var_in_sink(&sink_id, DEFAULT_INPUT_NAME), [Some(&input)]);
}

#[test]
fn split_test_outputs() {
    let branch1 = NodeId::new("branch1");
    let branch2 = NodeId::new("branch2");

    let node_to_test =
        Node::Split { id: NodeId::new("split"), nexts: vec![sink(&branch1), sink(&branch2)] };

    let compiled = compile_node(node_to_test, &[]).unwrap();

    let input = text("to_copy");
    let result = compiled.run(&VarContext::default_context_for_value(input.clone())).unwrap();
    assert_eq!(result.var_in_sink(&branch1, DEFAULT_INPUT_NAME), [Some(&input)]);
    assert_eq!(result.var_in_sink(&branch2, DEFAULT_INPUT_NAME), [Some(&input)]);
    assert_eq!(result.0.len(), 2);
    assert_eq!(result.0[0].node_id, branch1);
    assert_eq!(result.0[1].node_id, branch2);
}

#[test]
fn switch_test_outputs() {
    let left_sink_id = NodeId::new("sink1");
    let right_sink_id = NodeId::new("sink2");

    let left_case = Case { expression: js("input > 0"), nodes: sink(&left_sink_id) };
    let right_case = Case { expression: js("input <= 0"), nodes: sink(&right_sink_id) };

    let compiled = compile_node(
        Node::Switch { id: NodeId::new("node_id"), nexts: vec![left_case, right_case] },
        &[],
    )
    .unwrap();

    let input = number(8);
    let result = compiled.run(&VarContext::default_context_for_value(input.clone())).unwrap();
    assert_eq!(result.var_in_sink(&left_sink_id, DEFAULT_INPUT_NAME), [Some(&input)]);
    assert_eq!(result.var_in_sink(&right_sink_id, DEFAULT_INPUT_NAME), []);

    let input = number(-5);
    let result = compiled.run(&VarContext::default_context_for_value(input.clone())).unwrap();
    assert_eq!(result.var_in_sink(&left_sink_id, DEFAULT_INPUT_NAME), []);
    assert_eq!(result.var_in_sink(&right_sink_id, DEFAULT_INPUT_NAME), [Some(&input)]);
}

#[test]
fn variable_test_outputs() {
    let output_name = "test_output";
    let node_to_test = Node::Variable {
        id: NodeId::new("filter"),
        var_name: output_name.to_string(),
        value: js("input + '-suffix'"),
    };
    let sink_id = NodeId::new("sink1");

    let compiled = compile_node(node_to_test, &sink(&sink_id)).unwrap();

    let input = text("terefere");
    let output = text("terefere-suffix");

    let result = compiled.run(&VarContext::default_context_for_value(input)).unwrap();
    assert_eq!(result.var_in_sink(&sink_id, output_name), [Some(&output)]);
}

// ---------------------------------------------------------------------------
// Compile-time scope
// ---------------------------------------------------------------------------

fn node_id() -> NodeId {
    NodeId::new("testNode")
}

#[test]
fn adds_var_to_context() {
    let context = CompilationVarContext::default();
    let new_ctx = context.with_var(&node_id(), "abc").unwrap();
    assert_eq!(new_ctx.to_names(), vec!["input".to_string(), "abc".to_string()]);
    assert!(new_ctx.contains("input") && new_ctx.contains("abc"));
    assert!(!context.contains("abc"));
}

fn assert_incorrent_name(name: &str) {
    let context = CompilationVarContext::default();
    match context.with_var(&node_id(), name) {
        Err(ScenarioCompilationError::IncorrectVariableName { node_id: id, var_name })
            if name == var_name && id == node_id() => {}
        other => panic!("Unexpected: {:?}", other.map(|c| c.to_names())),
    }
}

#[test]
fn checks_var_name() {
    assert_incorrent_name("a b c");
    assert_incorrent_name("1abc");
    assert_incorrent_name("");
}

#[test]
fn a_bound_name_is_in_scope_downstream_and_not_in_a_sibling_branch() {
    let with = vec![
        Node::Variable { id: NodeId::new("var"), var_name: String::from("extra"), value: js("12") },
        Node::Filter { id: NodeId::new("inner"), expression: js("extra == 12") },
        Node::Sink { id: NodeId::new("with") },
    ];
    let without = vec![
        Node::Filter { id: NodeId::new("other"), expression: js("input == 1") },
        Node::Sink { id: NodeId::new("without") },
    ];
    let split = Node::Split { id: NodeId::new("split"), nexts: vec![with, without] };
    let branches = match compile_node(split, &[]).unwrap() {
        CompiledNode::Split(split) => split.nexts,
        _ => panic!("Unexpected kind of node"),
    };
    assert_eq!(branches.len(), 2);
    match &branches[0] {
        CompiledNode::Variable(variable) => {
            assert_eq!(variable.var_name, "extra");
            assert!(variable.expression.transformed.contains("const { input } = argMap"));
            match &*variable.rest {
                CompiledNode::Filter(inner) => {
                    assert!(inner.expression.transformed.contains("const { input, extra } = argMap"))
                }
                _ => panic!("Unexpected kind of node"),
            }
        }
        _ => panic!("Unexpected kind of node"),
    }
    match &branches[1] {
        CompiledNode::Filter(other) => {
            assert!(other.expression.transformed.contains("const { input } = argMap"))
        }
        _ => panic!("Unexpected kind of node"),
    }
}

// ---------------------------------------------------------------------------
// Whole scenarios
// ---------------------------------------------------------------------------

fn for_each_scenario(array: &str) -> Scenario {
    scenario(vec![
        source(),
        Node::CustomNode {
            id: NodeId::new("custom"),
            output_var: String::from("each"),
            node_type: String::from("forEach"),
            parameters: vec![Parameter { name: String::from("value"), expression: js(array) }],
        },
        Node::Sink { id: NodeId::new("sink") },
    ])
}

#[test]
fn test_scenario_with_custom_node() {
    let interpreter = create_interpreter(&for_each_scenario("['a','b','c']"), Arc::new(TestHost))
        .unwrap();

    let input = VarContext::default_context_for_value(text(""));
    let output = interpreter.run(&input).unwrap();
    assert_eq!(
        output.var_in_sink(&NodeId::new("sink"), "each"),
        vec![Some(&text("a")), Some(&text("b")), Some(&text("c"))]
    );
}

#[test]
fn test_scenario_with_split() {
    let branch = |sink_id: &str| {
        vec![
            Node::Variable {
                id: NodeId::new("var"),
                var_name: String::from("additional"),
                value: js("input > 3"),
            },
            Node::Sink { id: NodeId::new(sink_id) },
        ]
    };
    let with_split = scenario(vec![
        source(),
        Node::Split { id: NodeId::new("split"), nexts: vec![branch("sink1"), branch("sink2")] },
    ]);
    let interpreter = create_interpreter(&with_split, Arc::new(TestHost)).unwrap();

    let input = VarContext::default_context_for_value(number(4));
    let output = interpreter.run(&input).unwrap();
    assert_eq!(
        output.var_in_sink(&NodeId::new("sink1"), "additional"),
        vec![Some(&VarValue::Bool(true))]
    );
    assert_eq!(
        output.var_in_sink(&NodeId::new("sink2"), "additional"),
        vec![Some(&VarValue::Bool(true))]
    );
}

#[test]
fn invoke_binds_the_input() {
    let tree: Tree = compiler().compile(&scenario(vec![source(), Node::Sink { id: NodeId::new("sink") }])).unwrap();
    let output = invoke_interpreter(&tree, "7").unwrap();
    assert_eq!(
        output,
        ScenarioOutput(vec![SingleScenarioOutput {
            node_id: NodeId::new("sink"),
            variables: variables(vec![("input", number(7))])
        }])
    );
}

#[test]
fn invoke_reads_nested_values() {
    let tree: Tree = compiler().compile(&scenario(vec![source(), Node::Sink { id: NodeId::new("sink") }])).unwrap();
    let output = invoke_interpreter(&tree, "{\"a\": \"x\", \"b\": [1, null, true]}").unwrap();
    let expected = VarValue::Object(vec![
        (String::from("a"), text("x")),
        (
            String::from("b"),
            VarValue::Array(vec![number(1), VarValue::Null, VarValue::Bool(true)]),
        ),
    ]);
    assert_eq!(output.var_in_sink(&NodeId::new("sink"), "input"), vec![Some(&expected)]);
}

#[test]
fn invoke_refuses_what_is_no_json() {
    let tree: Tree = compiler().compile(&scenario(vec![source(), Node::Sink { id: NodeId::new("sink") }])).unwrap();
    match invoke_interpreter(&tree, "{") {
        Err(ScenarioRuntimeError::CannotParseInput(report)) => {
            assert_eq!(report, serde_json::from_str::<serde_json::Value>("{").unwrap_err().to_string())
        }
        other => panic!("Unexpected: {:?}", other),
    }
    match invoke_on(&tree, Err(String::from("no input"))) {
        Err(ScenarioRuntimeError::CannotParseInput(report)) => assert_eq!(report, "no input"),
        other => panic!("Unexpected: {:?}", other),
    }
}

#[test]
fn invoke_on_a_value_binds_it() {
    let tree: Tree = compiler().compile(&scenario(vec![source(), Node::Sink { id: NodeId::new("sink") }])).unwrap();
    let output = invoke_on(&tree, Ok(text("abc"))).unwrap();
    assert_eq!(output.var_in_sink(&NodeId::new("sink"), "input"), vec![Some(&text("abc"))]);
}

#[test]
fn for_each_of_empty_array_gives_no_record() {
    let tree = compiler().compile(&for_each_scenario("[]")).unwrap();
    let output = invoke_interpreter(&tree, "\"\"").unwrap();
    assert_eq!(output, ScenarioOutput(vec![]));
}

#[test]
fn for_each_of_no_array_is_an_error() {
    let tree = compiler().compile(&for_each_scenario("'abc'")).unwrap();
    match invoke_interpreter(&tree, "\"\"") {
        Err(ScenarioRuntimeError::CustomNodeError(CustomNodeFailure::ForEach(
            ForEachError::WrongValueType(v),
        ))) => assert_eq!(v, text("abc")),
        other => panic!("Unexpected: {:?}", other),
    }
}

#[test]
fn for_each_without_value_is_an_error() {
    let nodes = vec![
        source(),
        Node::CustomNode {
            id: NodeId::new("custom"),
            output_var: String::from("each"),
            node_type: String::from("forEach"),
            parameters: vec![],
        },
        Node::Sink { id: NodeId::new("sink") },
    ];
    let tree = compiler().compile(&scenario(nodes)).unwrap();
    match invoke_interpreter(&tree, "\"\"") {
        Err(ScenarioRuntimeError::CustomNodeError(CustomNodeFailure::ForEach(
            ForEachError::NoValueParam,
        ))) => (),
        other => panic!("Unexpected: {:?}", other),
    }
}

#[test]
fn switch_with_no_matching_case_gives_no_record() {
    let case = Case { expression: js("input > 0"), nodes: sink(&NodeId::new("sink1")) };
    let compiled =
        compile_node(Node::Switch { id: NodeId::new("switch"), nexts: vec![case] }, &[]).unwrap();
    let result = compiled.run(&VarContext::default_context_for_value(number(-1))).unwrap();
    assert_eq!(result, ScenarioOutput(vec![]));
}

#[test]
fn switch_takes_the_first_matching_case_only() {
    let first = Case { expression: js("input > 0"), nodes: sink(&NodeId::new("first")) };
    let second = Case { expression: js("input > 1"), nodes: sink(&NodeId::new("second")) };
    let compiled = compile_node(
        Node::Switch { id: NodeId::new("switch"), nexts: vec![first, second] },
        &[],
    )
    .unwrap();
    let result = compiled.run(&VarContext::default_context_for_value(number(5))).unwrap();
    assert_eq!(result.0.len(), 1);
    assert_eq!(result.0[0].node_id, NodeId::new("first"));
}

#[test]
fn switch_predicate_must_be_boolean() {
    let case = Case { expression: js("input + 1"), nodes: sink(&NodeId::new("sink1")) };
    let compiled =
        compile_node(Node::Switch { id: NodeId::new("switch"), nexts: vec![case] }, &[]).unwrap();
    match compiled.run(&VarContext::default_context_for_value(number(1))) {
        Err(ScenarioRuntimeError::InvalidSwitchType(v)) => assert_eq!(v, number(2)),
        other => panic!("Unexpected: {:?}", other),
    }
}

#[test]
fn filter_predicate_must_be_boolean() {
    let node = Node::Filter { id: NodeId::new("filter"), expression: js("input + 1") };
    let compiled = compile_node(node, &sink(&NodeId::new("sink"))).unwrap();
    match compiled.run(&VarContext::default_context_for_value(number(1))) {
        Err(ScenarioRuntimeError::InvalidFilterType(v)) => assert_eq!(v, number(2)),
        other => panic!("Unexpected: {:?}", other),
    }
}

#[test]
fn constant_false_filter_gives_no_record() {
    let node = Node::Filter { id: NodeId::new("filter"), expression: js("false") };
    let output = compile_invoke_to_output(node, number(1));
    assert_eq!(output, ScenarioOutput(vec![]));
}

#[test]
fn split_with_no_branch_gives_no_record() {
    let compiled =
        compile_node(Node::Split { id: NodeId::new("split"), nexts: vec![] }, &[]).unwrap();
    let result = compiled.run(&VarContext::default_context_for_value(number(1))).unwrap();
    assert_eq!(result, ScenarioOutput(vec![]));
}

#[test]
fn a_variable_is_not_visible_on_a_sibling_branch() {
    let bound = vec![
        Node::Variable { id: NodeId::new("var"), var_name: String::from("extra"), value: js("12") },
        Node::Sink { id: NodeId::new("with") },
    ];
    let plain = sink(&NodeId::new("without"));
    let compiled = compile_node(
        Node::Split { id: NodeId::new("split"), nexts: vec![bound, plain] },
        &[],
    )
    .unwrap();
    let result = compiled.run(&VarContext::default_context_for_value(number(1))).unwrap();
    assert_eq!(result.var_in_sink(&NodeId::new("with"), "extra"), [Some(&number(12))]);
    assert_eq!(result.var_in_sink(&NodeId::new("without"), "extra"), [None]);
}

#[test]
fn running_twice_gives_the_same_output() {
    let tree = compiler().compile(&for_each_scenario("['a','b','c']")).unwrap();
    let first = invoke_interpreter(&tree, "3").unwrap();
    let second = invoke_interpreter(&tree, "3").unwrap();
    assert_eq!(first, second);
}

// ---------------------------------------------------------------------------
// Refusals of the compiler
// ---------------------------------------------------------------------------

fn refusal(nodes: Vec<Node>) -> ScenarioCompilationError {
    match compiler().compile(&scenario(nodes)) {
        Err(e) => e,
        Ok(_) => panic!("the scenario should have been refused"),
    }
}

#[test]
fn refuses_a_scenario_without_source() {
    assert_eq!(
        refusal(sink(&NodeId::new("sink"))),
        ScenarioCompilationError::FirstNodeNotSource(NodeId::new("sink"))
    );
}

#[test]
fn refuses_an_empty_scenario() {
    assert_eq!(refusal(vec![]), ScenarioCompilationError::EmptyScenario());
}

#[test]
fn refuses_nodes_after_a_sink() {
    let nodes = vec![
        source(),
        Node::Sink { id: NodeId::new("sink") },
        Node::Sink { id: NodeId::new("late") },
    ];
    assert_eq!(
        refusal(nodes),
        ScenarioCompilationError::NodesAfterEndingNode {
            node_id: NodeId::new("sink"),
            unexpected_nodes: sink(&NodeId::new("late")),
        }
    );
}

#[test]
fn refuses_nodes_after_a_split_and_after_a_switch() {
    let split = Node::Split { id: NodeId::new("split"), nexts: vec![sink(&NodeId::new("a"))] };
    match refusal(vec![source(), split, Node::Sink { id: NodeId::new("late") }]) {
        ScenarioCompilationError::NodesAfterEndingNode { node_id, .. } => {
            assert_eq!(node_id, NodeId::new("split"))
        }
        other => panic!("Unexpected: {:?}", other),
    }
    let switch = Node::Switch { id: NodeId::new("switch"), nexts: vec![] };
    match refusal(vec![source(), switch, Node::Sink { id: NodeId::new("late") }]) {
        ScenarioCompilationError::NodesAfterEndingNode { node_id, .. } => {
            assert_eq!(node_id, NodeId::new("switch"))
        }
        other => panic!("Unexpected: {:?}", other),
    }
}

#[test]
fn refuses_a_bad_variable_name() {
    let var = Node::Variable {
        id: NodeId::new("var"),
        var_name: String::from("1bad"),
        value: js("12"),
    };
    assert_eq!(
        refusal(vec![source(), var, Node::Sink { id: NodeId::new("sink") }]),
        ScenarioCompilationError::IncorrectVariableName {
            node_id: NodeId::new("var"),
            var_name: String::from("1bad"),
        }
    );
}

#[test]
fn refuses_a_sequence_without_end() {
    let filter = Node::Filter { id: NodeId::new("filter"), expression: js("true") };
    assert_eq!(
        refusal(vec![source(), filter]),
        ScenarioCompilationError::InvalidEnd(NodeId::new("filter"))
    );
    assert_eq!(refusal(vec![source()]), ScenarioCompilationError::InvalidEnd(NodeId::new("source")));
}

#[test]
fn refuses_a_source_in_the_middle() {
    let again = Node::Source { id: NodeId::new("again") };
    assert_eq!(
        refusal(vec![source(), again, Node::Sink { id: NodeId::new("sink") }]),
        ScenarioCompilationError::UnknownNode(NodeId::new("again"))
    );
}

#[test]
fn refuses_an_unknown_language() {
    let filter = Node::Filter {
        id: NodeId::new("filter"),
        expression: Expression { language: String::from("spel"), expression: String::from("1") },
    };
    assert_eq!(
        refusal(vec![source(), filter, Node::Sink { id: NodeId::new("sink") }]),
        ScenarioCompilationError::UnknownLanguage {
            node_id: NodeId::new("filter"),
            language: String::from("spel"),
        }
    );
}

#[test]
fn refuses_an_unknown_custom_node() {
    let custom = Node::CustomNode {
        id: NodeId::new("custom"),
        output_var: String::from("out"),
        node_type: String::from("unknown"),
        parameters: vec![],
    };
    assert_eq!(
        refusal(vec![source(), custom, Node::Sink { id: NodeId::new("sink") }]),
        ScenarioCompilationError::UnknownCustomNode {
            node_id: NodeId::new("custom"),
            node_type: String::from("unknown"),
        }
    );
}

#[test]
fn refuses_an_expression_that_does_not_parse() {
    let filter = Node::Filter { id: NodeId::new("filter"), expression: js("return 1") };
    match refusal(vec![source(), filter, Node::Sink { id: NodeId::new("sink") }]) {
        ScenarioCompilationError::ParseError { node_id, error } => {
            assert_eq!(node_id, NodeId::new("filter"));
            assert_eq!(error, "Cannot parse: SyntaxError: Unexpected token");
        }
        other => panic!("Unexpected: {:?}", other),
    }
}

// ---------------------------------------------------------------------------
// Contexts, outputs and names
// ---------------------------------------------------------------------------

#[test]
fn with_new_var_leaves_the_context_as_it_is() {
    let before = VarContext::default_context_for_value(number(1));
    let after = before.with_new_var("extra", number(2));
    assert_eq!(before.to_external_form(), variables(vec![("input", number(1))]));
    assert_eq!(
        after.to_external_form(),
        variables(vec![("input", number(1)), ("extra", number(2))])
    );
    let replaced = after.with_new_var("input", number(3));
    assert_eq!(
        replaced.to_external_form(),
        variables(vec![("extra", number(2)), ("input", number(3))])
    );
    assert_eq!(after.to_external_form().get("input"), Some(&number(1)));
}

#[test]
fn flatten_keeps_the_order() {
    let record = |id: &str| SingleScenarioOutput {
        node_id: NodeId::new(id),
        variables: NameMap::new(),
    };
    let flat = ScenarioOutput::flatten(vec![
        ScenarioOutput(vec![record("a"), record("b")]),
        ScenarioOutput(vec![]),
        ScenarioOutput(vec![record("c")]),
    ]);
    assert_eq!(flat, ScenarioOutput(vec![record("a"), record("b"), record("c")]));
    assert_eq!(flat.vars_in_sink(&NodeId::new("b")).len(), 1);
    assert_eq!(flat.vars_in_sink(&NodeId::new("z")).len(), 0);
}

#[test]
fn name_map_binds_and_replaces() {
    let mut map: NameMap<i32> = NameMap::new();
    assert_eq!(map.len(), 0);
    map.insert("a".to_string(), 1);
    map.insert("b".to_string(), 2);
    map.insert("a".to_string(), 3);
    assert_eq!(map.len(), 2);
    assert_eq!(map.get("a"), Some(&3));
    assert_eq!(map.get("c"), None);
    assert!(map.contains("b") && !map.contains("c"));
    assert_eq!(map.name_at(0), "a");
    assert_eq!(*map.value_at(1), 2);
    let doubled = map.map_values(|v| v * 2);
    assert_eq!(doubled.get("a"), Some(&6));
    let other = NameMap::new().with("b".to_string(), 2).with("a".to_string(), 3);
    assert_eq!(map, other);
    assert_ne!(map, doubled);
}

#[test]
fn variable_names_follow_the_pattern() {
    let pattern = regex::Regex::new("^[a-z][a-z0-9_]*$").unwrap();
    let samples = [
        "", "a", "z", "abc", "a1", "a_b", "a_", "_a", "1abc", "a b", "A", "aB", "a-b", "ab\n",
        "\u{e9}a", "a\u{e9}", "input", "new_var", "x9_y8", "9", "a.b", " a", "a ",
    ];
    for name in samples {
        let accepted = CompilationVarContext::default().with_var(&node_id(), name).is_ok();
        assert_eq!(accepted, pattern.is_match(name), "{:?}", name);
    }
}

#[test]
fn custom_languages_and_nodes_can_be_registered() {
    struct Constant;
    struct Always(VarValue);
    struct Never;
    impl rusty_nussknacker::expression::ParseError for Never {
        fn message(&self) -> String {
            String::from("never")
        }
    }
    impl CompiledExpression for Always {
        fn execute(&self, _data: &VarContext) -> Result<VarValue, ScenarioRuntimeError> {
            Ok(self.0.clone())
        }
    }
    impl Parser for Constant {
        type Compiled = Always;
        type Error = Never;
        fn parse(&self, expression: &str, _scope: &CompilationVarContext) -> Result<Always, Never> {
            if expression == "yes" {
                Ok(Always(VarValue::Bool(true)))
            } else {
                Err(Never)
            }
        }
    }
    let languages = LanguageParser::new().with_language("constant", Constant);
    let compiler: Compiler<Constant, ForEach> = Compiler::with_languages(languages);
    let constant = |text: &str| Expression {
        language: String::from("constant"),
        expression: String::from(text),
    };
    let good = scenario(vec![
        source(),
        Node::Filter { id: NodeId::new("filter"), expression: constant("yes") },
        Node::Sink { id: NodeId::new("sink") },
    ]);
    let tree = compiler.compile(&good).unwrap();
    assert_eq!(invoke_interpreter(&tree, "1").unwrap().0.len(), 1);
    let bad = scenario(vec![
        source(),
        Node::Filter { id: NodeId::new("filter"), expression: constant("no") },
        Node::Sink { id: NodeId::new("sink") },
    ]);
    match compiler.compile(&bad) {
        Err(ScenarioCompilationError::ParseError { node_id, error }) => {
            assert_eq!(node_id, NodeId::new("filter"));
            assert_eq!(error, "never");
        }
        _ => panic!("the scenario should have been refused"),
    }
}
