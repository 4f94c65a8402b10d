use zen_engine::error::ErrorKind;
use zen_engine::model::FunctionContent;
use zen_engine::nodes::definition::{NodeContext, NodeHandler, NodeResponse, ToValue};
use zen_engine::nodes::function::{
    Function, FunctionConfig, FunctionError, FunctionV1NodeHandler, FunctionV1Trace,
    FunctionV2NodeHandler, FunctionV2Trace,
};
use zen_engine::nodes::passthrough::{EmptyTrace, InputNodeHandler, OutputNodeHandler};
use zen_engine::registry::{Capabilities, ConsoleListener, HttpListener, RuntimeListener, ZenListener};
use zen_engine::value::{Member, Value};

fn context<N, T>(id: &str, input: Value, node: N, trace: Option<T>) -> NodeContext<N, T> {
    NodeContext {
        id: id.to_string(),
        name: "a node".to_string(),
        input,
        node,
        depth: 0,
        capabilities: Capabilities::none(),
        trace,
    }
}

fn sample() -> Value {
    Value::Object(vec![Member { key: "n".to_string(), value: Value::Number("1".to_string()) }])
}

#[test]
fn function_v2_handler_always_reports_the_disabled_runtime() {
    let content = FunctionContent { source: "export default () => 1".to_string() };
    for trace in [None, Some(FunctionV2Trace)] {
        for input in [Value::Null, sample()] {
            let ctx = context("f2", input, content.clone(), trace.clone());
            let error = FunctionV2NodeHandler.handle(ctx).expect_err("the runtime is disabled");
            assert_eq!(error.kind, ErrorKind::FeatureDisabled);
            assert_eq!(error.node_id, Some("f2".to_string()));
            assert_eq!(error.message, "QuickJS feature is disabled");
            assert!(error.to_text().contains("QuickJS"));
        }
    }
}

#[test]
fn function_v1_handler_always_reports_the_disabled_runtime() {
    for trace in [None, Some(FunctionV1Trace)] {
        for source in ["", "(input) => input"] {
            let ctx = context("f1", sample(), source.to_string(), trace.clone());
            let error = FunctionV1NodeHandler.handle(ctx).expect_err("the runtime is disabled");
            assert_eq!(error.kind, ErrorKind::FeatureDisabled);
            assert_eq!(error.node_id, Some("f1".to_string()));
            assert_eq!(error.message, "QuickJS feature is disabled");
            assert!(error.to_text().contains("QuickJS"));
        }
    }
}

#[test]
fn function_traces_write_down_as_null() {
    assert_eq!(FunctionV1Trace::default().to_value(), Value::Null);
    assert_eq!(FunctionV2Trace::default().to_value(), Value::Null);
    assert_eq!(EmptyTrace.to_value(), Value::Null);
}

#[test]
fn creating_the_scripting_runtime_fails_as_disabled() {
    let without = Function::create(FunctionConfig { listeners: None });
    assert_eq!(without.expect_err("the runtime is disabled"), FunctionError::Disabled);
    let listeners: Vec<Box<dyn RuntimeListener>> = vec![
        Box::new(ConsoleListener),
        Box::new(HttpListener { http_handler: 1u8 }),
        Box::new(ZenListener { loader: 1u8, custom_node: 2u8, http_handler: 3u8 }),
    ];
    let with = Function::create(FunctionConfig { listeners: Some(listeners) });
    assert_eq!(with.expect_err("the runtime is disabled"), FunctionError::Disabled);
    assert_eq!(FunctionError::Disabled.message(), "QuickJS is disabled");
}

#[test]
fn input_and_output_handlers_pass_their_input_on() {
    let untraced = InputNodeHandler.handle(context("in", sample(), (), None)).unwrap();
    assert_eq!(untraced, NodeResponse { output: sample(), trace_data: None });
    let traced = OutputNodeHandler.handle(context("out", sample(), (), Some(EmptyTrace))).unwrap();
    assert_eq!(traced, NodeResponse { output: sample(), trace_data: Some(Value::Null) });
}

#[test]
fn context_attributes_errors_to_its_node() {
    let ctx: NodeContext<(), EmptyTrace> = context("n1", Value::Null, (), None);
    let error = ctx.make_error(ErrorKind::NodeExecution, "boom");
    assert_eq!(error.kind, ErrorKind::NodeExecution);
    assert_eq!(error.node_id, Some("n1".to_string()));
    assert_eq!(error.message, "boom");
}

#[test]
fn context_success_carries_a_payload_only_with_a_slot() {
    let with_slot = context("n", Value::Null, (), Some(EmptyTrace)).success(sample()).unwrap();
    assert_eq!(with_slot, NodeResponse { output: sample(), trace_data: Some(Value::Null) });
    let without: NodeContext<(), EmptyTrace> = context("n", Value::Null, (), None);
    assert_eq!(without.success(sample()).unwrap(), NodeResponse { output: sample(), trace_data: None });
    let passed: NodeContext<(), EmptyTrace> = context("n", sample(), (), None);
    assert_eq!(passed.pass().unwrap(), NodeResponse { output: sample(), trace_data: None });
}
