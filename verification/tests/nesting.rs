use zen_engine::decision::Decision;
use zen_engine::engine::ZenEngine;
use zen_engine::error::{EngineError, ErrorKind};
use zen_engine::evaluation::{Completion, EvaluationResponse, Progress, Request, TraceRecord};
use zen_engine::machine::{EvaluationOptions, EvaluationTraceKind};
use zen_engine::model::{DecisionContent, Edge, Node, NodeKind};
use zen_engine::nodes::definition::NodeResponse;
use zen_engine::registry::{CapabilityRegistry, Listener, ZenListener};
use zen_engine::value::{Member, Value};

type Registry = CapabilityRegistry<(), (), ()>;

struct Host {
    decisions: Vec<(String, Decision)>,
    loads: Vec<(String, u32)>,
}

fn node(id: &str, kind: NodeKind) -> Node {
    Node { id: id.to_string(), name: format!("node {}", id), kind }
}

fn edge(source: &str, target: &str) -> Edge {
    Edge { source_id: source.to_string(), target_id: target.to_string() }
}

fn object(members: Vec<(&str, Value)>) -> Value {
    Value::Object(
        members
            .into_iter()
            .map(|(key, value)| Member { key: key.to_string(), value })
            .collect(),
    )
}

fn leaf() -> DecisionContent {
    DecisionContent {
        nodes: vec![node("in", NodeKind::Input), node("out", NodeKind::Output)],
        edges: vec![edge("in", "out")],
    }
}

fn calling(key: &str) -> DecisionContent {
    DecisionContent {
        nodes: vec![
            node("in", NodeKind::Input),
            node("call", NodeKind::SubDecision { key: key.to_string() }),
            node("out", NodeKind::Output),
        ],
        edges: vec![edge("in", "call"), edge("call", "out")],
    }
}

fn chain(depth: u32) -> Host {
    let mut decisions = vec![("level0".to_string(), Decision::new(leaf()).unwrap())];
    for level in 1..=depth {
        let below = format!("level{}", level - 1);
        decisions.push((format!("level{}", level), Decision::new(calling(&below)).unwrap()));
    }
    Host { decisions, loads: vec![] }
}

fn registry() -> Registry {
    let mut registry = Registry::new();
    registry.register(Listener::Zen(ZenListener { loader: (), custom_node: (), http_handler: () }));
    registry
}

fn find<'a>(decisions: &'a [(String, Decision)], key: &str) -> Option<&'a Decision> {
    decisions.iter().find(|(name, _)| name == key).map(|(_, decision)| decision)
}

fn drive(
    decisions: &[(String, Decision)],
    loads: &mut Vec<(String, u32)>,
    mut progress: Progress,
) -> Result<EvaluationResponse, EngineError> {
    loop {
        let (evaluation, request) = match progress {
            Progress::Finished(result) => return result,
            Progress::Suspended(evaluation, request) => (evaluation, request),
        };
        let completion = match request {
            Request::SubDecision { key, call, .. } => {
                loads.push((key.clone(), call.depth()));
                match find(decisions, &key) {
                    None => Completion::Failed(format!("no decision named {}", key)),
                    Some(child) => match drive(decisions, loads, call.begin(child)) {
                        Ok(response) => Completion::Done(NodeResponse {
                            output: response.output,
                            trace_data: response.trace.map(|records| {
                                Value::Array(records.into_iter().map(|r| Value::Text(r.node_id)).collect())
                            }),
                        }),
                        Err(error) => Completion::NestedFailed(error),
                    },
                }
            }
            other => panic!("unexpected request {:?}", other),
        };
        progress = evaluation.resume(completion);
    }
}

fn run(host: &mut Host, top: u32, max_depth: u32, trace: EvaluationTraceKind) -> Result<EvaluationResponse, EngineError> {
    let decision = find(&host.decisions, &format!("level{}", top)).unwrap();
    let context = object(vec![("n", Value::Number("1".to_string()))]);
    let progress =
        decision.evaluate(&registry(), context, EvaluationOptions { trace, max_depth });
    drive(&host.decisions, &mut host.loads, progress)
}

#[test]
fn chain_within_the_depth_limit_succeeds() {
    for depth in 0..=3 {
        let mut host = chain(depth);
        let response = run(&mut host, depth, 3, EvaluationTraceKind::Off).expect("within the limit");
        assert_eq!(response.output, object(vec![("n", Value::Number("1".to_string()))]));
        let expected: Vec<(String, u32)> =
            (0..depth).map(|i| (format!("level{}", depth - 1 - i), i + 1)).collect();
        assert_eq!(host.loads, expected);
    }
}

#[test]
fn chain_one_deeper_than_the_limit_fails_and_loads_nothing_beyond_it() {
    let mut host = chain(4);
    let error = run(&mut host, 4, 3, EvaluationTraceKind::Off).expect_err("beyond the limit");
    assert_eq!(error.kind, ErrorKind::RecursionLimitExceeded);
    assert_eq!(error.node_id, Some("call".to_string()));
    assert_eq!(
        host.loads,
        vec![("level3".to_string(), 1), ("level2".to_string(), 2), ("level1".to_string(), 3)]
    );
    assert_eq!(
        error.to_text(),
        "recursion limit exceeded at node call: recursion limit exceeded at node call: \
         recursion limit exceeded at node call: recursion limit exceeded at node call: \
         sub-decision nesting exceeds the depth limit"
    );
}

#[test]
fn depth_limit_zero_allows_no_sub_decision() {
    let mut host = chain(1);
    let error = run(&mut host, 1, 0, EvaluationTraceKind::Off).expect_err("beyond the limit");
    assert_eq!(error.kind, ErrorKind::RecursionLimitExceeded);
    assert_eq!(error.message, "sub-decision nesting exceeds the depth limit");
    assert!(host.loads.is_empty());
    let mut host = chain(0);
    assert!(run(&mut host, 0, 0, EvaluationTraceKind::Off).is_ok());
}

#[test]
fn decision_that_calls_itself_stops_at_the_limit() {
    let mut host =
        Host { decisions: vec![("level0".to_string(), Decision::new(calling("level0")).unwrap())], loads: vec![] };
    let error = run(&mut host, 0, 2, EvaluationTraceKind::Default).expect_err("beyond the limit");
    assert_eq!(error.kind, ErrorKind::RecursionLimitExceeded);
    assert_eq!(host.loads, vec![("level0".to_string(), 1), ("level0".to_string(), 2)]);
}

#[test]
fn nested_evaluation_shares_the_trace_option() {
    let mut host = chain(1);
    let response = run(&mut host, 1, 3, EvaluationTraceKind::Default).expect("within the limit");
    let nested = Value::Array(vec![Value::Text("in".to_string()), Value::Text("out".to_string())]);
    assert_eq!(
        response.trace,
        Some(vec![
            TraceRecord { node_id: "in".to_string(), payload: Value::Null },
            TraceRecord { node_id: "call".to_string(), payload: nested },
            TraceRecord { node_id: "out".to_string(), payload: Value::Null },
        ])
    );
    let mut host = chain(1);
    let response = run(&mut host, 1, 3, EvaluationTraceKind::Off).expect("within the limit");
    assert_eq!(response.trace, None);
}

#[test]
fn nested_context_that_is_no_object_is_refused_in_the_nested_call() {
    let top = Decision::new(DecisionContent {
        nodes: vec![node("call", NodeKind::SubDecision { key: "level0".to_string() })],
        edges: vec![],
    })
    .unwrap();
    let host = chain(0);
    let mut loads = vec![];
    let progress = top.evaluate(
        &registry(),
        object(vec![]),
        EvaluationOptions { trace: EvaluationTraceKind::Off, max_depth: 1 },
    );
    let error = drive(&host.decisions, &mut loads, progress).expect_err("the nested context is null");
    assert_eq!(error.kind, ErrorKind::ContextDeserialization);
    assert_eq!(error.node_id, Some("call".to_string()));
    assert_eq!(
        error.message,
        "context deserialization error: the context must be an object"
    );
    assert_eq!(loads, vec![("level0".to_string(), 1)]);
}

#[test]
fn adapter_allows_five_levels_and_no_sixth() {
    let host = chain(6);
    let content = |level: u32| if level == 0 { leaf() } else { calling(&format!("level{}", level - 1)) };
    let five = ZenEngine::new(content(5)).unwrap();
    let mut loads = vec![];
    let progress = five.evaluate_with(&registry(), object(vec![("n", Value::Bool(true))]));
    let response = drive(&host.decisions, &mut loads, progress).expect("five levels are allowed");
    assert_eq!(response.output, object(vec![("n", Value::Bool(true))]));
    assert_eq!(loads.len(), 5);
    let six = ZenEngine::new(content(6)).unwrap();
    let mut loads = vec![];
    let progress = six.evaluate_with(&registry(), object(vec![("n", Value::Bool(true))]));
    let error = drive(&host.decisions, &mut loads, progress).expect_err("six levels are too many");
    assert_eq!(error.kind, ErrorKind::RecursionLimitExceeded);
    assert_eq!(loads.len(), 5);
}

#[test]
fn adapter_without_capabilities_cannot_load() {
    let engine = ZenEngine::new(calling("level0")).unwrap();
    match engine.evaluate(object(vec![])) {
        Progress::Finished(Err(error)) => {
            assert_eq!(error.kind, ErrorKind::FeatureDisabled);
            assert_eq!(error.message, "sub-decision loading is disabled");
        }
        other => panic!("expected a failure, got {:?}", other),
    }
}

#[test]
fn interleaved_calls_on_one_decision_keep_to_themselves() {
    let decision = Decision::new(DecisionContent {
        nodes: vec![
            node("in", NodeKind::Input),
            node("work", NodeKind::Custom { kind: "echo".to_string(), config: Value::Null }),
            node("more", NodeKind::Custom { kind: "echo".to_string(), config: Value::Null }),
            node("out", NodeKind::Output),
        ],
        edges: vec![edge("in", "work"), edge("work", "more"), edge("more", "out")],
    })
    .unwrap();
    let registry = registry();
    let options = EvaluationOptions { trace: EvaluationTraceKind::Default, max_depth: 1 };
    let count: usize = 6;
    let contexts: Vec<Value> = (0..count)
        .map(|i| object(vec![("call", Value::Number(i.to_string()))]))
        .collect();
    let mut in_flight: Vec<Option<Progress>> = contexts
        .iter()
        .map(|context| Some(decision.evaluate(&registry, context.clone(), options)))
        .collect();
    let mut results: Vec<Option<EvaluationResponse>> = (0..count).map(|_| None).collect();
    let mut round = 0;
    while results.iter().any(|result| result.is_none()) {
        for step in 0..count {
            let which = (step * 5 + round) % count;
            match in_flight[which].take() {
                None => {}
                Some(Progress::Finished(result)) => {
                    results[which] = Some(result.expect("no call fails"));
                }
                Some(Progress::Suspended(evaluation, Request::Custom { input, .. })) => {
                    let answer = NodeResponse { output: input, trace_data: None };
                    in_flight[which] = Some(evaluation.resume(Completion::Done(answer)));
                }
                Some(other) => panic!("unexpected progress {:?}", other),
            }
        }
        round += 1;
    }
    for (which, result) in results.into_iter().enumerate() {
        let response = result.unwrap();
        assert_eq!(response.output, contexts[which]);
        assert_eq!(response.trace.map(|records| records.len()), Some(4));
    }
}
