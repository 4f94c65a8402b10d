use zen_engine::decision::Decision;
use zen_engine::engine::ZenEngine;
use zen_engine::error::ErrorKind;
use zen_engine::model::{DecisionContent, Edge, Node, NodeKind};
use zen_engine::schedule::Link;

fn node(id: &str, kind: NodeKind) -> Node {
    Node { id: id.to_string(), name: format!("node {}", id), kind }
}

fn edge(source: &str, target: &str) -> Edge {
    Edge { source_id: source.to_string(), target_id: target.to_string() }
}

fn refused(content: DecisionContent) -> String {
    match Decision::new(content) {
        Ok(decision) => panic!("expected a refusal, got {:?}", decision),
        Err(error) => {
            assert_eq!(error.kind, ErrorKind::ContentDeserialization);
            assert_eq!(error.node_id, None);
            error.message
        }
    }
}

#[test]
fn empty_graph_is_a_decision() {
    let decision = Decision::new(DecisionContent { nodes: vec![], edges: vec![] }).unwrap();
    assert!(decision.nodes().is_empty());
    assert!(decision.links().is_empty());
    assert!(decision.schedule().is_empty());
}

#[test]
fn edges_become_links_between_positions() {
    let decision = Decision::new(DecisionContent {
        nodes: vec![node("a", NodeKind::Input), node("b", NodeKind::Output), node("c", NodeKind::Output)],
        edges: vec![edge("a", "c"), edge("a", "b")],
    })
    .unwrap();
    assert_eq!(
        decision.links(),
        &vec![Link { source: 0, target: 2 }, Link { source: 0, target: 1 }]
    );
    assert_eq!(decision.nodes().len(), 3);
    assert_eq!(decision.nodes()[1].id, "b");
}

#[test]
fn schedule_runs_data_first_and_declaration_first_among_the_ready() {
    let decision = Decision::new(DecisionContent {
        nodes: vec![
            node("late", NodeKind::Output),
            node("source", NodeKind::Input),
            node("free", NodeKind::Input),
            node("middle", NodeKind::Output),
        ],
        edges: vec![edge("middle", "late"), edge("source", "middle")],
    })
    .unwrap();
    assert_eq!(decision.schedule(), &vec![1, 2, 3, 0]);
}

#[test]
fn schedule_of_independent_nodes_is_their_declared_order() {
    let decision = Decision::new(DecisionContent {
        nodes: vec![node("x", NodeKind::Input), node("y", NodeKind::Input), node("z", NodeKind::Output)],
        edges: vec![],
    })
    .unwrap();
    assert_eq!(decision.schedule(), &vec![0, 1, 2]);
}

#[test]
fn duplicate_identities_are_refused() {
    let message = refused(DecisionContent {
        nodes: vec![node("a", NodeKind::Input), node("b", NodeKind::Output), node("a", NodeKind::Output)],
        edges: vec![],
    });
    assert_eq!(message, "node identities are not unique");
}

#[test]
fn edge_to_a_missing_node_is_refused() {
    let message = refused(DecisionContent {
        nodes: vec![node("a", NodeKind::Input)],
        edges: vec![edge("a", "ghost")],
    });
    assert_eq!(message, "an edge names a node that is not in the graph");
    let message = refused(DecisionContent {
        nodes: vec![node("a", NodeKind::Input)],
        edges: vec![edge("ghost", "a")],
    });
    assert_eq!(message, "an edge names a node that is not in the graph");
}

#[test]
fn cycles_are_refused() {
    let message = refused(DecisionContent {
        nodes: vec![node("a", NodeKind::Output)],
        edges: vec![edge("a", "a")],
    });
    assert_eq!(message, "the graph has a cycle");
    let message = refused(DecisionContent {
        nodes: vec![node("in", NodeKind::Input), node("a", NodeKind::Output), node("b", NodeKind::Output)],
        edges: vec![edge("in", "a"), edge("a", "b"), edge("b", "a")],
    });
    assert_eq!(message, "the graph has a cycle");
}

#[test]
fn the_first_failing_check_names_the_fault() {
    let message = refused(DecisionContent {
        nodes: vec![node("a", NodeKind::Input), node("a", NodeKind::Output)],
        edges: vec![edge("a", "ghost"), edge("a", "a")],
    });
    assert_eq!(message, "node identities are not unique");
    let message = refused(DecisionContent {
        nodes: vec![node("a", NodeKind::Input)],
        edges: vec![edge("a", "a"), edge("a", "ghost")],
    });
    assert_eq!(message, "an edge names a node that is not in the graph");
}

#[test]
fn parallel_edges_are_no_cycle() {
    let decision = Decision::new(DecisionContent {
        nodes: vec![node("a", NodeKind::Input), node("b", NodeKind::Output)],
        edges: vec![edge("a", "b"), edge("a", "b")],
    })
    .unwrap();
    assert_eq!(decision.schedule(), &vec![0, 1]);
}

#[test]
fn engine_refuses_what_the_decision_refuses() {
    let made = ZenEngine::new(DecisionContent {
        nodes: vec![node("a", NodeKind::Output)],
        edges: vec![edge("a", "a")],
    });
    match made {
        Ok(engine) => panic!("expected a refusal, got {:?}", engine),
        Err(error) => {
            assert_eq!(error.kind, ErrorKind::ContentDeserialization);
            assert_eq!(error.to_text(), "content deserialization error: the graph has a cycle");
        }
    }
    assert!(ZenEngine::new(DecisionContent { nodes: vec![], edges: vec![] }).is_ok());
}
