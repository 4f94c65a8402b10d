use zen_engine::error::{EngineError, ErrorKind};

#[test]
fn every_kind_has_its_label() {
    assert_eq!(ErrorKind::ContentDeserialization.label(), "content deserialization error");
    assert_eq!(ErrorKind::ContextDeserialization.label(), "context deserialization error");
    assert_eq!(ErrorKind::FeatureDisabled.label(), "feature disabled");
    assert_eq!(ErrorKind::RecursionLimitExceeded.label(), "recursion limit exceeded");
    assert_eq!(ErrorKind::NodeExecution.label(), "node execution error");
}

#[test]
fn global_error_has_no_node() {
    let error = EngineError::global(ErrorKind::ContextDeserialization, "bad shape");
    assert_eq!(error.kind, ErrorKind::ContextDeserialization);
    assert_eq!(error.node_id, None);
    assert_eq!(error.message, "bad shape");
    assert_eq!(error.to_text(), "context deserialization error: bad shape");
}

#[test]
fn node_error_names_its_node_in_the_text() {
    let id = "n7".to_string();
    let error = EngineError::at_node(ErrorKind::NodeExecution, &id, "division by zero");
    assert_eq!(error.kind, ErrorKind::NodeExecution);
    assert_eq!(error.node_id, Some("n7".to_string()));
    assert_eq!(error.message, "division by zero");
    assert_eq!(error.to_text(), "node execution error at node n7: division by zero");
}

#[test]
fn text_of_an_error_with_empty_parts() {
    let id = String::new();
    let error = EngineError::at_node(ErrorKind::FeatureDisabled, &id, "");
    assert_eq!(error.to_text(), "feature disabled at node : ");
}
