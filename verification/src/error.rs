use vstd::prelude::*;
use vstd::string::StringExecFns;

verus! {

/// The ways in which constructing or evaluating a decision can fail.
#[derive(Clone, Copy, Debug, PartialEq, Eq, Structural)]
pub enum ErrorKind {
    /// The decision graph handed to the constructor is malformed.
    ContentDeserialization,
    /// The input context of an evaluation does not have the expected shape.
    ContextDeserialization,
    /// A node kind was dispatched whose backing capability is absent.
    FeatureDisabled,
    /// A nested sub-decision would run deeper than the evaluation allows.
    RecursionLimitExceeded,
    /// Any other failure inside a node handler.
    NodeExecution,
}

/// A failure, attributed to the node it came from where there is one.
#[derive(Debug, Clone, PartialEq, Eq)]
pub struct EngineError {
    pub kind: ErrorKind,
    pub node_id: Option<String>,
    pub message: String,
}

/// Mathematical model of an [`EngineError`].
pub struct ErrorView {
    pub kind: ErrorKind,
    pub node_id: Option<Seq<char>>,
    pub message: Seq<char>,
}

impl View for EngineError {
    type V = ErrorView;

    open spec fn view(&self) -> ErrorView {
        ErrorView {
            kind: self.kind,
            node_id: match self.node_id {
                Some(id) => Some(id@),
                None => None,
            },
            message: self.message@,
        }
    }
}

/// The words that open the text of an error of the given kind.
pub open spec fn kind_label(kind: ErrorKind) -> Seq<char> {
    match kind {
        ErrorKind::ContentDeserialization => "content deserialization error"@,
        ErrorKind::ContextDeserialization => "context deserialization error"@,
        ErrorKind::FeatureDisabled => "feature disabled"@,
        ErrorKind::RecursionLimitExceeded => "recursion limit exceeded"@,
        ErrorKind::NodeExecution => "node execution error"@,
    }
}

impl ErrorView {
    /// The flat text of the error: its kind, the node it is attributed to, its cause.
    pub open spec fn text(self) -> Seq<char> {
        let head = match self.node_id {
            Some(id) => kind_label(self.kind) + " at node "@ + id,
            None => kind_label(self.kind),
        };
        head + ": "@ + self.message
    }
}

impl ErrorKind {
    /// The words that open the text of an error of this kind.
    pub fn label(&self) -> (text: String)
        ensures
            text@ == kind_label(*self),
    {
        match self {
            ErrorKind::ContentDeserialization => String::from_str("content deserialization error"),
            ErrorKind::ContextDeserialization => String::from_str("context deserialization error"),
            ErrorKind::FeatureDisabled => String::from_str("feature disabled"),
            ErrorKind::RecursionLimitExceeded => String::from_str("recursion limit exceeded"),
            ErrorKind::NodeExecution => String::from_str("node execution error"),
        }
    }
}

impl EngineError {
    /// An error that no node is answerable for.
    pub fn global(kind: ErrorKind, message: &str) -> (error: EngineError)
        ensures
            error@ == (ErrorView { kind, node_id: None, message: message@ }),
    {
        EngineError { kind, node_id: None, message: String::from_str(message) }
    }

    /// An error attributed to the node with the given identity.
    pub fn at_node(kind: ErrorKind, node_id: &String, message: &str) -> (error: EngineError)
        ensures
            error@ == (ErrorView { kind, node_id: Some(node_id@), message: message@ }),
    {
        EngineError { kind, node_id: Some(node_id.clone()), message: String::from_str(message) }
    }

    /// The flat text under which the error leaves the engine.
    pub fn to_text(&self) -> (text: String)
        ensures
            text@ == self@.text(),
    {
        let mut text = self.kind.label();
        match &self.node_id {
            Some(id) => {
                text.append(" at node ");
                text.append(id.as_str());
            },
            None => {},
        }
        text.append(": ");
        text.append(self.message.as_str());
        text
    }
}

} // verus!
