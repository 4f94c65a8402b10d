use crate::error::{EngineError, ErrorKind, ErrorView};
use crate::registry::Capabilities;
use crate::value::{Json, Value};
use vstd::prelude::*;

verus! {

/// A trace payload that can be written down as a structured value.
pub trait ToValue {
    /// The value that the payload is written down as.
    spec fn value_of(&self) -> Json;

    /// Writes the payload down.
    fn to_value(&self) -> (value: Value)
        ensures
            value@ == self.value_of(),
    ;
}

/// What one node sees of an evaluation: its own identity and data, the value routed to
/// it, how deep the evaluation is nested, what the registry offers, and a slot for its
/// trace payload, which is there only while the evaluation is traced.
pub struct NodeContext<NodeData, TraceData> {
    pub id: String,
    pub name: String,
    pub input: Value,
    pub node: NodeData,
    pub depth: u32,
    pub capabilities: Capabilities,
    pub trace: Option<TraceData>,
}

/// What a node hands back when it succeeds.
#[derive(Debug, Clone, PartialEq, Eq)]
pub struct NodeResponse {
    pub output: Value,
    pub trace_data: Option<Value>,
}

/// Mathematical model of a [`NodeResponse`].
pub struct ResponseView {
    pub output: Json,
    pub trace_data: Option<Json>,
}

impl View for NodeResponse {
    type V = ResponseView;

    open spec fn view(&self) -> ResponseView {
        ResponseView {
            output: self.output@,
            trace_data: match self.trace_data {
                Some(data) => Some(data@),
                None => None,
            },
        }
    }
}

/// The outcome of one node.
pub type NodeResult = Result<NodeResponse, EngineError>;

impl<NodeData, TraceData: ToValue> NodeContext<NodeData, TraceData> {
    /// The payload that the node's trace slot stands for.
    pub open spec fn trace_view(self) -> Option<Json> {
        match self.trace {
            Some(data) => Some(data.value_of()),
            None => None,
        }
    }

    /// An error of the given kind, attributed to this node.
    pub fn make_error(&self, kind: ErrorKind, message: &str) -> (error: EngineError)
        ensures
            error@ == (ErrorView { kind, node_id: Some(self.id@), message: message@ }),
    {
        EngineError::at_node(kind, &self.id, message)
    }

    /// The node's success with `output`, and with its trace payload where it has a slot.
    pub fn success(self, output: Value) -> (result: NodeResult)
        ensures
            result is Ok,
            result->Ok_0@ == (ResponseView { output: output@, trace_data: self.trace_view() }),
    {
        let trace_data = match &self.trace {
            Some(data) => Some(data.to_value()),
            None => None,
        };
        Ok(NodeResponse { output, trace_data })
    }

    /// The node's success with the value that was routed to it.
    pub fn pass(self) -> (result: NodeResult)
        ensures
            result is Ok,
            result->Ok_0@ == (ResponseView { output: self.input@, trace_data: self.trace_view() }),
    {
        let trace_data = match &self.trace {
            Some(data) => Some(data.to_value()),
            None => None,
        };
        Ok(NodeResponse { output: self.input, trace_data })
    }
}

/// The contract of every node kind: from the node's data and its view of the
/// evaluation to an output, or to a failure that names the node. A handler hands back a
/// trace payload exactly when it was given a slot for one.
pub trait NodeHandler {
    type NodeData;

    type TraceData: ToValue;

    fn handle(&self, ctx: NodeContext<Self::NodeData, Self::TraceData>) -> (result: NodeResult)
        ensures
            match result {
                Ok(response) => response.trace_data is Some == ctx.trace is Some,
                Err(error) => error@.node_id == Some(ctx.id@),
            },
    ;
}

} // verus!
