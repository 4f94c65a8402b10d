use crate::nodes::definition::{NodeContext, NodeHandler, NodeResult, ResponseView, ToValue};
use crate::value::{Json, Value};
use vstd::prelude::*;

verus! {

/// The trace payload of a node that has nothing to report.
#[derive(Debug, Clone)]
pub struct EmptyTrace;

impl ToValue for EmptyTrace {
    open spec fn value_of(&self) -> Json {
        Json::Null
    }

    fn to_value(&self) -> (value: Value) {
        Value::Null
    }
}

/// Handles the node through which the context enters the graph.
#[derive(Debug, Clone)]
pub struct InputNodeHandler;

/// Handles a node that collects what the evaluation returns.
#[derive(Debug, Clone)]
pub struct OutputNodeHandler;

impl NodeHandler for InputNodeHandler {
    type NodeData = ();

    type TraceData = EmptyTrace;

    /// Hands on the context, which the evaluation routes to the node.
    fn handle(&self, ctx: NodeContext<(), EmptyTrace>) -> (result: NodeResult)
        ensures
            result is Ok,
            result->Ok_0@ == (ResponseView { output: ctx.input@, trace_data: ctx.trace_view() }),
    {
        ctx.pass()
    }
}

impl NodeHandler for OutputNodeHandler {
    type NodeData = ();

    type TraceData = EmptyTrace;

    /// Hands on what the nodes that feed the node have produced.
    fn handle(&self, ctx: NodeContext<(), EmptyTrace>) -> (result: NodeResult)
        ensures
            result is Ok,
            result->Ok_0@ == (ResponseView { output: ctx.input@, trace_data: ctx.trace_view() }),
    {
        ctx.pass()
    }
}

} // verus!
