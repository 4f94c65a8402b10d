use crate::error::{ErrorKind, ErrorView};
use crate::model::FunctionContent;
use crate::nodes::definition::{NodeContext, NodeHandler, NodeResult, ToValue};
use crate::registry::RuntimeListener;
use crate::value::{Json, Value};
use vstd::prelude::*;
use vstd::string::StringExecFns;

verus! {

/// What a scripting node answers while the scripting runtime is not part of the engine.
pub open spec fn disabled_message() -> Seq<char> {
    "QuickJS feature is disabled"@
}

/// The failure of a scripting node: the runtime is disabled, says the node `node_id`.
pub open spec fn disabled_error(node_id: Seq<char>) -> ErrorView {
    ErrorView {
        kind: ErrorKind::FeatureDisabled,
        node_id: Some(node_id),
        message: disabled_message(),
    }
}

/// Handles scripting nodes in the current data format.
#[derive(Debug, Clone)]
pub struct FunctionV2NodeHandler;

/// The trace payload of a scripting node in the current data format.
#[derive(Debug, Clone)]
pub struct FunctionV2Trace;

/// Handles scripting nodes whose data is the bare source text.
#[derive(Debug, Clone)]
pub struct FunctionV1NodeHandler;

/// The trace payload of a scripting node whose data is the bare source text.
#[derive(Debug, Clone)]
pub struct FunctionV1Trace;

impl Default for FunctionV2Trace {
    fn default() -> (trace: Self)
        ensures
            trace == FunctionV2Trace,
    {
        FunctionV2Trace
    }
}

impl Default for FunctionV1Trace {
    fn default() -> (trace: Self)
        ensures
            trace == FunctionV1Trace,
    {
        FunctionV1Trace
    }
}

impl ToValue for FunctionV2Trace {
    open spec fn value_of(&self) -> Json {
        Json::Null
    }

    fn to_value(&self) -> (value: Value) {
        Value::Null
    }
}

impl ToValue for FunctionV1Trace {
    open spec fn value_of(&self) -> Json {
        Json::Null
    }

    fn to_value(&self) -> (value: Value) {
        Value::Null
    }
}

impl NodeHandler for FunctionV2NodeHandler {
    type NodeData = FunctionContent;

    type TraceData = FunctionV2Trace;

    /// Fails on every input: the scripting runtime is disabled.
    fn handle(&self, ctx: NodeContext<FunctionContent, FunctionV2Trace>) -> (result: NodeResult)
        ensures
            result is Err,
            result->Err_0@ == disabled_error(ctx.id@),
    {
        Err(ctx.make_error(ErrorKind::FeatureDisabled, "QuickJS feature is disabled"))
    }
}

impl NodeHandler for FunctionV1NodeHandler {
    type NodeData = String;

    type TraceData = FunctionV1Trace;

    /// Fails on every input: the scripting runtime is disabled.
    fn handle(&self, ctx: NodeContext<String, FunctionV1Trace>) -> (result: NodeResult)
        ensures
            result is Err,
            result->Err_0@ == disabled_error(ctx.id@),
    {
        Err(ctx.make_error(ErrorKind::FeatureDisabled, "QuickJS feature is disabled"))
    }
}

/// Why no scripting runtime could be made.
#[derive(Clone, Copy, Debug, PartialEq, Eq, Structural)]
pub enum FunctionError {
    Disabled,
}

impl FunctionError {
    /// The text of the error.
    pub fn message(&self) -> (text: String)
        ensures
            text@ == "QuickJS is disabled"@,
    {
        match self {
            FunctionError::Disabled => String::from_str("QuickJS is disabled"),
        }
    }
}

/// What making or calling the scripting runtime gives.
pub type FunctionResult<T = ()> = Result<T, FunctionError>;

/// What a scripting runtime is made from: the listeners that it may call.
pub struct FunctionConfig {
    pub listeners: Option<Vec<Box<dyn RuntimeListener>>>,
}

/// The scripting runtime.
#[derive(Debug)]
pub struct Function;

impl Function {
    /// Makes a scripting runtime. While the runtime is not part of the engine, none can
    /// be made, whatever the configuration.
    pub fn create(_config: FunctionConfig) -> (created: FunctionResult<Function>)
        ensures
            created is Err,
            created->Err_0 == FunctionError::Disabled,
    {
        Err(FunctionError::Disabled)
    }
}

} // verus!
