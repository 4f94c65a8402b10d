use crate::decision::{Decision, Graph};
use crate::error::{EngineError, ErrorKind};
use crate::laws::{keeps_trace, lemma_begin_keeps_trace, lemma_resume_keeps_trace};
use crate::machine::{
    advance, begin, collect, dispatch, gather, lemma_initial_wf, lemma_record_wf, resume,
    CompletionView, Dispatch, EvaluationOptions, EvaluationTraceKind, Frame, Outcome, RecordView,
    ReportView, RequestView, State,
};
use crate::model::{nodes_view, Node, NodeKind};
use crate::nodes::definition::{NodeContext, NodeHandler, NodeResponse};
use crate::nodes::function::{
    FunctionV1NodeHandler, FunctionV1Trace, FunctionV2NodeHandler, FunctionV2Trace,
};
use crate::nodes::passthrough::{EmptyTrace, InputNodeHandler, OutputNodeHandler};
use crate::registry::CapabilityRegistry;
use crate::schedule::Link;
use crate::value::{Json, Value};
use vstd::prelude::*;

verus! {

/// One entry of a trace: the node that ran and what it reported.
#[derive(Debug, Clone, PartialEq, Eq)]
pub struct TraceRecord {
    pub node_id: String,
    pub payload: Value,
}

impl View for TraceRecord {
    type V = RecordView;

    open spec fn view(&self) -> RecordView {
        RecordView { node_id: self.node_id@, payload: self.payload@ }
    }
}

/// The records of a trace as the model sees them.
pub open spec fn records_view(records: Seq<TraceRecord>) -> Seq<RecordView> {
    Seq::new(records.len(), |i: int| records[i]@)
}

/// A trace, where there is one, as the model sees it.
pub open spec fn trace_view(trace: Option<Vec<TraceRecord>>) -> Option<Seq<RecordView>> {
    match trace {
        Some(records) => Some(records_view(records@)),
        None => None,
    }
}

/// What the nodes have produced as the model sees it.
pub open spec fn outputs_view(outputs: Seq<Option<Value>>) -> Seq<Option<Json>> {
    Seq::new(
        outputs.len(),
        |i: int|
            match outputs[i] {
                Some(value) => Some(value@),
                None => None,
            },
    )
}

/// The changing part of an evaluation as the model sees it.
pub open spec fn state_view(
    cursor: usize,
    outputs: Vec<Option<Value>>,
    trace: Option<Vec<TraceRecord>>,
) -> State {
    State { cursor: cursor as nat, outputs: outputs_view(outputs@), trace: trace_view(trace) }
}

/// What a finished evaluation returns: the output, and the trace where one was asked
/// for.
#[derive(Debug, Clone, PartialEq, Eq)]
pub struct EvaluationResponse {
    pub output: Value,
    pub trace: Option<Vec<TraceRecord>>,
}

impl View for EvaluationResponse {
    type V = ReportView;

    open spec fn view(&self) -> ReportView {
        ReportView { output: self.output@, trace: trace_view(self.trace) }
    }
}

/// The right to evaluate one sub-decision: the value routed to the node, and the frame
/// of the nested evaluation. Only an evaluation that is not yet at its depth limit
/// hands one out.
#[derive(Debug)]
pub struct NestedCall {
    frame: Frame,
    input: Value,
}

/// Mathematical model of a [`NestedCall`].
pub struct CallView {
    pub frame: Frame,
    pub input: Json,
}

impl View for NestedCall {
    type V = CallView;

    closed spec fn view(&self) -> CallView {
        CallView { frame: self.frame, input: self.input@ }
    }
}

/// The work that an evaluation asks its host to do for one node.
#[derive(Debug)]
pub enum Request {
    /// Load the decision named `key`, then evaluate it with `call`.
    SubDecision { node_id: String, key: String, call: NestedCall },
    /// Run a node of a kind that the engine does not know.
    Custom { node_id: String, kind: String, config: Value, input: Value, traced: bool },
    /// Make an outbound request.
    Http { node_id: String, config: Value, input: Value, traced: bool },
}

impl View for Request {
    type V = RequestView;

    open spec fn view(&self) -> RequestView {
        match self {
            Request::SubDecision { node_id, key, call } => RequestView::SubDecision {
                node_id: node_id@,
                key: key@,
                input: call@.input,
                frame: call@.frame,
            },
            Request::Custom { node_id, kind, config, input, traced } => RequestView::Custom {
                node_id: node_id@,
                kind: kind@,
                config: config@,
                input: input@,
                traced: *traced,
            },
            Request::Http { node_id, config, input, traced } => RequestView::Http {
                node_id: node_id@,
                config: config@,
                input: input@,
                traced: *traced,
            },
        }
    }
}

/// How the host's work for one node ended.
#[derive(Debug)]
pub enum Completion {
    /// The work succeeded: the node's output and, where it has one, its trace payload.
    Done(NodeResponse),
    /// The work failed, for the reason given.
    Failed(String),
    /// The evaluation of a sub-decision failed.
    NestedFailed(EngineError),
}

impl View for Completion {
    type V = CompletionView;

    open spec fn view(&self) -> CompletionView {
        match self {
            Completion::Done(response) => CompletionView::Done(response@),
            Completion::Failed(message) => CompletionView::Failed(message@),
            Completion::NestedFailed(cause) => CompletionView::NestedFailed(cause@),
        }
    }
}

/// An evaluation that waits for its host: the state of one call, which no other call
/// shares.
#[derive(Debug)]
pub struct Evaluation<'a> {
    decision: &'a Decision,
    frame: Frame,
    context: Value,
    cursor: usize,
    outputs: Vec<Option<Value>>,
    trace: Option<Vec<TraceRecord>>,
}

/// Mathematical model of an [`Evaluation`].
pub struct EvaluationView {
    pub graph: Graph,
    pub frame: Frame,
    pub context: Json,
    pub state: State,
}

impl<'a> View for Evaluation<'a> {
    type V = EvaluationView;

    closed spec fn view(&self) -> EvaluationView {
        EvaluationView {
            graph: self.decision@,
            frame: self.frame,
            context: self.context@,
            state: state_view(self.cursor, self.outputs, self.trace),
        }
    }
}

/// Where an evaluation stands after it has gone as far as it can on its own.
#[derive(Debug)]
pub enum Progress<'a> {
    /// It waits for the host to do the work of the request.
    Suspended(Evaluation<'a>, Request),
    /// It is over.
    Finished(Result<EvaluationResponse, EngineError>),
}

impl<'a> Progress<'a> {
    /// Where the evaluation stands, as the model sees it.
    pub open spec fn outcome(self) -> Outcome {
        match self {
            Progress::Suspended(evaluation, request) => Outcome::Suspended(
                evaluation@.state,
                request@,
            ),
            Progress::Finished(Ok(response)) => Outcome::Finished(Ok(response@)),
            Progress::Finished(Err(error)) => Outcome::Finished(Err(error@)),
        }
    }

    /// The evaluation, where it goes on, is that of `graph` on `context` in `frame`.
    pub open spec fn continues(self, graph: Graph, frame: Frame, context: Json) -> bool {
        self matches Progress::Suspended(evaluation, _) ==> {
            &&& evaluation@.graph == graph
            &&& evaluation@.frame == frame
            &&& evaluation@.context == context
        }
    }
}

/// What the engine decides when a node's turn comes.
enum Turn {
    Inline(NodeResponse),
    Fail(EngineError),
    Outside(Request),
}

impl View for Turn {
    type V = Dispatch;

    closed spec fn view(&self) -> Dispatch {
        match self {
            Turn::Inline(response) => Dispatch::Inline(response@),
            Turn::Fail(error) => Dispatch::Fail(error@),
            Turn::Outside(request) => Dispatch::Outside(request@),
        }
    }
}

/// The value routed to `node`.
fn gather_input(links: &Vec<Link>, outputs: &Vec<Option<Value>>, node: usize) -> (input: Value)
    ensures
        input@ == gather(links@, outputs_view(outputs@), node),
{
    let mut input = Value::Null;
    let mut l: usize = 0;
    while l < links.len()
        invariant
            l <= links.len(),
            input@ == gather(links@.take(l as int), outputs_view(outputs@), node),
        decreases links.len() - l,
    {
        let link = links[l];
        proof {
            assert(links@.take(l + 1).drop_last() =~= links@.take(l as int));
            assert(links@.take(l + 1).last() == link);
        }
        if link.target == node && link.source < outputs.len() {
            match &outputs[link.source] {
                Some(value) => {
                    input = input.merge(value);
                },
                None => {},
            }
        }
        l += 1;
    }
    assert(links@.take(links.len() as int) =~= links@);
    input
}

/// What the evaluation returns, once every node has run.
fn collect_output(nodes: &Vec<Node>, outputs: &Vec<Option<Value>>) -> (output: Value)
    ensures
        output@ == collect(nodes_view(nodes@), outputs_view(outputs@)),
{
    let ghost all = nodes_view(nodes@);
    let mut output = Value::Null;
    let mut i: usize = 0;
    while i < nodes.len()
        invariant
            i <= nodes.len(),
            all == nodes_view(nodes@),
            output@ == collect(all.take(i as int), outputs_view(outputs@)),
        decreases nodes.len() - i,
    {
        proof {
            assert(all.take(i + 1).drop_last() =~= all.take(i as int));
            assert(all.take(i + 1)[i as int] == nodes@[i as int]@);
        }
        let is_output = match &nodes[i].kind {
            NodeKind::Output => true,
            _ => false,
        };
        if is_output && i < outputs.len() {
            match &outputs[i] {
                Some(value) => {
                    output = output.merge(value);
                },
                None => {},
            }
        }
        i += 1;
    }
    assert(all.take(nodes.len() as int) =~= all);
    output
}

/// Decides what happens to `node`, to which `input` is routed.
fn dispatch_node(frame: Frame, context: &Value, node: &Node, input: Value) -> (turn: Turn)
    requires
        frame.depth <= frame.options.max_depth,
    ensures
        turn@ == dispatch(frame, context@, node@, input@),
        turn matches Turn::Outside(Request::SubDecision { call, .. }) ==> 1 <= call@.frame.depth
            <= call@.frame.options.max_depth,
{
    let traced = match frame.options.trace {
        EvaluationTraceKind::Default => true,
        EvaluationTraceKind::Off => false,
    };
    match &node.kind {
        NodeKind::Input => {
            let ctx = NodeContext {
                id: node.id.clone(),
                name: node.name.clone(),
                input: context.deep_copy(),
                node: (),
                depth: frame.depth,
                capabilities: frame.capabilities,
                trace: if traced {
                    Some(EmptyTrace)
                } else {
                    None
                },
            };
            match InputNodeHandler.handle(ctx) {
                Ok(response) => Turn::Inline(response),
                Err(error) => Turn::Fail(error),
            }
        },
        NodeKind::Output => {
            let ctx = NodeContext {
                id: node.id.clone(),
                name: node.name.clone(),
                input,
                node: (),
                depth: frame.depth,
                capabilities: frame.capabilities,
                trace: if traced {
                    Some(EmptyTrace)
                } else {
                    None
                },
            };
            match OutputNodeHandler.handle(ctx) {
                Ok(response) => Turn::Inline(response),
                Err(error) => Turn::Fail(error),
            }
        },
        NodeKind::FunctionV1 { source } => {
            let ctx = NodeContext {
                id: node.id.clone(),
                name: node.name.clone(),
                input,
                node: source.clone(),
                depth: frame.depth,
                capabilities: frame.capabilities,
                trace: if traced {
                    Some(FunctionV1Trace::default())
                } else {
                    None
                },
            };
            match FunctionV1NodeHandler.handle(ctx) {
                Ok(response) => Turn::Inline(response),
                Err(error) => Turn::Fail(error),
            }
        },
        NodeKind::FunctionV2 { content } => {
            let ctx = NodeContext {
                id: node.id.clone(),
                name: node.name.clone(),
                input,
                node: crate::model::FunctionContent { source: content.source.clone() },
                depth: frame.depth,
                capabilities: frame.capabilities,
                trace: if traced {
                    Some(FunctionV2Trace::default())
                } else {
                    None
                },
            };
            match FunctionV2NodeHandler.handle(ctx) {
                Ok(response) => Turn::Inline(response),
                Err(error) => Turn::Fail(error),
            }
        },
        NodeKind::SubDecision { key } => {
            if frame.depth >= frame.options.max_depth {
                Turn::Fail(
                    EngineError::at_node(
                        ErrorKind::RecursionLimitExceeded,
                        &node.id,
                        "sub-decision nesting exceeds the depth limit",
                    ),
                )
            } else if !frame.capabilities.loader {
                Turn::Fail(
                    EngineError::at_node(
                        ErrorKind::FeatureDisabled,
                        &node.id,
                        "sub-decision loading is disabled",
                    ),
                )
            } else {
                let nested = Frame {
                    capabilities: frame.capabilities,
                    options: frame.options,
                    depth: frame.depth + 1,
                };
                Turn::Outside(
                    Request::SubDecision {
                        node_id: node.id.clone(),
                        key: key.clone(),
                        call: NestedCall { frame: nested, input },
                    },
                )
            }
        },
        NodeKind::Custom { kind, config } => {
            if !frame.capabilities.custom_node {
                Turn::Fail(
                    EngineError::at_node(
                        ErrorKind::FeatureDisabled,
                        &node.id,
                        "custom node dispatch is disabled",
                    ),
                )
            } else {
                Turn::Outside(
                    Request::Custom {
                        node_id: node.id.clone(),
                        kind: kind.clone(),
                        config: config.deep_copy(),
                        input,
                        traced,
                    },
                )
            }
        },
        NodeKind::HttpRequest { config } => {
            if !frame.capabilities.network {
                Turn::Fail(
                    EngineError::at_node(
                        ErrorKind::FeatureDisabled,
                        &node.id,
                        "outbound network access is disabled",
                    ),
                )
            } else {
                Turn::Outside(
                    Request::Http {
                        node_id: node.id.clone(),
                        config: config.deep_copy(),
                        input,
                        traced,
                    },
                )
            }
        },
    }
}

/// Stores what the node at position `at` has answered, and hands back the trace with
/// the node's record behind the others, where there is a trace.
fn record_response(
    at: usize,
    node_id: &String,
    response: NodeResponse,
    outputs: &mut Vec<Option<Value>>,
    trace: Option<Vec<TraceRecord>>,
    Ghost(state): Ghost<State>,
) -> (extended: Option<Vec<TraceRecord>>)
    requires
        at < old(outputs).len(),
        state.outputs == outputs_view(old(outputs)@),
        state.trace == trace_view(trace),
    ensures
        outputs_view(final(outputs)@) == state.record(at, node_id@, response@).outputs,
        trace_view(extended) == state.record(at, node_id@, response@).trace,
{
    let NodeResponse { output, trace_data } = response;
    outputs.set(at, Some(output));
    assert(outputs_view(outputs@) =~= state.outputs.update(at as int, Some(output@)));
    match trace {
        Some(mut records) => {
            let ghost listed = records_view(records@);
            let payload = match trace_data {
                Some(payload) => payload,
                None => Value::Null,
            };
            let entry = TraceRecord { node_id: node_id.clone(), payload };
            records.push(entry);
            assert(records_view(records@) =~= listed.push(entry@));
            Some(records)
        },
        None => None,
    }
}

/// Runs the nodes from the cursor on, until one fails, one needs the host, or none is
/// left.
fn run<'a>(
    decision: &'a Decision,
    frame: Frame,
    context: Value,
    from: usize,
    produced: Vec<Option<Value>>,
    logged: Option<Vec<TraceRecord>>,
) -> (progress: Progress<'a>)
    requires
        frame.depth <= frame.options.max_depth,
        state_view(from, produced, logged).wf(decision@, frame),
    ensures
        progress.outcome() == advance(
            decision@,
            frame,
            context@,
            state_view(from, produced, logged),
        ),
        progress.continues(decision@, frame, context@),
{
    let nodes = decision.nodes();
    let links = decision.links();
    let schedule = decision.schedule();
    let ghost graph = decision@;
    let ghost start = state_view(from, produced, logged);
    let mut cursor = from;
    let mut outputs = produced;
    let mut trace = logged;
    while cursor < schedule.len()
        invariant
            graph == decision@,
            graph.wf(),
            nodes_view(nodes@) == graph.nodes,
            links@ == graph.links,
            schedule@ == graph.schedule,
            frame.depth <= frame.options.max_depth,
            start == state_view(from, produced, logged),
            state_view(cursor, outputs, trace).wf(graph, frame),
            advance(graph, frame, context@, state_view(cursor, outputs, trace)) == advance(
                graph,
                frame,
                context@,
                start,
            ),
        decreases schedule.len() - cursor,
    {
        let ghost state = state_view(cursor, outputs, trace);
        let at: usize = schedule[cursor];
        proof {
            assert(crate::schedule::step_allowed(
                graph.nodes.len(),
                graph.links,
                graph.schedule,
                cursor as int,
            ));
        }
        let node = &nodes[at];
        assert(node@ == graph.nodes[at as int]);
        let input = gather_input(links, &outputs, at);
        match dispatch_node(frame, &context, node, input) {
            Turn::Inline(response) => {
                proof {
                    lemma_record_wf(graph, frame, state, response@);
                }
                trace = record_response(at, &node.id, response, &mut outputs, trace, Ghost(state));
                cursor += 1;
            },
            Turn::Fail(error) => {
                return Progress::Finished(Err(error));
            },
            Turn::Outside(request) => {
                return Progress::Suspended(
                    Evaluation { decision, frame, context, cursor, outputs, trace },
                    request,
                );
            },
        }
    }
    let output = collect_output(nodes, &outputs);
    Progress::Finished(Ok(EvaluationResponse { output, trace }))
}

/// Starts the evaluation of `decision` on `context` in `frame`.
fn start<'a>(decision: &'a Decision, frame: Frame, context: Value) -> (progress: Progress<'a>)
    requires
        frame.depth <= frame.options.max_depth,
    ensures
        progress.outcome() == begin(decision@, frame, context@),
        progress.continues(decision@, frame, context@),
        decision@.wf(),
        keeps_trace(decision@, frame, progress.outcome()),
{
    let count: usize = decision.nodes().len();
    proof {
        lemma_begin_keeps_trace(decision@, frame, context@);
    }
    if !context.is_object() {
        return Progress::Finished(
            Err(
                EngineError::global(
                    ErrorKind::ContextDeserialization,
                    "the context must be an object",
                ),
            ),
        );
    }
    let mut outputs: Vec<Option<Value>> = Vec::new();
    while outputs.len() < count
        invariant
            outputs.len() <= count,
            forall|i: int| 0 <= i < outputs.len() ==> outputs@[i] is None,
        decreases count - outputs.len(),
    {
        outputs.push(None);
    }
    let trace: Option<Vec<TraceRecord>> = match frame.options.trace {
        EvaluationTraceKind::Default => Some(Vec::new()),
        EvaluationTraceKind::Off => None,
    };
    proof {
        let initial = State::initial(decision@, frame);
        assert(outputs_view(outputs@) =~= initial.outputs);
        assert(trace_view(trace) == initial.trace) by {
            if trace is Some {
                assert(records_view(trace->Some_0@) =~= Seq::empty());
            }
        }
        assert(state_view(0, outputs, trace) == initial);
        lemma_initial_wf(decision@, frame);
    }
    run(decision, frame, context, 0, outputs, trace)
}

impl NestedCall {
    #[verifier::type_invariant]
    spec fn well_formed(&self) -> bool {
        1 <= self.frame.depth <= self.frame.options.max_depth
    }

    /// Starts the evaluation of the sub-decision, once the host has loaded it: one level
    /// deeper than the evaluation that asked for it, with the same options and
    /// capabilities, on the value that was routed to the node.
    pub fn begin<'a>(self, decision: &'a Decision) -> (progress: Progress<'a>)
        ensures
            progress.outcome() == begin(decision@, self@.frame, self@.input),
            progress.continues(decision@, self@.frame, self@.input),
            keeps_trace(decision@, self@.frame, progress.outcome()),
            1 <= self@.frame.depth <= self@.frame.options.max_depth,
    {
        proof {
            use_type_invariant(&self);
        }
        let NestedCall { frame, input } = self;
        start(decision, frame, input)
    }

    /// How deep the evaluation of the sub-decision is nested.
    pub fn depth(&self) -> (depth: u32)
        ensures
            depth == self@.frame.depth,
            1 <= depth <= self@.frame.options.max_depth,
    {
        proof {
            use_type_invariant(self);
        }
        self.frame.depth
    }
}

impl Decision {
    /// Evaluates the decision on `context`: runs its nodes in schedule order, each on what
    /// the nodes that feed it have produced, until one fails, one needs the host, or none
    /// is left. The evaluation is the outermost one, at depth 0; `registry` says which
    /// capabilities its nodes may count on.
    pub fn evaluate<'a, L, C, H>(
        &'a self,
        registry: &CapabilityRegistry<L, C, H>,
        context: Value,
        options: EvaluationOptions,
    ) -> (progress: Progress<'a>)
        ensures
            progress.outcome() == begin(
                self@,
                Frame { capabilities: registry.offered(), options, depth: 0 },
                context@,
            ),
            progress.continues(
                self@,
                Frame { capabilities: registry.offered(), options, depth: 0 },
                context@,
            ),
            keeps_trace(
                self@,
                Frame { capabilities: registry.offered(), options, depth: 0 },
                progress.outcome(),
            ),
    {
        let frame = Frame { capabilities: registry.capabilities(), options, depth: 0 };
        start(self, frame, context)
    }
}

impl<'a> Evaluation<'a> {
    #[verifier::type_invariant]
    spec fn well_formed(&self) -> bool {
        &&& self.decision@.wf()
        &&& self.frame.depth <= self.frame.options.max_depth
        &&& self.cursor < self.decision@.schedule.len()
        &&& self@.state.wf(self.decision@, self.frame)
    }

    /// Takes the evaluation up again, now that the host has answered for the node it
    /// waited on. A success is recorded and the nodes after it run; a failure ends the
    /// evaluation, attributed to that node.
    pub fn resume(self, completion: Completion) -> (progress: Progress<'a>)
        ensures
            progress.outcome() == resume(
                self@.graph,
                self@.frame,
                self@.context,
                self@.state,
                completion@,
            ),
            progress.continues(self@.graph, self@.frame, self@.context),
            keeps_trace(self@.graph, self@.frame, progress.outcome()),
    {
        proof {
            use_type_invariant(&self);
            lemma_resume_keeps_trace(
                self@.graph,
                self@.frame,
                self@.context,
                self@.state,
                completion@,
            );
        }
        let ghost view = self@;
        let Evaluation { decision, frame, context, cursor, outputs, trace } = self;
        let nodes = decision.nodes();
        let schedule = decision.schedule();
        let at: usize = schedule[cursor];
        proof {
            assert(crate::schedule::step_allowed(
                view.graph.nodes.len(),
                view.graph.links,
                view.graph.schedule,
                cursor as int,
            ));
        }
        let node = &nodes[at];
        assert(node@ == view.graph.nodes[at as int]);
        assert(cursor < schedule.len());
        let next: usize = cursor + 1;
        match completion {
            Completion::Done(response) => {
                proof {
                    lemma_record_wf(view.graph, frame, view.state, response@);
                }
                let mut outputs = outputs;
                let trace =
                    record_response(at, &node.id, response, &mut outputs, trace, Ghost(view.state));
                run(decision, frame, context, next, outputs, trace)
            },
            Completion::Failed(message) => Progress::Finished(
                Err(
                    EngineError {
                        kind: ErrorKind::NodeExecution,
                        node_id: Some(node.id.clone()),
                        message,
                    },
                ),
            ),
            Completion::NestedFailed(cause) => Progress::Finished(
                Err(
                    EngineError {
                        kind: cause.kind,
                        node_id: Some(node.id.clone()),
                        message: cause.to_text(),
                    },
                ),
            ),
        }
    }

    /// How deep the evaluation is nested.
    pub fn depth(&self) -> (depth: u32)
        ensures
            depth == self@.frame.depth,
            depth <= self@.frame.options.max_depth,
    {
        proof {
            use_type_invariant(self);
        }
        self.frame.depth
    }
}

} // verus!
