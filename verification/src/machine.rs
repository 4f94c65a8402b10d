use crate::decision::Graph;
use crate::error::{ErrorKind, ErrorView};
use crate::model::{KindView, NodeView};
use crate::nodes::definition::ResponseView;
use crate::nodes::function::disabled_error;
use crate::registry::{Capabilities, Capability};
use crate::schedule::Link;
use crate::value::Json;
use vstd::prelude::*;

verus! {

/// Whether an evaluation keeps a trace.
#[derive(Clone, Copy, Debug, PartialEq, Eq, Structural)]
pub enum EvaluationTraceKind {
    /// No trace is kept.
    Off,
    /// Every node that runs leaves a record.
    Default,
}

/// What the caller of an evaluation chooses: whether it is traced, and how deep
/// sub-decisions may nest below it.
#[derive(Clone, Copy, Debug, PartialEq, Eq, Structural)]
pub struct EvaluationOptions {
    pub trace: EvaluationTraceKind,
    pub max_depth: u32,
}

/// What stays the same during one evaluation: what the registry offers, the options,
/// and how deep the evaluation is nested (0 for the one that the caller started).
#[derive(Clone, Copy, Debug, PartialEq, Eq, Structural)]
pub struct Frame {
    pub capabilities: Capabilities,
    pub options: EvaluationOptions,
    pub depth: u32,
}

impl Frame {
    /// Whether the evaluation keeps a trace.
    pub open spec fn traced(self) -> bool {
        self.options.trace == EvaluationTraceKind::Default
    }

    /// The frame of a sub-decision that is evaluated from this one: one level deeper,
    /// all else the same.
    pub open spec fn nested(self) -> Frame
        recommends
            self.depth < self.options.max_depth,
    {
        Frame {
            capabilities: self.capabilities,
            options: self.options,
            depth: (self.depth + 1) as u32,
        }
    }

    /// The trace slot that a node is given: empty while tracing, absent otherwise.
    pub open spec fn slot(self) -> Option<Json> {
        if self.traced() {
            Some(Json::Null)
        } else {
            None
        }
    }
}

/// Mathematical model of one entry of a trace.
pub struct RecordView {
    pub node_id: Seq<char>,
    pub payload: Json,
}

/// Mathematical model of what a finished evaluation returns.
pub struct ReportView {
    pub output: Json,
    pub trace: Option<Seq<RecordView>>,
}

/// Mathematical model of the work that an evaluation asks its host to do for one node.
pub enum RequestView {
    /// Load the decision named `key` and evaluate it on `input` in the frame `frame`.
    SubDecision { node_id: Seq<char>, key: Seq<char>, input: Json, frame: Frame },
    /// Run a node of a kind that the engine does not know.
    Custom { node_id: Seq<char>, kind: Seq<char>, config: Json, input: Json, traced: bool },
    /// Make an outbound request.
    Http { node_id: Seq<char>, config: Json, input: Json, traced: bool },
}

/// Mathematical model of how the host's work for one node ended.
pub enum CompletionView {
    /// The work succeeded: the node's output and, where it has one, its trace payload.
    Done(ResponseView),
    /// The work failed, for the reason given.
    Failed(Seq<char>),
    /// The evaluation of a sub-decision failed.
    NestedFailed(ErrorView),
}

/// The part of an evaluation that changes: how many nodes of the schedule have run,
/// what each node has produced, and the trace, which is there only while tracing.
pub struct State {
    pub cursor: nat,
    pub outputs: Seq<Option<Json>>,
    pub trace: Option<Seq<RecordView>>,
}

/// Where an evaluation stands after it has gone as far as it can on its own.
pub enum Outcome {
    /// It waits for the host to do the work `request` for the node at the cursor.
    Suspended(State, RequestView),
    /// It is over.
    Finished(Result<ReportView, ErrorView>),
}

/// What the engine decides when a node's turn comes.
pub enum Dispatch {
    /// The node is done at once, with this response.
    Inline(ResponseView),
    /// The node fails, and the evaluation with it.
    Fail(ErrorView),
    /// The node needs work that only the host can do.
    Outside(RequestView),
}

/// The failure of an evaluation whose context is no object.
pub open spec fn context_error() -> ErrorView {
    ErrorView {
        kind: ErrorKind::ContextDeserialization,
        node_id: None,
        message: "the context must be an object"@,
    }
}

/// The failure of a sub-decision node that would nest deeper than allowed.
pub open spec fn recursion_error(node_id: Seq<char>) -> ErrorView {
    ErrorView {
        kind: ErrorKind::RecursionLimitExceeded,
        node_id: Some(node_id),
        message: "sub-decision nesting exceeds the depth limit"@,
    }
}

/// What a node answers whose capability nobody has injected.
pub open spec fn missing_message(capability: Capability) -> Seq<char> {
    match capability {
        Capability::Logging => "logging is disabled"@,
        Capability::Network => "outbound network access is disabled"@,
        Capability::CustomNode => "custom node dispatch is disabled"@,
        Capability::Loader => "sub-decision loading is disabled"@,
    }
}

/// The failure of a node whose capability nobody has injected.
pub open spec fn missing_error(node_id: Seq<char>, capability: Capability) -> ErrorView {
    ErrorView {
        kind: ErrorKind::FeatureDisabled,
        node_id: Some(node_id),
        message: missing_message(capability),
    }
}

/// The value routed to `node`: what the nodes that feed it have produced, overlaid in
/// the declared order of the edges. `Null` where no edge leads to it.
pub open spec fn gather(links: Seq<Link>, outputs: Seq<Option<Json>>, node: usize) -> Json
    decreases links.len(),
{
    if links.len() == 0 {
        Json::Null
    } else {
        let rest = gather(links.drop_last(), outputs, node);
        let link = links.last();
        if link.target == node && 0 <= link.source < outputs.len() {
            match outputs[link.source as int] {
                Some(value) => rest.merge(value),
                None => rest,
            }
        } else {
            rest
        }
    }
}

/// What the evaluation returns: what its output nodes have produced, overlaid in the
/// declared order of the nodes. `Null` where the graph has no output node.
pub open spec fn collect(nodes: Seq<NodeView>, outputs: Seq<Option<Json>>) -> Json
    decreases nodes.len(),
{
    if nodes.len() == 0 {
        Json::Null
    } else {
        let rest = collect(nodes.drop_last(), outputs);
        let last: int = nodes.len() - 1;
        if nodes[last].kind is Output && last < outputs.len() {
            match outputs[last] {
                Some(value) => rest.merge(value),
                None => rest,
            }
        } else {
            rest
        }
    }
}

/// What the engine decides for `node`, to which `input` is routed, in an evaluation of
/// `context` in the frame `frame`.
pub open spec fn dispatch(frame: Frame, context: Json, node: NodeView, input: Json) -> Dispatch {
    match node.kind {
        KindView::Input => Dispatch::Inline(
            ResponseView { output: context, trace_data: frame.slot() },
        ),
        KindView::Output => Dispatch::Inline(
            ResponseView { output: input, trace_data: frame.slot() },
        ),
        KindView::FunctionV1 { .. } => Dispatch::Fail(disabled_error(node.id)),
        KindView::FunctionV2 { .. } => Dispatch::Fail(disabled_error(node.id)),
        KindView::SubDecision { key } => if frame.depth >= frame.options.max_depth {
            Dispatch::Fail(recursion_error(node.id))
        } else if !frame.capabilities.loader {
            Dispatch::Fail(missing_error(node.id, Capability::Loader))
        } else {
            Dispatch::Outside(
                RequestView::SubDecision { node_id: node.id, key, input, frame: frame.nested() },
            )
        },
        KindView::Custom { kind, config } => if !frame.capabilities.custom_node {
            Dispatch::Fail(missing_error(node.id, Capability::CustomNode))
        } else {
            Dispatch::Outside(
                RequestView::Custom {
                    node_id: node.id,
                    kind,
                    config,
                    input,
                    traced: frame.traced(),
                },
            )
        },
        KindView::HttpRequest { config } => if !frame.capabilities.network {
            Dispatch::Fail(missing_error(node.id, Capability::Network))
        } else {
            Dispatch::Outside(
                RequestView::Http { node_id: node.id, config, input, traced: frame.traced() },
            )
        },
    }
}

impl State {
    /// The state in which no node has run.
    pub open spec fn initial(graph: Graph, frame: Frame) -> State {
        State {
            cursor: 0,
            outputs: Seq::new(graph.nodes.len(), |i: int| None),
            trace: if frame.traced() {
                Some(Seq::empty())
            } else {
                None
            },
        }
    }

    /// The state after the node at position `node`, whose identity is `node_id`, has
    /// answered `response`: its output is stored, the cursor moves on, and while tracing
    /// its payload is appended to the trace, `Null` standing for a payload that is missing.
    pub open spec fn record(
        self,
        node: usize,
        node_id: Seq<char>,
        response: ResponseView,
    ) -> State {
        State {
            cursor: self.cursor + 1,
            outputs: self.outputs.update(node as int, Some(response.output)),
            trace: match self.trace {
                Some(records) => Some(
                    records.push(
                        RecordView {
                            node_id,
                            payload: match response.trace_data {
                                Some(payload) => payload,
                                None => Json::Null,
                            },
                        },
                    ),
                ),
                None => None,
            },
        }
    }

    /// The nodes that have run: those before the cursor, in the order of the schedule.
    pub open spec fn ran(self, graph: Graph) -> Seq<usize> {
        graph.schedule.take(self.cursor as int)
    }

    /// What holds of every state that an evaluation reaches: the nodes that have produced
    /// an output are those that have run, and the trace is there exactly while tracing,
    /// with one record for each of those nodes, in the order in which they ran.
    pub open spec fn wf(self, graph: Graph, frame: Frame) -> bool {
        &&& self.cursor <= graph.schedule.len()
        &&& self.outputs.len() == graph.nodes.len()
        &&& forall|node: usize|
            node < self.outputs.len() ==> (self.outputs[node as int] is Some
                <==> #[trigger] self.ran(graph).contains(node))
        &&& self.trace is Some == frame.traced()
        &&& self.trace matches Some(records) ==> {
            &&& records.len() == self.cursor
            &&& forall|k: int|
                0 <= k < self.cursor ==> (#[trigger] records[k]).node_id
                    == graph.nodes[graph.schedule[k] as int].id
        }
    }
}

/// Recording the answer of the node at the cursor leads from one well-formed state to
/// the next.
pub proof fn lemma_record_wf(graph: Graph, frame: Frame, state: State, response: ResponseView)
    requires
        graph.wf(),
        state.wf(graph, frame),
        state.cursor < graph.schedule.len(),
    ensures
        ({
            let at = graph.schedule[state.cursor as int];
            state.record(at, graph.nodes[at as int].id, response).wf(graph, frame)
        }),
{
    let at = graph.schedule[state.cursor as int];
    let next = state.record(at, graph.nodes[at as int].id, response);
    assert(crate::schedule::step_allowed(
        graph.nodes.len(),
        graph.links,
        graph.schedule,
        state.cursor as int,
    ));
    assert(next.ran(graph) =~= state.ran(graph).push(at));
    assert forall|node: usize| node < next.outputs.len() implies (next.outputs[node as int] is Some
        <==> #[trigger] next.ran(graph).contains(node)) by {
        if node == at {
            assert(next.ran(graph)[state.cursor as int] == at);
        } else {
            if state.ran(graph).contains(node) {
                let j = choose|j: int| 0 <= j < state.cursor && state.ran(graph)[j] == node;
                assert(next.ran(graph)[j] == node);
            }
            if next.ran(graph).contains(node) {
                let j = choose|j: int| 0 <= j < next.cursor && next.ran(graph)[j] == node;
                assert(state.ran(graph)[j] == node);
            }
        }
    }
}

/// No node has run in the initial state, and it is well-formed.
pub proof fn lemma_initial_wf(graph: Graph, frame: Frame)
    requires
        graph.wf(),
    ensures
        State::initial(graph, frame).wf(graph, frame),
{
    let initial = State::initial(graph, frame);
    assert(initial.ran(graph) =~= Seq::empty());
}

/// The failure of an evaluation whose host could not do the work for the node
/// `node_id`. A failed sub-decision keeps its kind and hands its text on as the cause.
pub open spec fn completion_error(node_id: Seq<char>, completion: CompletionView) -> ErrorView
    recommends
        !(completion is Done),
{
    match completion {
        CompletionView::NestedFailed(cause) => ErrorView {
            kind: cause.kind,
            node_id: Some(node_id),
            message: cause.text(),
        },
        CompletionView::Failed(message) => ErrorView {
            kind: ErrorKind::NodeExecution,
            node_id: Some(node_id),
            message,
        },
        CompletionView::Done(_) => ErrorView {
            kind: ErrorKind::NodeExecution,
            node_id: Some(node_id),
            message: Seq::empty(),
        },
    }
}

/// Runs the nodes from the cursor on, in schedule order, until one fails, one needs
/// the host, or none is left.
pub open spec fn advance(graph: Graph, frame: Frame, context: Json, state: State) -> Outcome
    decreases graph.schedule.len() - state.cursor,
{
    if state.cursor >= graph.schedule.len() {
        Outcome::Finished(
            Ok(ReportView { output: collect(graph.nodes, state.outputs), trace: state.trace }),
        )
    } else {
        let at = graph.schedule[state.cursor as int];
        let node = graph.nodes[at as int];
        match dispatch(frame, context, node, gather(graph.links, state.outputs, at)) {
            Dispatch::Inline(response) => advance(
                graph,
                frame,
                context,
                state.record(at, node.id, response),
            ),
            Dispatch::Fail(error) => Outcome::Finished(Err(error)),
            Dispatch::Outside(request) => Outcome::Suspended(state, request),
        }
    }
}

/// Starts an evaluation: a context that is no object is refused before any node runs.
pub open spec fn begin(graph: Graph, frame: Frame, context: Json) -> Outcome {
    if context is Object {
        advance(graph, frame, context, State::initial(graph, frame))
    } else {
        Outcome::Finished(Err(context_error()))
    }
}

/// Takes up an evaluation that waits at its cursor, now that the host has answered.
pub open spec fn resume(
    graph: Graph,
    frame: Frame,
    context: Json,
    state: State,
    completion: CompletionView,
) -> Outcome
    recommends
        state.cursor < graph.schedule.len(),
{
    let at = graph.schedule[state.cursor as int];
    let node = graph.nodes[at as int];
    match completion {
        CompletionView::Done(response) => advance(
            graph,
            frame,
            context,
            state.record(at, node.id, response),
        ),
        _ => Outcome::Finished(Err(completion_error(node.id, completion))),
    }
}

/// One evaluation in flight: what it evaluates, and where it stands.
pub struct Call {
    pub graph: Graph,
    pub frame: Frame,
    pub context: Json,
    pub outcome: Outcome,
}

impl Call {
    /// The call as it stands after its start.
    pub open spec fn start(graph: Graph, frame: Frame, context: Json) -> Call {
        Call { graph, frame, context, outcome: begin(graph, frame, context) }
    }

    /// The call after the host has answered. A call that is over stays as it is.
    pub open spec fn deliver(self, completion: CompletionView) -> Call {
        match self.outcome {
            Outcome::Suspended(state, _) => Call {
                graph: self.graph,
                frame: self.frame,
                context: self.context,
                outcome: resume(self.graph, self.frame, self.context, state, completion),
            },
            Outcome::Finished(_) => self,
        }
    }

    /// The call after the host has given these answers, one after another.
    pub open spec fn deliver_all(self, completions: Seq<CompletionView>) -> Call
        decreases completions.len(),
    {
        if completions.len() == 0 {
            self
        } else {
            self.deliver_all(completions.drop_last()).deliver(completions.last())
        }
    }
}

} // verus!
