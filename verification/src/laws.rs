use crate::decision::Graph;
use crate::error::{ErrorKind, ErrorView};
use crate::machine::{
    advance, begin, completion_error, dispatch, gather, lemma_initial_wf, lemma_record_wf,
    missing_error,
    recursion_error, resume,
    Call, CompletionView, Dispatch, EvaluationOptions, EvaluationTraceKind, Frame, Outcome,
    RequestView, State,
};
use crate::model::{KindView, NodeView};
use crate::nodes::function::{disabled_error, disabled_message};
use crate::registry::Capability;
use crate::schedule::{ready, step_allowed};
use crate::value::Json;
use vstd::prelude::*;

verus! {

/// `text` holds `word` somewhere.
pub open spec fn mentions(text: Seq<char>, word: Seq<char>) -> bool {
    exists|at: int|
        0 <= at && at + word.len() <= text.len() && #[trigger] text.subrange(
            at,
            at + word.len(),
        ) == word
}

/// The node is a scripting node, in either data format.
pub open spec fn is_scripting(node: NodeView) -> bool {
    node.kind is FunctionV1 || node.kind is FunctionV2
}

/// A scripting node, in either data format and whatever the frame, the context and the
/// value routed to it, fails: with the kind `FeatureDisabled`, attributed to the node, in
/// words that name the scripting runtime.
pub proof fn lemma_scripting_is_disabled(
    frame: Frame,
    context: Json,
    node: NodeView,
    input: Json,
)
    requires
        is_scripting(node),
    ensures
        dispatch(frame, context, node, input) == Dispatch::Fail(disabled_error(node.id)),
        disabled_error(node.id).kind == ErrorKind::FeatureDisabled,
        disabled_error(node.id).node_id == Some(node.id),
        mentions(disabled_error(node.id).message, "QuickJS"@),
        mentions(disabled_error(node.id).text(), "QuickJS"@),
{
    reveal_strlit("QuickJS feature is disabled");
    reveal_strlit("QuickJS");
    let message = disabled_message();
    let word = "QuickJS"@;
    assert(message.subrange(0int, 0int + word.len()) =~= word);
    let text = disabled_error(node.id).text();
    let lead: int = text.len() - message.len();
    assert(text.subrange(lead, lead + word.len()) =~= word);
}

/// When the turn of a scripting node comes, the evaluation ends there, with that
/// node's failure: no node after it runs, and the host is asked for nothing.
pub proof fn lemma_scripting_aborts(graph: Graph, frame: Frame, context: Json, state: State)
    requires
        state.cursor < graph.schedule.len(),
        is_scripting(graph.nodes[graph.schedule[state.cursor as int] as int]),
    ensures
        advance(graph, frame, context, state) == Outcome::Finished(
            Err(disabled_error(graph.nodes[graph.schedule[state.cursor as int] as int].id)),
        ),
{
}

/// The capability without which a node of this kind cannot run, if it needs one.
pub open spec fn needs(kind: KindView) -> Option<Capability> {
    match kind {
        KindView::SubDecision { .. } => Some(Capability::Loader),
        KindView::Custom { .. } => Some(Capability::CustomNode),
        KindView::HttpRequest { .. } => Some(Capability::Network),
        _ => None,
    }
}

/// A node whose capability nobody has injected fails, with the kind `FeatureDisabled`,
/// attributed to the node, in words that depend on the capability alone: unless it is a
/// sub-decision node at the depth limit, which fails for that reason first.
pub proof fn lemma_missing_capability_fails(
    frame: Frame,
    context: Json,
    node: NodeView,
    input: Json,
)
    requires
        needs(node.kind) matches Some(capability) && !frame.capabilities.has(capability),
        node.kind is SubDecision ==> frame.depth < frame.options.max_depth,
    ensures
        dispatch(frame, context, node, input) == Dispatch::Fail(
            missing_error(node.id, needs(node.kind).unwrap()),
        ),
        missing_error(node.id, needs(node.kind).unwrap()).kind == ErrorKind::FeatureDisabled,
        missing_error(node.id, needs(node.kind).unwrap()).node_id == Some(node.id),
{
}

/// The failure is attributed to one of the nodes from position `from` of the schedule
/// on.
pub open spec fn blames_node_from(graph: Graph, from: nat, error: ErrorView) -> bool {
    exists|k: int|
        from <= k < graph.schedule.len() && error.node_id == Some(
            graph.nodes[(#[trigger] graph.schedule[k]) as int].id,
        )
}

/// Every failure of an evaluation that runs on is attributed to a node: to one of
/// those that had not yet run when it went on.
pub proof fn lemma_failure_names_its_node(graph: Graph, frame: Frame, context: Json, state: State)
    ensures
        advance(graph, frame, context, state) matches Outcome::Finished(Err(error))
            ==> blames_node_from(graph, state.cursor, error),
    decreases graph.schedule.len() - state.cursor,
{
    if state.cursor < graph.schedule.len() {
        let at = graph.schedule[state.cursor as int];
        let node = graph.nodes[at as int];
        match dispatch(frame, context, node, gather(graph.links, state.outputs, at)) {
            Dispatch::Inline(response) => {
                let next = state.record(at, node.id, response);
                lemma_failure_names_its_node(graph, frame, context, next);
                match advance(graph, frame, context, next) {
                    Outcome::Finished(Err(error)) => {
                        let k = choose|k: int|
                            next.cursor <= k < graph.schedule.len() && error.node_id == Some(
                                graph.nodes[(#[trigger] graph.schedule[k]) as int].id,
                            );
                        assert(state.cursor <= k);
                    },
                    _ => {},
                }
            },
            Dispatch::Fail(error) => {
                assert(error.node_id == Some(node.id));
            },
            Dispatch::Outside(_) => {},
        }
    }
}

/// Every node that feeds `node` has produced its output.
pub open spec fn is_fed(graph: Graph, state: State, node: usize) -> bool {
    forall|l: int|
        0 <= l < graph.links.len() && (#[trigger] graph.links[l]).target == node ==> {
            &&& graph.links[l].source < state.outputs.len()
            &&& state.outputs[graph.links[l].source as int] is Some
        }
}

/// In a well-formed state a node is fed exactly when the schedule counts it as ready.
pub proof fn lemma_fed_is_ready(graph: Graph, frame: Frame, state: State, node: usize)
    requires
        graph.wf(),
        state.wf(graph, frame),
    ensures
        is_fed(graph, state, node) == ready(graph.links, state.ran(graph), node),
{
    if is_fed(graph, state, node) {
        assert forall|l: int|
            0 <= l < graph.links.len() && (#[trigger] graph.links[l]).target
                == node implies state.ran(graph).contains(graph.links[l].source) by {}
    }
    if ready(graph.links, state.ran(graph), node) {
        assert forall|l: int|
            0 <= l < graph.links.len() && (#[trigger] graph.links[l]).target == node implies {
            &&& graph.links[l].source < state.outputs.len()
            &&& state.outputs[graph.links[l].source as int] is Some
        } by {
            assert(state.ran(graph).contains(graph.links[l].source));
        }
    }
}

/// The node whose turn it is has not run, every node that feeds it has produced its
/// output, and it is the first such node in the declared order: every node declared
/// before it has either run or still waits for a node that feeds it.
pub proof fn lemma_turn_is_first_ready(graph: Graph, frame: Frame, state: State)
    requires
        graph.wf(),
        state.wf(graph, frame),
        state.cursor < graph.schedule.len(),
    ensures
        ({
            let turn = graph.schedule[state.cursor as int];
            &&& turn < state.outputs.len()
            &&& state.outputs[turn as int] is None
            &&& is_fed(graph, state, turn)
            &&& forall|node: usize|
                node < turn ==> state.outputs[node as int] is Some || !#[trigger] is_fed(
                    graph,
                    state,
                    node,
                )
        }),
{
    let k = state.cursor as int;
    let turn = graph.schedule[k];
    assert(step_allowed(graph.nodes.len(), graph.links, graph.schedule, k));
    assert(crate::schedule::step_first(graph.links, graph.schedule, k));
    lemma_fed_is_ready(graph, frame, state, turn);
    assert forall|node: usize| node < turn implies state.outputs[node as int] is Some
        || !#[trigger] is_fed(graph, state, node) by {
        lemma_fed_is_ready(graph, frame, state, node);
        assert(state.ran(graph).contains(node) || !ready(graph.links, state.ran(graph), node));
    }
}

/// What an outcome owes to tracing. An evaluation that goes on is in a well-formed
/// state. One that has succeeded returns no trace unless it was traced, and then a trace
/// with exactly one record for each node, in the order in which the nodes ran.
pub open spec fn keeps_trace(graph: Graph, frame: Frame, outcome: Outcome) -> bool {
    match outcome {
        Outcome::Suspended(state, _) => state.wf(graph, frame) && state.cursor
            < graph.schedule.len(),
        Outcome::Finished(Ok(report)) => {
            &&& report.trace is Some == frame.traced()
            &&& report.trace matches Some(records) ==> {
                &&& records.len() == graph.schedule.len()
                &&& forall|k: int|
                    0 <= k < records.len() ==> (#[trigger] records[k]).node_id
                        == graph.nodes[graph.schedule[k] as int].id
            }
        },
        Outcome::Finished(Err(_)) => true,
    }
}

/// Running on from a well-formed state keeps the trace as promised.
pub proof fn lemma_advance_keeps_trace(graph: Graph, frame: Frame, context: Json, state: State)
    requires
        graph.wf(),
        state.wf(graph, frame),
    ensures
        keeps_trace(graph, frame, advance(graph, frame, context, state)),
    decreases graph.schedule.len() - state.cursor,
{
    if state.cursor < graph.schedule.len() {
        let at = graph.schedule[state.cursor as int];
        let node = graph.nodes[at as int];
        match dispatch(frame, context, node, gather(graph.links, state.outputs, at)) {
            Dispatch::Inline(response) => {
                lemma_record_wf(graph, frame, state, response);
                let next = state.record(at, node.id, response);
                lemma_advance_keeps_trace(graph, frame, context, next);
            },
            _ => {},
        }
    }
}

/// An evaluation keeps no trace unless it is traced, and while it is traced it holds
/// exactly one record for each node that has run, in the order in which they ran: from
/// its start on.
pub proof fn lemma_begin_keeps_trace(graph: Graph, frame: Frame, context: Json)
    requires
        graph.wf(),
    ensures
        keeps_trace(graph, frame, begin(graph, frame, context)),
{
    if context is Object {
        lemma_initial_wf(graph, frame);
        lemma_advance_keeps_trace(graph, frame, context, State::initial(graph, frame));
    }
}

/// The same, each time the host has answered.
pub proof fn lemma_resume_keeps_trace(
    graph: Graph,
    frame: Frame,
    context: Json,
    state: State,
    completion: CompletionView,
)
    requires
        graph.wf(),
        state.wf(graph, frame),
        state.cursor < graph.schedule.len(),
    ensures
        keeps_trace(graph, frame, resume(graph, frame, context, state, completion)),
{
    let at = graph.schedule[state.cursor as int];
    let node = graph.nodes[at as int];
    match completion {
        CompletionView::Done(response) => {
            lemma_record_wf(graph, frame, state, response);
            lemma_advance_keeps_trace(graph, frame, context, state.record(at, node.id, response));
        },
        _ => {},
    }
}

/// The frame with tracing switched on or off.
pub open spec fn with_trace(frame: Frame, trace: EvaluationTraceKind) -> Frame {
    Frame {
        capabilities: frame.capabilities,
        options: EvaluationOptions { trace, max_depth: frame.options.max_depth },
        depth: frame.depth,
    }
}

/// Two requests ask for the same work, whether or not a trace is wanted with it.
pub open spec fn same_work(one: RequestView, other: RequestView) -> bool {
    match (one, other) {
        (
            RequestView::SubDecision { node_id, key, input, frame },
            RequestView::SubDecision { node_id: id, key: k, input: i, frame: f },
        ) => node_id == id && key == k && input == i && f == with_trace(frame, f.options.trace),
        (
            RequestView::Custom { node_id, kind, config, input, .. },
            RequestView::Custom { node_id: id, kind: k, config: c, input: i, .. },
        ) => node_id == id && kind == k && config == c && input == i,
        (
            RequestView::Http { node_id, config, input, .. },
            RequestView::Http { node_id: id, config: c, input: i, .. },
        ) => node_id == id && config == c && input == i,
        _ => false,
    }
}

/// Two outcomes are the same but for the trace: the same output or the same failure,
/// or the same wait, at the same node, for the same work, with the same outputs so far.
pub open spec fn same_but_trace(one: Outcome, other: Outcome) -> bool {
    match (one, other) {
        (Outcome::Finished(Ok(a)), Outcome::Finished(Ok(b))) => a.output == b.output,
        (Outcome::Finished(Err(a)), Outcome::Finished(Err(b))) => a == b,
        (Outcome::Suspended(a, request), Outcome::Suspended(b, wanted)) => {
            &&& a.cursor == b.cursor
            &&& a.outputs == b.outputs
            &&& same_work(request, wanted)
        },
        _ => false,
    }
}

/// Two answers of the host are the same but for the trace payload.
pub open spec fn same_answer(one: CompletionView, other: CompletionView) -> bool {
    match (one, other) {
        (CompletionView::Done(a), CompletionView::Done(b)) => a.output == b.output,
        (CompletionView::Failed(a), CompletionView::Failed(b)) => a == b,
        (CompletionView::NestedFailed(a), CompletionView::NestedFailed(b)) => a == b,
        _ => false,
    }
}

/// Running on from two states that differ in their traces only, one traced and one
/// not, ends the same but for the trace.
pub proof fn lemma_advance_ignores_trace(
    graph: Graph,
    frame: Frame,
    context: Json,
    plain: State,
    traced: State,
)
    requires
        plain.cursor == traced.cursor,
        plain.outputs == traced.outputs,
    ensures
        same_but_trace(
            advance(graph, with_trace(frame, EvaluationTraceKind::Off), context, plain),
            advance(graph, with_trace(frame, EvaluationTraceKind::Default), context, traced),
        ),
    decreases graph.schedule.len() - plain.cursor,
{
    let off = with_trace(frame, EvaluationTraceKind::Off);
    let on = with_trace(frame, EvaluationTraceKind::Default);
    if plain.cursor < graph.schedule.len() {
        let at = graph.schedule[plain.cursor as int];
        let node = graph.nodes[at as int];
        let input = gather(graph.links, plain.outputs, at);
        match (dispatch(off, context, node, input), dispatch(on, context, node, input)) {
            (Dispatch::Inline(a), Dispatch::Inline(b)) => {
                lemma_advance_ignores_trace(
                    graph,
                    frame,
                    context,
                    plain.record(at, node.id, a),
                    traced.record(at, node.id, b),
                );
            },
            _ => {},
        }
    }
}

/// What an evaluation returns does not depend on whether it is traced: on the same
/// context, with the same capabilities and depth limit, the traced and the untraced
/// evaluation start the same but for the trace.
pub proof fn lemma_begin_ignores_trace(graph: Graph, frame: Frame, context: Json)
    ensures
        same_but_trace(
            begin(graph, with_trace(frame, EvaluationTraceKind::Off), context),
            begin(graph, with_trace(frame, EvaluationTraceKind::Default), context),
        ),
{
    let off = with_trace(frame, EvaluationTraceKind::Off);
    let on = with_trace(frame, EvaluationTraceKind::Default);
    if context is Object {
        lemma_advance_ignores_trace(
            graph,
            frame,
            context,
            State::initial(graph, off),
            State::initial(graph, on),
        );
    }
}

/// And they go on the same but for the trace, each time the host gives both the same
/// answer.
pub proof fn lemma_resume_ignores_trace(
    graph: Graph,
    frame: Frame,
    context: Json,
    plain: State,
    traced: State,
    answer: CompletionView,
    traced_answer: CompletionView,
)
    requires
        plain.cursor == traced.cursor,
        plain.outputs == traced.outputs,
        same_answer(answer, traced_answer),
    ensures
        same_but_trace(
            resume(graph, with_trace(frame, EvaluationTraceKind::Off), context, plain, answer),
            resume(
                graph,
                with_trace(frame, EvaluationTraceKind::Default),
                context,
                traced,
                traced_answer,
            ),
        ),
{
    let at = graph.schedule[plain.cursor as int];
    let node = graph.nodes[at as int];
    match (answer, traced_answer) {
        (CompletionView::Done(a), CompletionView::Done(b)) => {
            lemma_advance_ignores_trace(
                graph,
                frame,
                context,
                plain.record(at, node.id, a),
                traced.record(at, node.id, b),
            );
        },
        _ => {},
    }
}

/// Whatever the host answers, and however often, the traced and the untraced
/// evaluation of one context return the same output, fail with the same error, or wait
/// for the same work: as long as the host gives both the same answers.
pub proof fn lemma_run_ignores_trace(
    graph: Graph,
    frame: Frame,
    context: Json,
    answers: Seq<CompletionView>,
    traced_answers: Seq<CompletionView>,
)
    requires
        answers.len() == traced_answers.len(),
        forall|i: int| 0 <= i < answers.len() ==> same_answer(answers[i], traced_answers[i]),
    ensures
        same_but_trace(
            Call::start(graph, with_trace(frame, EvaluationTraceKind::Off), context).deliver_all(
                answers,
            ).outcome,
            Call::start(
                graph,
                with_trace(frame, EvaluationTraceKind::Default),
                context,
            ).deliver_all(traced_answers).outcome,
        ),
    decreases answers.len(),
{
    let off = with_trace(frame, EvaluationTraceKind::Off);
    let on = with_trace(frame, EvaluationTraceKind::Default);
    if answers.len() == 0 {
        lemma_begin_ignores_trace(graph, frame, context);
    } else {
        lemma_run_ignores_trace(
            graph,
            frame,
            context,
            answers.drop_last(),
            traced_answers.drop_last(),
        );
        let plain = Call::start(graph, off, context).deliver_all(answers.drop_last());
        let traced = Call::start(graph, on, context).deliver_all(traced_answers.drop_last());
        lemma_call_keeps_subject(Call::start(graph, off, context), answers.drop_last());
        lemma_call_keeps_subject(Call::start(graph, on, context), traced_answers.drop_last());
        match (plain.outcome, traced.outcome) {
            (Outcome::Suspended(a, _), Outcome::Suspended(b, _)) => {
                lemma_resume_ignores_trace(
                    graph,
                    frame,
                    context,
                    a,
                    b,
                    answers.last(),
                    traced_answers.last(),
                );
            },
            _ => {},
        }
    }
}

/// The answers of the host change where a call stands, never what it evaluates.
pub proof fn lemma_call_keeps_subject(call: Call, completions: Seq<CompletionView>)
    ensures
        call.deliver_all(completions).graph == call.graph,
        call.deliver_all(completions).frame == call.frame,
        call.deliver_all(completions).context == call.context,
    decreases completions.len(),
{
    if completions.len() > 0 {
        lemma_call_keeps_subject(call, completions.drop_last());
    }
}

/// An answer of the host, addressed to one of several calls in flight.
pub struct Delivery {
    pub to: int,
    pub completion: CompletionView,
}

/// Several calls in flight, after the host has answered now one and now another.
pub open spec fn interleave(calls: Seq<Call>, deliveries: Seq<Delivery>) -> Seq<Call>
    decreases deliveries.len(),
{
    if deliveries.len() == 0 {
        calls
    } else {
        let before = interleave(calls, deliveries.drop_last());
        let delivery = deliveries.last();
        if 0 <= delivery.to < before.len() {
            before.update(delivery.to, before[delivery.to].deliver(delivery.completion))
        } else {
            before
        }
    }
}

/// The answers among `deliveries` that are addressed to the call `to`, in their order.
pub open spec fn addressed(deliveries: Seq<Delivery>, to: int) -> Seq<CompletionView>
    decreases deliveries.len(),
{
    if deliveries.len() == 0 {
        Seq::empty()
    } else {
        let before = addressed(deliveries.drop_last(), to);
        if deliveries.last().to == to {
            before.push(deliveries.last().completion)
        } else {
            before
        }
    }
}

/// Calls in flight at the same time do not touch each other: however the answers of
/// the host to the several calls interleave, each call stands where it would stand had
/// it run alone and been given the answers addressed to it.
pub proof fn lemma_calls_are_isolated(calls: Seq<Call>, deliveries: Seq<Delivery>, which: int)
    requires
        0 <= which < calls.len(),
    ensures
        interleave(calls, deliveries).len() == calls.len(),
        interleave(calls, deliveries)[which] == calls[which].deliver_all(
            addressed(deliveries, which),
        ),
    decreases deliveries.len(),
{
    if deliveries.len() > 0 {
        lemma_calls_are_isolated(calls, deliveries.drop_last(), which);
        if deliveries.last().to == which {
            let before = addressed(deliveries.drop_last(), which);
            let mine = before.push(deliveries.last().completion);
            assert(mine.drop_last() =~= before);
        }
    }
}

/// The node whose turn it is is a sub-decision node.
pub open spec fn awaits_sub_decision(graph: Graph, state: State) -> bool {
    state.cursor < graph.schedule.len()
        && graph.nodes[graph.schedule[state.cursor as int] as int].kind is SubDecision
}

/// The node whose turn it is.
pub open spec fn current(graph: Graph, state: State) -> NodeView {
    graph.nodes[graph.schedule[state.cursor as int] as int]
}

/// Below its depth limit, an evaluation that can load decisions enters a sub-decision:
/// it asks the host for it, for an evaluation one level deeper with the same options and
/// capabilities, on the value routed to the node.
pub proof fn lemma_sub_decision_within_limit(
    graph: Graph,
    frame: Frame,
    context: Json,
    state: State,
)
    requires
        awaits_sub_decision(graph, state),
        frame.depth < frame.options.max_depth,
        frame.capabilities.loader,
    ensures
        advance(graph, frame, context, state) == Outcome::Suspended(
            state,
            RequestView::SubDecision {
                node_id: current(graph, state).id,
                key: current(graph, state).kind->SubDecision_key,
                input: gather(graph.links, state.outputs, graph.schedule[state.cursor as int]),
                frame: frame.nested(),
            },
        ),
        frame.nested().depth == frame.depth + 1,
        frame.nested().options == frame.options,
        frame.nested().capabilities == frame.capabilities,
{
}

/// At its depth limit, an evaluation does not enter a sub-decision: it fails with
/// `RecursionLimitExceeded`, attributed to the node, and asks the host for nothing.
pub proof fn lemma_sub_decision_beyond_limit(
    graph: Graph,
    frame: Frame,
    context: Json,
    state: State,
)
    requires
        awaits_sub_decision(graph, state),
        frame.depth >= frame.options.max_depth,
    ensures
        advance(graph, frame, context, state) == Outcome::Finished(
            Err(recursion_error(current(graph, state).id)),
        ),
        recursion_error(current(graph, state).id).kind == ErrorKind::RecursionLimitExceeded,
{
}

/// One level of a chain of sub-decisions: an evaluation in which the turn of a
/// sub-decision node has come.
pub struct Level {
    pub graph: Graph,
    pub context: Json,
    pub state: State,
}

/// The frame of the evaluation `level` levels below the one that runs in `root`.
pub open spec fn frame_at(root: Frame, level: nat) -> Frame
    decreases level,
{
    if level == 0 {
        root
    } else {
        frame_at(root, (level - 1) as nat).nested()
    }
}

/// The failure with which the evaluation on level `from` ends when the chain runs into
/// the depth limit at its last level: the last level's own failure, handed up from
/// level to level.
pub open spec fn limit_error(levels: Seq<Level>, from: int) -> ErrorView
    decreases levels.len() - from,
{
    let node_id = current(levels[from].graph, levels[from].state).id;
    if from + 1 >= levels.len() {
        recursion_error(node_id)
    } else {
        completion_error(node_id, CompletionView::NestedFailed(limit_error(levels, from + 1)))
    }
}

/// Down to the depth limit, each level of a chain runs one level deeper than the one
/// above it, with the same options and capabilities.
pub proof fn lemma_frame_at(root: Frame, level: nat)
    requires
        root.depth == 0,
        level <= root.options.max_depth,
    ensures
        frame_at(root, level).depth == level,
        frame_at(root, level).options == root.options,
        frame_at(root, level).capabilities == root.capabilities,
    decreases level,
{
    if level > 0 {
        lemma_frame_at(root, (level - 1) as nat);
    }
}

/// A chain of sub-decisions that stays within the depth limit is entered level by
/// level: on each level the evaluation asks the host for the sub-decision of the next.
pub proof fn lemma_chain_within_limit(root: Frame, levels: Seq<Level>, level: int)
    requires
        root.depth == 0,
        root.capabilities.loader,
        levels.len() <= root.options.max_depth,
        0 <= level < levels.len(),
        forall|i: int|
            0 <= i < levels.len() ==> awaits_sub_decision(
                (#[trigger] levels[i]).graph,
                levels[i].state,
            ),
    ensures
        advance(
            levels[level].graph,
            frame_at(root, level as nat),
            levels[level].context,
            levels[level].state,
        ) matches Outcome::Suspended(state, RequestView::SubDecision { frame, .. })
            && state == levels[level].state && frame == frame_at(root, (level + 1) as nat)
            && frame.depth == level + 1 && frame.depth <= root.options.max_depth,
{
    lemma_frame_at(root, level as nat);
    lemma_frame_at(root, (level + 1) as nat);
    lemma_sub_decision_within_limit(
        levels[level].graph,
        frame_at(root, level as nat),
        levels[level].context,
        levels[level].state,
    );
}

/// A chain of sub-decisions one level deeper than the limit allows fails with
/// `RecursionLimitExceeded`. The levels within the limit are entered. On the last level
/// the evaluation fails when the turn of its sub-decision node comes, and asks the host
/// for nothing. That failure is handed up: each level above fails with it in turn, the
/// kind unchanged, up to the evaluation that the caller started.
pub proof fn lemma_chain_beyond_limit(root: Frame, levels: Seq<Level>, level: int)
    requires
        root.depth == 0,
        root.capabilities.loader,
        levels.len() == root.options.max_depth + 1,
        0 <= level < levels.len(),
        forall|i: int|
            0 <= i < levels.len() ==> awaits_sub_decision(
                (#[trigger] levels[i]).graph,
                levels[i].state,
            ),
    ensures
        limit_error(levels, level).kind == ErrorKind::RecursionLimitExceeded,
        limit_error(levels, level).node_id == Some(
            current(levels[level].graph, levels[level].state).id,
        ),
        level + 1 == levels.len() ==> advance(
            levels[level].graph,
            frame_at(root, level as nat),
            levels[level].context,
            levels[level].state,
        ) == Outcome::Finished(Err(limit_error(levels, level))),
        level + 1 < levels.len() ==> {
            &&& advance(
                levels[level].graph,
                frame_at(root, level as nat),
                levels[level].context,
                levels[level].state,
            ) matches Outcome::Suspended(state, RequestView::SubDecision { frame, .. })
                && state == levels[level].state && frame == frame_at(root, (level + 1) as nat)
            &&& resume(
                levels[level].graph,
                frame_at(root, level as nat),
                levels[level].context,
                levels[level].state,
                CompletionView::NestedFailed(limit_error(levels, level + 1)),
            ) == Outcome::Finished(Err(limit_error(levels, level)))
        },
    decreases levels.len() - level,
{
    lemma_frame_at(root, level as nat);
    assert(awaits_sub_decision(levels[level].graph, levels[level].state));
    if level + 1 < levels.len() {
        lemma_chain_beyond_limit(root, levels, level + 1);
        lemma_frame_at(root, (level + 1) as nat);
        lemma_sub_decision_within_limit(
            levels[level].graph,
            frame_at(root, level as nat),
            levels[level].context,
            levels[level].state,
        );
    } else {
        lemma_sub_decision_beyond_limit(
            levels[level].graph,
            frame_at(root, level as nat),
            levels[level].context,
            levels[level].state,
        );
    }
}

} // verus!
