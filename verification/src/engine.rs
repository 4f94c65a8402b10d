use crate::decision::{resolve_all, Decision, Graph};
use crate::error::{EngineError, ErrorKind, ErrorView};
use crate::evaluation::Progress;
use crate::laws::keeps_trace;
use crate::machine::{begin, EvaluationOptions, EvaluationTraceKind, Frame};
use crate::model::DecisionContent;
use crate::registry::{Capabilities, CapabilityRegistry};
use crate::value::{Json, Value};
use vstd::prelude::*;

verus! {

/// How deep sub-decisions may nest below an evaluation that the adapter starts.
pub const MAX_DEPTH: u32 = 5;

/// Whether the context asks for a trace: it does where it has a member `trace` that is
/// the boolean `true`.
pub open spec fn trace_requested(context: Json) -> bool {
    match context.get("trace"@) {
        Some(flag) => match flag.as_bool() {
            Some(requested) => requested,
            None => false,
        },
        None => false,
    }
}

/// The options under which the adapter evaluates `context`.
pub open spec fn options_for(context: Json) -> EvaluationOptions {
    EvaluationOptions {
        trace: if trace_requested(context) {
            EvaluationTraceKind::Default
        } else {
            EvaluationTraceKind::Off
        },
        max_depth: MAX_DEPTH,
    }
}

/// The frame in which the adapter evaluates `context`, given what the registry offers.
pub open spec fn frame_for(capabilities: Capabilities, context: Json) -> Frame {
    Frame { capabilities, options: options_for(context), depth: 0 }
}

/// The engine as a host sees it: one decision, evaluated on one context after another.
#[derive(Debug)]
pub struct ZenEngine {
    decision: Decision,
}

impl ZenEngine {
    /// The graph of the engine's decision.
    pub closed spec fn graph(&self) -> Graph {
        self.decision@
    }

    /// Makes an engine from a loaded graph. The graph is refused, with a
    /// content-deserialization error, unless its node identities are unique, its edges
    /// join nodes of the graph, and it has no cycle.
    pub fn new(content: DecisionContent) -> (made: Result<ZenEngine, EngineError>)
        ensures
            match made {
                Ok(engine) => {
                    &&& content@.valid()
                    &&& engine.graph().wf()
                    &&& engine.graph().nodes == content@.nodes
                    &&& engine.graph().links == resolve_all(content@.nodes, content@.edges)
                },
                Err(error) => {
                    &&& content@.fault() is Some
                    &&& error@ == (ErrorView {
                        kind: ErrorKind::ContentDeserialization,
                        node_id: None,
                        message: content@.fault().unwrap(),
                    })
                },
            },
    {
        match Decision::new(content) {
            Ok(decision) => Ok(ZenEngine { decision }),
            Err(error) => Err(error),
        }
    }

    /// The options that the context asks for.
    pub fn options(context: &Value) -> (options: EvaluationOptions)
        ensures
            options == options_for(context@),
    {
        let requested = match context.get("trace") {
            Some(flag) => match flag.as_bool() {
                Some(requested) => requested,
                None => false,
            },
            None => false,
        };
        EvaluationOptions {
            trace: if requested {
                EvaluationTraceKind::Default
            } else {
                EvaluationTraceKind::Off
            },
            max_depth: MAX_DEPTH,
        }
    }

    /// Evaluates the decision on `context` for a host that has injected no capability.
    /// The evaluation is traced where the context asks for it, and sub-decisions may nest
    /// `MAX_DEPTH` deep.
    pub fn evaluate<'a>(&'a self, context: Value) -> (progress: Progress<'a>)
        ensures
            progress.outcome() == begin(
                self.graph(),
                frame_for(
                    Capabilities {
                        logging: false,
                        network: false,
                        custom_node: false,
                        loader: false,
                    },
                    context@,
                ),
                context@,
            ),
            progress.continues(
                self.graph(),
                frame_for(
                    Capabilities {
                        logging: false,
                        network: false,
                        custom_node: false,
                        loader: false,
                    },
                    context@,
                ),
                context@,
            ),
    {
        let registry: CapabilityRegistry<(), (), ()> = CapabilityRegistry::new();
        self.evaluate_with(&registry, context)
    }

    /// Evaluates the decision on `context` with the capabilities of `registry`.
    pub fn evaluate_with<'a, L, C, H>(
        &'a self,
        registry: &CapabilityRegistry<L, C, H>,
        context: Value,
    ) -> (progress: Progress<'a>)
        ensures
            progress.outcome() == begin(
                self.graph(),
                frame_for(registry.offered(), context@),
                context@,
            ),
            progress.continues(self.graph(), frame_for(registry.offered(), context@), context@),
            keeps_trace(self.graph(), frame_for(registry.offered(), context@), progress.outcome()),
    {
        let options = ZenEngine::options(&context);
        self.decision.evaluate(registry, context, options)
    }
}

} // verus!
