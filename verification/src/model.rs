use crate::value::{Json, Value};
use vstd::prelude::*;

verus! {

/// The data of a scripting node in the current data format.
#[derive(Debug, Clone, PartialEq, Eq)]
pub struct FunctionContent {
    pub source: String,
}

/// What a node is, with the data that its kind needs.
#[derive(Debug, Clone, PartialEq, Eq)]
pub enum NodeKind {
    /// Hands the context of the evaluation to the graph.
    Input,
    /// Collects what the evaluation returns.
    Output,
    /// A scripting node whose data is the bare source text.
    FunctionV1 { source: String },
    /// A scripting node in the current data format.
    FunctionV2 { content: FunctionContent },
    /// Evaluates another decision, found by its key.
    SubDecision { key: String },
    /// A kind that the engine does not know; the embedder's dispatcher runs it.
    Custom { kind: String, config: Value },
    /// An outbound request, made by the embedder's network handler.
    HttpRequest { config: Value },
}

/// A node of a decision graph.
#[derive(Debug, Clone, PartialEq, Eq)]
pub struct Node {
    pub id: String,
    pub name: String,
    pub kind: NodeKind,
}

/// A data edge, by the identities of the nodes it joins.
#[derive(Debug, Clone, PartialEq, Eq)]
pub struct Edge {
    pub source_id: String,
    pub target_id: String,
}

/// A decision graph as it was loaded: nothing has been checked yet.
#[derive(Debug, Clone, PartialEq, Eq)]
pub struct DecisionContent {
    pub nodes: Vec<Node>,
    pub edges: Vec<Edge>,
}

/// Mathematical model of a [`NodeKind`].
pub enum KindView {
    Input,
    Output,
    FunctionV1 { source: Seq<char> },
    FunctionV2 { source: Seq<char> },
    SubDecision { key: Seq<char> },
    Custom { kind: Seq<char>, config: Json },
    HttpRequest { config: Json },
}

/// Mathematical model of a [`Node`].
pub struct NodeView {
    pub id: Seq<char>,
    pub name: Seq<char>,
    pub kind: KindView,
}

/// Mathematical model of an [`Edge`].
pub struct EdgeView {
    pub source_id: Seq<char>,
    pub target_id: Seq<char>,
}

/// Mathematical model of a [`DecisionContent`].
pub struct ContentView {
    pub nodes: Seq<NodeView>,
    pub edges: Seq<EdgeView>,
}

impl View for NodeKind {
    type V = KindView;

    open spec fn view(&self) -> KindView {
        match self {
            NodeKind::Input => KindView::Input,
            NodeKind::Output => KindView::Output,
            NodeKind::FunctionV1 { source } => KindView::FunctionV1 { source: source@ },
            NodeKind::FunctionV2 { content } => KindView::FunctionV2 { source: content.source@ },
            NodeKind::SubDecision { key } => KindView::SubDecision { key: key@ },
            NodeKind::Custom { kind, config } => KindView::Custom { kind: kind@, config: config@ },
            NodeKind::HttpRequest { config } => KindView::HttpRequest { config: config@ },
        }
    }
}

impl View for Node {
    type V = NodeView;

    open spec fn view(&self) -> NodeView {
        NodeView { id: self.id@, name: self.name@, kind: self.kind@ }
    }
}

impl View for Edge {
    type V = EdgeView;

    open spec fn view(&self) -> EdgeView {
        EdgeView { source_id: self.source_id@, target_id: self.target_id@ }
    }
}

/// The nodes of a list as the model sees them.
pub open spec fn nodes_view(nodes: Seq<Node>) -> Seq<NodeView> {
    Seq::new(nodes.len(), |i: int| nodes[i]@)
}

/// The edges of a list as the model sees them.
pub open spec fn edges_view(edges: Seq<Edge>) -> Seq<EdgeView> {
    Seq::new(edges.len(), |i: int| edges[i]@)
}

impl View for DecisionContent {
    type V = ContentView;

    open spec fn view(&self) -> ContentView {
        ContentView { nodes: nodes_view(self.nodes@), edges: edges_view(self.edges@) }
    }
}

} // verus!
