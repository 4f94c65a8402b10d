use crate::error::{EngineError, ErrorKind, ErrorView};
use crate::model::{nodes_view, ContentView, DecisionContent, Edge, EdgeView, Node, NodeView};
use crate::schedule::{
    acyclic, is_declaration_first, is_schedule, links_in_range, plan, Link,
};
use vstd::prelude::*;

verus! {

/// No two nodes share an identity.
pub open spec fn ids_distinct(nodes: Seq<NodeView>) -> bool {
    forall|i: int, j: int|
        0 <= i < nodes.len() && 0 <= j < nodes.len() && i != j ==> (#[trigger] nodes[i]).id
            != (#[trigger] nodes[j]).id
}

/// The position of the first node whose identity is `id`, if there is one.
pub open spec fn find_node(nodes: Seq<NodeView>, id: Seq<char>) -> Option<int>
    decreases nodes.len(),
{
    if nodes.len() == 0 {
        None
    } else {
        match find_node(nodes.drop_last(), id) {
            Some(i) => Some(i),
            None => if nodes.last().id == id {
                Some(nodes.len() - 1)
            } else {
                None
            },
        }
    }
}

/// Both ends of the edge are nodes of the graph.
pub open spec fn edge_resolves(nodes: Seq<NodeView>, edge: EdgeView) -> bool {
    find_node(nodes, edge.source_id) is Some && find_node(nodes, edge.target_id) is Some
}

/// Every edge joins two nodes of the graph.
pub open spec fn edges_resolve(nodes: Seq<NodeView>, edges: Seq<EdgeView>) -> bool {
    forall|l: int| 0 <= l < edges.len() ==> edge_resolves(nodes, #[trigger] edges[l])
}

/// The edge with its ends replaced by the positions of the nodes they name.
pub open spec fn resolve(nodes: Seq<NodeView>, edge: EdgeView) -> Link {
    Link {
        source: find_node(nodes, edge.source_id).unwrap() as usize,
        target: find_node(nodes, edge.target_id).unwrap() as usize,
    }
}

/// The edges, in their declared order, as links between node positions.
pub open spec fn resolve_all(nodes: Seq<NodeView>, edges: Seq<EdgeView>) -> Seq<Link> {
    Seq::new(edges.len(), |l: int| resolve(nodes, edges[l]))
}

impl ContentView {
    /// What is wrong with the graph, by the first of three checks that it fails:
    /// identities are unique, edges join existing nodes, there is no cycle.
    pub open spec fn fault(self) -> Option<Seq<char>> {
        if !ids_distinct(self.nodes) {
            Some("node identities are not unique"@)
        } else if !edges_resolve(self.nodes, self.edges) {
            Some("an edge names a node that is not in the graph"@)
        } else if !acyclic(self.nodes.len(), resolve_all(self.nodes, self.edges)) {
            Some("the graph has a cycle"@)
        } else {
            None
        }
    }

    /// The graph can be evaluated.
    pub open spec fn valid(self) -> bool {
        self.fault() is None
    }
}

/// Mathematical model of a [`Decision`]: the nodes, the edges between their positions,
/// and the order in which an evaluation runs them.
pub struct Graph {
    pub nodes: Seq<NodeView>,
    pub links: Seq<Link>,
    pub schedule: Seq<usize>,
}

impl Graph {
    /// What holds of every decision: identities are unique, edges join nodes of the
    /// graph, and the schedule runs every node once, after the nodes that feed it, taking
    /// at each step the ready node that was declared first.
    pub open spec fn wf(self) -> bool {
        &&& ids_distinct(self.nodes)
        &&& links_in_range(self.nodes.len(), self.links)
        &&& is_schedule(self.nodes.len(), self.links, self.schedule)
        &&& is_declaration_first(self.links, self.schedule)
    }
}

/// A decision graph that has been checked and can be evaluated any number of times.
#[derive(Debug)]
pub struct Decision {
    nodes: Vec<Node>,
    links: Vec<Link>,
    schedule: Vec<usize>,
}

impl View for Decision {
    type V = Graph;

    closed spec fn view(&self) -> Graph {
        Graph { nodes: nodes_view(self.nodes@), links: self.links@, schedule: self.schedule@ }
    }
}

/// What `find_node` finds, said without recursion.
pub proof fn lemma_find_node(nodes: Seq<NodeView>, id: Seq<char>)
    ensures
        match find_node(nodes, id) {
            Some(i) => 0 <= i < nodes.len() && nodes[i].id == id && forall|j: int|
                0 <= j < i ==> nodes[j].id != id,
            None => forall|j: int| 0 <= j < nodes.len() ==> nodes[j].id != id,
        },
    decreases nodes.len(),
{
    if nodes.len() > 0 {
        let front = nodes.drop_last();
        lemma_find_node(front, id);
        assert(forall|j: int| 0 <= j < front.len() ==> front[j] == nodes[j]);
    }
}

/// The position of the first node whose identity is `id`.
fn find(nodes: &Vec<Node>, id: &String) -> (found: Option<usize>)
    ensures
        match found {
            Some(i) => i < nodes.len() && find_node(nodes_view(nodes@), id@) == Some(i as int),
            None => find_node(nodes_view(nodes@), id@) is None,
        },
{
    proof {
        lemma_find_node(nodes_view(nodes@), id@);
    }
    let mut i: usize = 0;
    while i < nodes.len()
        invariant
            i <= nodes.len(),
            forall|j: int| 0 <= j < i ==> (#[trigger] nodes_view(nodes@)[j]).id != id@,
        decreases nodes.len() - i,
    {
        if nodes[i].id == *id {
            proof {
                assert(nodes_view(nodes@)[i as int].id == id@);
                lemma_find_node(nodes_view(nodes@), id@);
            }
            return Some(i);
        }
        i += 1;
    }
    None
}

/// Whether no two nodes share an identity.
fn distinct(nodes: &Vec<Node>) -> (yes: bool)
    ensures
        yes == ids_distinct(nodes_view(nodes@)),
{
    let ghost view = nodes_view(nodes@);
    let mut i: usize = 0;
    while i < nodes.len()
        invariant
            i <= nodes.len(),
            view == nodes_view(nodes@),
            forall|a: int, b: int|
                0 <= b < a < i ==> (#[trigger] view[a]).id != (#[trigger] view[b]).id,
        decreases nodes.len() - i,
    {
        let mut j: usize = 0;
        while j < i
            invariant
                j <= i < nodes.len(),
                view == nodes_view(nodes@),
                forall|b: int| 0 <= b < j ==> view[i as int].id != (#[trigger] view[b]).id,
            decreases i - j,
        {
            if nodes[i].id == nodes[j].id {
                assert(view[i as int].id == view[j as int].id);
                return false;
            }
            j += 1;
        }
        i += 1;
    }
    assert forall|a: int, b: int| 0 <= a < view.len() && 0 <= b < view.len() && a != b implies (
    #[trigger] view[a]).id != (#[trigger] view[b]).id by {
        if a < b {
            assert(view[b].id != view[a].id);
        }
    }
    true
}

/// The edges as links between node positions; `None` where an end names no node.
fn link_all(nodes: &Vec<Node>, edges: &Vec<Edge>) -> (linked: Option<Vec<Link>>)
    ensures
        match linked {
            Some(links) => {
                &&& edges_resolve(nodes_view(nodes@), crate::model::edges_view(edges@))
                &&& links@ == resolve_all(nodes_view(nodes@), crate::model::edges_view(edges@))
                &&& links_in_range(nodes.len() as nat, links@)
            },
            None => !edges_resolve(nodes_view(nodes@), crate::model::edges_view(edges@)),
        },
{
    let ghost nv = nodes_view(nodes@);
    let ghost ev = crate::model::edges_view(edges@);
    let mut links: Vec<Link> = Vec::new();
    let mut l: usize = 0;
    while l < edges.len()
        invariant
            l <= edges.len(),
            nv == nodes_view(nodes@),
            ev == crate::model::edges_view(edges@),
            links.len() == l,
            forall|m: int| 0 <= m < l ==> edge_resolves(nv, #[trigger] ev[m]),
            forall|m: int| 0 <= m < l ==> #[trigger] links@[m] == resolve(nv, ev[m]),
            forall|m: int|
                0 <= m < l ==> (#[trigger] links@[m]).source < nodes.len() && links@[m].target
                    < nodes.len(),
        decreases edges.len() - l,
    {
        let source = find(nodes, &edges[l].source_id);
        let target = find(nodes, &edges[l].target_id);
        assert(ev[l as int] == edges@[l as int]@);
        match (source, target) {
            (Some(s), Some(t)) => {
                links.push(Link { source: s, target: t });
            },
            _ => {
                assert(!edge_resolves(nv, ev[l as int]));
                return None;
            },
        }
        l += 1;
    }
    assert(links@ =~= resolve_all(nv, ev));
    Some(links)
}

impl Decision {
    #[verifier::type_invariant]
    spec fn well_formed(&self) -> bool {
        self@.wf()
    }

    /// Checks a loaded graph and makes it a decision. It is accepted exactly when its
    /// node identities are unique, its edges join nodes of the graph, and it has no cycle.
    pub fn new(content: DecisionContent) -> (made: Result<Decision, EngineError>)
        ensures
            match made {
                Ok(decision) => {
                    &&& content@.valid()
                    &&& decision@.wf()
                    &&& decision@.nodes == content@.nodes
                    &&& decision@.links == resolve_all(content@.nodes, content@.edges)
                },
                Err(error) => {
                    &&& content@.fault() is Some
                    &&& error@ == (ErrorView {
                        kind: ErrorKind::ContentDeserialization,
                        node_id: None,
                        message: content@.fault().unwrap(),
                    })
                },
            },
    {
        if !distinct(&content.nodes) {
            return Err(
                EngineError::global(
                    ErrorKind::ContentDeserialization,
                    "node identities are not unique",
                ),
            );
        }
        let links = match link_all(&content.nodes, &content.edges) {
            Some(links) => links,
            None => {
                return Err(
                    EngineError::global(
                        ErrorKind::ContentDeserialization,
                        "an edge names a node that is not in the graph",
                    ),
                );
            },
        };
        let schedule = match plan(content.nodes.len(), &links) {
            Some(schedule) => schedule,
            None => {
                return Err(
                    EngineError::global(ErrorKind::ContentDeserialization, "the graph has a cycle"),
                );
            },
        };
        Ok(Decision { nodes: content.nodes, links, schedule })
    }

    /// The nodes, in their declared order.
    pub fn nodes(&self) -> (nodes: &Vec<Node>)
        ensures
            nodes_view(nodes@) == self@.nodes,
            self@.wf(),
    {
        proof {
            use_type_invariant(self);
        }
        &self.nodes
    }

    /// The edges, in their declared order, between node positions.
    pub fn links(&self) -> (links: &Vec<Link>)
        ensures
            links@ == self@.links,
            self@.wf(),
    {
        proof {
            use_type_invariant(self);
        }
        &self.links
    }

    /// The order in which an evaluation runs the nodes.
    pub fn schedule(&self) -> (schedule: &Vec<usize>)
        ensures
            schedule@ == self@.schedule,
            self@.wf(),
    {
        proof {
            use_type_invariant(self);
        }
        &self.schedule
    }
}

} // verus!
