//! The mathematical model of the graph.

use vstd::prelude::*;
use crate::filtering::{lemma_filter_drops_one, lemma_filter_origin};
use crate::position::Position;

verus! {

/// A node: an identifier and a position.
#[derive(Clone, Copy, Debug, PartialEq, Eq, Structural)]
pub struct Node {
    pub id: usize,
    pub position: Position,
}

/// An edge: an identifier and the identifiers of the two nodes it joins.
#[derive(Clone, Copy, Debug, PartialEq, Eq, Structural)]
pub struct Edge {
    pub id: usize,
    pub source: usize,
    pub target: usize,
}

/// The test that a node passes unless its identifier is `id`.
pub open spec fn node_is_not(id: usize) -> spec_fn(Node) -> bool {
    |n: Node| n.id != id
}

/// The test that an edge passes unless its identifier is `id`.
pub open spec fn edge_is_not(id: usize) -> spec_fn(Edge) -> bool {
    |e: Edge| e.id != id
}

/// The test that an edge passes unless it starts or ends at the node `id`.
pub open spec fn edge_avoids(id: usize) -> spec_fn(Edge) -> bool {
    |e: Edge| e.source != id && e.target != id
}

/// What a store holds: the nodes and the edges in the order in which they
/// were added, and the identifiers that the next node and the next edge get.
pub struct GraphView {
    pub nodes: Seq<Node>,
    pub edges: Seq<Edge>,
    pub next_node_id: nat,
    pub next_edge_id: nat,
}

impl GraphView {
    /// No nodes, no edges, both counters at zero.
    pub open spec fn empty() -> GraphView {
        GraphView { nodes: Seq::empty(), edges: Seq::empty(), next_node_id: 0, next_edge_id: 0 }
    }

    /// Some node has the identifier `id`.
    pub open spec fn has_node(self, id: usize) -> bool {
        exists|i: int| 0 <= i < self.nodes.len() && (#[trigger] self.nodes[i]).id == id
    }

    /// Some edge has the identifier `id`.
    pub open spec fn has_edge(self, id: usize) -> bool {
        exists|k: int| 0 <= k < self.edges.len() && (#[trigger] self.edges[k]).id == id
    }

    /// Node identifiers grow along the sequence and lie below the counter.
    pub open spec fn nodes_ordered(self) -> bool {
        &&& forall|i: int, j: int|
            0 <= i < j < self.nodes.len() ==> (#[trigger] self.nodes[i]).id
                < (#[trigger] self.nodes[j]).id
        &&& forall|i: int|
            0 <= i < self.nodes.len() ==> (#[trigger] self.nodes[i]).id < self.next_node_id
    }

    /// Edge identifiers grow along the sequence and lie below the counter.
    pub open spec fn edges_ordered(self) -> bool {
        &&& forall|k: int, l: int|
            0 <= k < l < self.edges.len() ==> (#[trigger] self.edges[k]).id
                < (#[trigger] self.edges[l]).id
        &&& forall|k: int|
            0 <= k < self.edges.len() ==> (#[trigger] self.edges[k]).id < self.next_edge_id
    }

    /// Both ends of every edge are nodes of the graph.
    pub open spec fn edges_attached(self) -> bool {
        forall|k: int|
            0 <= k < self.edges.len() ==> self.has_node((#[trigger] self.edges[k]).source)
                && self.has_node(self.edges[k].target)
    }

    /// The invariant of the store: identifiers are never used twice, the
    /// counters lie above every identifier in use, and no edge dangles.
    pub open spec fn wf(self) -> bool {
        &&& self.nodes_ordered()
        &&& self.edges_ordered()
        &&& self.edges_attached()
    }

    /// One more node can be numbered: the counter is not at its last value, or
    /// it equals the number of nodes, which is a length that the machine can
    /// hold once the node is there.
    pub open spec fn node_id_free(self) -> bool {
        self.next_node_id < usize::MAX || self.next_node_id == self.nodes.len()
    }

    /// One more edge can be numbered: the counter is not at its last value, or
    /// it equals the number of edges, which is a length that the machine can
    /// hold once the edge is there.
    pub open spec fn edge_id_free(self) -> bool {
        self.next_edge_id < usize::MAX || self.next_edge_id == self.edges.len()
    }

    /// The graph with one more node at `position`, under the next identifier.
    pub open spec fn with_node(self, position: Position) -> GraphView {
        GraphView {
            nodes: self.nodes.push(Node { id: self.next_node_id as usize, position }),
            next_node_id: self.next_node_id + 1,
            ..self
        }
    }

    /// The graph with one more edge from `source` to `target`, under the next
    /// identifier.
    pub open spec fn with_edge(self, source: usize, target: usize) -> GraphView {
        GraphView {
            edges: self.edges.push(Edge { id: self.next_edge_id as usize, source, target }),
            next_edge_id: self.next_edge_id + 1,
            ..self
        }
    }

    /// The graph in which every node with identifier `id` stands at
    /// `position`, and nothing else has changed.
    pub open spec fn with_position(self, id: usize, position: Position) -> GraphView {
        GraphView {
            nodes: Seq::new(
                self.nodes.len(),
                |i: int|
                    if self.nodes[i].id == id {
                        Node { id, position }
                    } else {
                        self.nodes[i]
                    },
            ),
            ..self
        }
    }

    /// The graph without the node `id` and without the edges that start or
    /// end there. The counters stay.
    pub open spec fn without_node(self, id: usize) -> GraphView {
        GraphView {
            nodes: self.nodes.filter(node_is_not(id)),
            edges: self.edges.filter(edge_avoids(id)),
            ..self
        }
    }

    /// The graph without the edge `id`. The counters stay.
    pub open spec fn without_edge(self, id: usize) -> GraphView {
        GraphView { edges: self.edges.filter(edge_is_not(id)), ..self }
    }

    /// The graph with its nodes spread over the layout circle: the node at
    /// index `i` of `k` nodes takes slot `i` of `k`.
    pub open spec fn aligned(self) -> GraphView {
        GraphView {
            nodes: Seq::new(
                self.nodes.len(),
                |i: int|
                    Node {
                        id: self.nodes[i].id,
                        position: Position::Ring {
                            slot: i as usize,
                            slots: self.nodes.len() as usize,
                        },
                    },
            ),
            ..self
        }
    }
}

/// Adding a node keeps the invariant, as long as the counter can advance.
pub proof fn lemma_with_node_wf(g: GraphView, position: Position)
    requires
        g.wf(),
        g.next_node_id < usize::MAX,
    ensures
        g.with_node(position).wf(),
{
    let h = g.with_node(position);
    assert forall|k: int| 0 <= k < h.edges.len() implies h.has_node((#[trigger] h.edges[k]).source)
        && h.has_node(h.edges[k].target) by {
        let s = choose|i: int| 0 <= i < g.nodes.len() && (#[trigger] g.nodes[i]).id == g.edges[k].source;
        let t = choose|i: int| 0 <= i < g.nodes.len() && (#[trigger] g.nodes[i]).id == g.edges[k].target;
        assert(h.nodes[s].id == h.edges[k].source);
        assert(h.nodes[t].id == h.edges[k].target);
    }
}

/// Adding an edge between two nodes of the graph keeps the invariant, as long
/// as the counter can advance.
pub proof fn lemma_with_edge_wf(g: GraphView, source: usize, target: usize)
    requires
        g.wf(),
        g.has_node(source),
        g.has_node(target),
        g.next_edge_id < usize::MAX,
    ensures
        g.with_edge(source, target).wf(),
{
}

/// In a graph that meets the invariant, deleting the node that stands at
/// index `at` takes that one element out of the sequence of nodes.
pub proof fn lemma_without_node_removes(g: GraphView, at: int)
    requires
        g.nodes_ordered(),
        0 <= at < g.nodes.len(),
    ensures
        g.without_node(g.nodes[at].id).nodes == g.nodes.remove(at),
{
    let id = g.nodes[at].id;
    lemma_filter_drops_one(g.nodes, node_is_not(id), at);
}

/// In a graph that meets the invariant, deleting the edge that stands at
/// index `at` takes that one element out of the sequence of edges.
pub proof fn lemma_without_edge_removes(g: GraphView, at: int)
    requires
        g.edges_ordered(),
        0 <= at < g.edges.len(),
    ensures
        g.without_edge(g.edges[at].id).edges == g.edges.remove(at),
{
    let id = g.edges[at].id;
    lemma_filter_drops_one(g.edges, edge_is_not(id), at);
}

/// A filter on the edges keeps their identifiers in order and below the
/// counter, and keeps only edges that were there and pass the filter.
pub proof fn lemma_filtered_edges(g: GraphView, keep: spec_fn(Edge) -> bool)
    requires
        g.edges_ordered(),
    ensures
        (GraphView { edges: g.edges.filter(keep), ..g }).edges_ordered(),
        forall|k: int|
            0 <= k < g.edges.filter(keep).len() ==> keep(#[trigger] g.edges.filter(keep)[k])
                && g.edges.contains(g.edges.filter(keep)[k]),
{
    let kept = g.edges.filter(keep);
    let origin = lemma_filter_origin(g.edges, keep);
    assert forall|k: int, l: int| 0 <= k < l < kept.len() implies (#[trigger] kept[k]).id < (
    #[trigger] kept[l]).id by {
        assert(origin[k] < origin[l]);
        assert(g.edges[origin[k]].id < g.edges[origin[l]].id);
    }
    assert forall|k: int| 0 <= k < kept.len() implies (#[trigger] kept[k]).id < g.next_edge_id
        && keep(kept[k]) && g.edges.contains(kept[k]) by {
        assert(g.edges[origin[k]] == kept[k]);
    }
}

/// Deleting a node keeps the invariant: no edge is left dangling.
pub proof fn lemma_without_node_wf(g: GraphView, id: usize)
    requires
        g.wf(),
        g.has_node(id),
    ensures
        g.without_node(id).wf(),
{
    let h = g.without_node(id);
    let at = choose|i: int| 0 <= i < g.nodes.len() && (#[trigger] g.nodes[i]).id == id;
    lemma_without_node_removes(g, at);
    lemma_filtered_edges(g, edge_avoids(id));
    assert forall|i: int| 0 <= i < h.nodes.len() implies #[trigger] h.nodes[i] == g.nodes[if i
        < at {
        i
    } else {
        i + 1
    }] by {}
    assert forall|i: int, j: int| 0 <= i < j < h.nodes.len() implies (#[trigger] h.nodes[i]).id < (
    #[trigger] h.nodes[j]).id by {
        let i2 = if i < at { i } else { i + 1 };
        let j2 = if j < at { j } else { j + 1 };
        assert(g.nodes[i2].id < g.nodes[j2].id);
    }
    assert forall|i: int| 0 <= i < h.nodes.len() implies (#[trigger] h.nodes[i]).id
        < h.next_node_id by {
        let i2 = if i < at { i } else { i + 1 };
        assert(g.nodes[i2].id < g.next_node_id);
    }
    assert forall|k: int| 0 <= k < h.edges.len() implies h.has_node((#[trigger] h.edges[k]).source)
        && h.has_node(h.edges[k].target) by {
        let e = h.edges[k];
        assert(g.edges.contains(e));
        let m = choose|m: int| 0 <= m < g.edges.len() && g.edges[m] == e;
        assert(g.has_node(g.edges[m].source) && g.has_node(g.edges[m].target));
        let s = choose|i: int| 0 <= i < g.nodes.len() && (#[trigger] g.nodes[i]).id == e.source;
        let t = choose|i: int| 0 <= i < g.nodes.len() && (#[trigger] g.nodes[i]).id == e.target;
        let s2 = if s < at { s } else { s - 1 };
        let t2 = if t < at { t } else { t - 1 };
        assert(h.nodes[s2].id == e.source);
        assert(h.nodes[t2].id == e.target);
    }
    assert(h.edges_ordered()) by {
        let f = GraphView { edges: g.edges.filter(edge_avoids(id)), ..g };
        assert(f.edges_ordered());
        assert(f.edges == h.edges);
    }
}

/// Deleting an edge keeps the invariant.
pub proof fn lemma_without_edge_wf(g: GraphView, id: usize)
    requires
        g.wf(),
    ensures
        g.without_edge(id).wf(),
{
    let h = g.without_edge(id);
    lemma_filtered_edges(g, edge_is_not(id));
    assert forall|k: int| 0 <= k < h.edges.len() implies h.has_node((#[trigger] h.edges[k]).source)
        && h.has_node(h.edges[k].target) by {
        let e = h.edges[k];
        assert(g.edges.contains(e));
        let m = choose|m: int| 0 <= m < g.edges.len() && g.edges[m] == e;
        assert(g.has_node(g.edges[m].source) && g.has_node(g.edges[m].target));
    }
}

/// Moving a node keeps the invariant.
pub proof fn lemma_with_position_wf(g: GraphView, id: usize, position: Position)
    requires
        g.wf(),
    ensures
        g.with_position(id, position).wf(),
{
    let h = g.with_position(id, position);
    assert forall|i: int| 0 <= i < h.nodes.len() implies (#[trigger] h.nodes[i]).id
        == g.nodes[i].id by {}
    lemma_same_ids_wf(g, h);
}

/// Spreading the nodes over the layout circle keeps the invariant.
pub proof fn lemma_aligned_wf(g: GraphView)
    requires
        g.wf(),
    ensures
        g.aligned().wf(),
{
    let h = g.aligned();
    assert forall|i: int| 0 <= i < h.nodes.len() implies (#[trigger] h.nodes[i]).id
        == g.nodes[i].id by {}
    lemma_same_ids_wf(g, h);
}

/// A graph that differs from one that meets the invariant only in the
/// positions of its nodes meets the invariant too.
pub proof fn lemma_same_ids_wf(g: GraphView, h: GraphView)
    requires
        g.wf(),
        h.edges == g.edges,
        h.next_node_id == g.next_node_id,
        h.next_edge_id == g.next_edge_id,
        h.nodes.len() == g.nodes.len(),
        forall|i: int| 0 <= i < h.nodes.len() ==> (#[trigger] h.nodes[i]).id == g.nodes[i].id,
    ensures
        h.wf(),
{
    assert forall|i: int, j: int| 0 <= i < j < h.nodes.len() implies (#[trigger] h.nodes[i]).id < (
    #[trigger] h.nodes[j]).id by {
        assert(g.nodes[i].id < g.nodes[j].id);
    }
    assert forall|i: int| 0 <= i < h.nodes.len() implies (#[trigger] h.nodes[i]).id
        < h.next_node_id by {
        assert(g.nodes[i].id < g.next_node_id);
    }
    assert forall|k: int| 0 <= k < h.edges.len() implies h.has_node((#[trigger] h.edges[k]).source)
        && h.has_node(h.edges[k].target) by {
        let e = g.edges[k];
        let s = choose|i: int| 0 <= i < g.nodes.len() && (#[trigger] g.nodes[i]).id == e.source;
        let t = choose|i: int| 0 <= i < g.nodes.len() && (#[trigger] g.nodes[i]).id == e.target;
        assert(h.nodes[s].id == e.source);
        assert(h.nodes[t].id == e.target);
    }
}

} // verus!
