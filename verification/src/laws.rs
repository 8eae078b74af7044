//! What holds of the operations taken together, stated over the model.

use vstd::prelude::*;
use crate::filtering::lemma_filter_origin;
use crate::model::{edge_avoids, lemma_with_node_wf, lemma_without_node_removes, node_is_not, Edge,
    GraphView, Node};
use crate::pairs::pair_count;
use crate::position::{Position, GRID_STEP};

verus! {

impl GraphView {
    /// The graph after one node was added at each of the given positions, in
    /// their order.
    pub open spec fn with_nodes(self, positions: Seq<Position>) -> GraphView
        decreases positions.len(),
    {
        if positions.len() == 0 {
            self
        } else {
            self.with_nodes(positions.drop_last()).with_node(positions.last())
        }
    }
}

/// Nodes that are added one after the other get identifiers that count up
/// from the counter, one by one: the `i`-th of them gets the counter's value
/// plus `i`. Nothing else changes, and the invariant is kept.
pub proof fn lemma_added_nodes_count_up(g: GraphView, positions: Seq<Position>)
    requires
        g.wf(),
        g.next_node_id + positions.len() <= usize::MAX,
    ensures
        g.with_nodes(positions).wf(),
        g.with_nodes(positions).edges == g.edges,
        g.with_nodes(positions).next_edge_id == g.next_edge_id,
        g.with_nodes(positions).next_node_id == g.next_node_id + positions.len(),
        g.with_nodes(positions).nodes.len() == g.nodes.len() + positions.len(),
        forall|i: int|
            0 <= i < g.nodes.len() ==> #[trigger] g.with_nodes(positions).nodes[i] == g.nodes[i],
        forall|i: int|
            0 <= i < positions.len() ==> #[trigger] g.with_nodes(positions).nodes[g.nodes.len() + i]
                == (Node { id: (g.next_node_id + i) as usize, position: positions[i] }),
    decreases positions.len(),
{
    if positions.len() > 0 {
        let front = positions.drop_last();
        lemma_added_nodes_count_up(g, front);
        lemma_with_node_wf(g.with_nodes(front), positions.last());
    }
}

/// In an empty store, and so after a reset, the identifiers of the nodes that
/// are added start at zero and grow by one: the `i`-th node gets `i`.
pub proof fn lemma_node_ids_start_at_zero(positions: Seq<Position>)
    requires
        positions.len() <= usize::MAX,
    ensures
        GraphView::empty().with_nodes(positions).nodes.len() == positions.len(),
        forall|i: int|
            0 <= i < positions.len() ==> #[trigger] GraphView::empty().with_nodes(positions).nodes[i]
                == (Node { id: i as usize, position: positions[i] }),
{
    lemma_added_nodes_count_up(GraphView::empty(), positions);
    assert forall|i: int| 0 <= i < positions.len() implies #[trigger] GraphView::empty().with_nodes(
        positions,
    ).nodes[i] == (Node { id: i as usize, position: positions[i] }) by {
        assert(GraphView::empty().with_nodes(positions).nodes[GraphView::empty().nodes.len() + i]
            == (Node { id: (0 + i) as usize, position: positions[i] }));
    }
}

/// A node that is added gets an identifier above that of every node of the
/// graph, whatever was added and deleted before.
pub proof fn lemma_new_node_id_is_fresh(g: GraphView, position: Position)
    requires
        g.wf(),
        g.next_node_id <= usize::MAX,
    ensures
        !g.has_node(g.next_node_id as usize),
        forall|i: int|
            0 <= i < g.nodes.len() ==> (#[trigger] g.nodes[i]).id < g.with_node(
                position,
            ).nodes.last().id,
{
}

/// The first node that is added to an empty store, and so the first after a
/// reset, has the identifier zero.
pub proof fn lemma_first_node_after_reset(position: Position)
    ensures
        GraphView::empty().nodes.len() == 0,
        GraphView::empty().edges.len() == 0,
        GraphView::empty().with_node(position).nodes =~= seq![Node { id: 0, position }],
{
}

/// Deleting a node takes away that node, the edges that start or end there,
/// and nothing else: every other node and every other edge stays, and
/// nothing new appears. The counters stay too.
pub proof fn lemma_delete_node_exact(g: GraphView, id: usize)
    requires
        g.wf(),
        g.has_node(id),
    ensures
        g.without_node(id).nodes.len() == g.nodes.len() - 1,
        !g.without_node(id).has_node(id),
        forall|n: Node| #[trigger]
            g.without_node(id).nodes.contains(n) <==> g.nodes.contains(n) && n.id != id,
        forall|e: Edge| #[trigger]
            g.without_node(id).edges.contains(e) <==> g.edges.contains(e) && e.source != id
                && e.target != id,
        g.without_node(id).next_node_id == g.next_node_id,
        g.without_node(id).next_edge_id == g.next_edge_id,
{
    let h = g.without_node(id);
    let at = choose|i: int| 0 <= i < g.nodes.len() && (#[trigger] g.nodes[i]).id == id;
    lemma_without_node_removes(g, at);
    let from_node = lemma_filter_origin(g.nodes, node_is_not(id));
    let from_edge = lemma_filter_origin(g.edges, edge_avoids(id));
    assert forall|n: Node| #[trigger] h.nodes.contains(n) <==> g.nodes.contains(n) && n.id
        != id by {
        if h.nodes.contains(n) {
            let k = choose|k: int| 0 <= k < h.nodes.len() && h.nodes[k] == n;
            assert(g.nodes[from_node[k]] == n);
        }
        if g.nodes.contains(n) && n.id != id {
            let i = choose|i: int| 0 <= i < g.nodes.len() && g.nodes[i] == n;
            let k = choose|k: int| 0 <= k < from_node.len() && #[trigger] from_node[k] == i;
            assert(h.nodes[k] == n);
        }
    }
    assert forall|e: Edge| #[trigger] h.edges.contains(e) <==> g.edges.contains(e) && e.source
        != id && e.target != id by {
        if h.edges.contains(e) {
            let k = choose|k: int| 0 <= k < h.edges.len() && h.edges[k] == e;
            assert(g.edges[from_edge[k]] == e);
        }
        if g.edges.contains(e) && e.source != id && e.target != id {
            let i = choose|i: int| 0 <= i < g.edges.len() && g.edges[i] == e;
            let k = choose|k: int| 0 <= k < from_edge.len() && #[trigger] from_edge[k] == i;
            assert(h.edges[k] == e);
        }
    }
    if h.has_node(id) {
        let k = choose|k: int| 0 <= k < h.nodes.len() && (#[trigger] h.nodes[k]).id == id;
        assert(h.nodes.contains(h.nodes[k]));
    }
}

/// In the complete graph on `n` nodes, node `i` stands at the point
/// `(i * GRID_STEP, i * GRID_STEP)`, and there are `n * (n - 1) / 2` edges,
/// each numbered by its place.
pub proof fn lemma_complete_graph_shape(g: GraphView, n: nat)
    requires
        g.is_complete(n),
        n <= usize::MAX,
    ensures
        g.nodes.len() == n,
        forall|i: int|
            0 <= i < n ==> (#[trigger] g.nodes[i]).id == i && g.nodes[i].position.grid_point() == (
                (i * GRID_STEP) as nat,
                (i * GRID_STEP) as nat,
            ),
        g.edges.len() == n * (n - 1) / 2,
        forall|k: int| 0 <= k < g.edges.len() ==> (#[trigger] g.edges[k]).id == k,
{
    assert(pair_count(n) == n * (n - 1) / 2) by {
        assert(n * (n - 1) >= 0) by (nonlinear_arith)
            requires
                n >= 0,
        ;
    }
}

/// After the layout the nodes stand on the circle at equal distances: of `k`
/// nodes, the one at index `i` stands `i` `k`-th parts of a full turn from
/// the positive x direction, so each two neighbours are one `k`-th of a turn
/// apart. Identifiers, edges and counters are as before.
pub proof fn lemma_aligned_is_evenly_spaced(g: GraphView)
    requires
        g.nodes.len() <= usize::MAX,
    ensures
        g.aligned().nodes.len() == g.nodes.len(),
        g.aligned().edges == g.edges,
        g.aligned().next_node_id == g.next_node_id,
        g.aligned().next_edge_id == g.next_edge_id,
        forall|i: int|
            0 <= i < g.nodes.len() ==> (#[trigger] g.aligned().nodes[i]).id == g.nodes[i].id
                && g.aligned().nodes[i].position.on_ring() && g.aligned().nodes[i].position.turn()
                == (i as nat, g.nodes.len()),
{
}

/// The layout done twice gives what it gives done once.
pub proof fn lemma_aligned_twice(g: GraphView)
    ensures
        g.aligned().aligned() == g.aligned(),
{
    assert(g.aligned().aligned().nodes =~= g.aligned().nodes);
}

/// The layout of a graph without nodes changes nothing.
pub proof fn lemma_aligned_without_nodes(g: GraphView)
    requires
        g.nodes.len() == 0,
    ensures
        g.aligned() == g,
{
    assert(g.aligned().nodes =~= g.nodes);
}

} // verus!
