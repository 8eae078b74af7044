//! The generators: they replace whatever the store holds by a new graph.

use vstd::prelude::*;
use crate::model::{Edge, GraphView, Node};
use crate::pairs::{lemma_row_step, lemma_rows_total, pair_before, pair_count, pair_rank,
    pairs_before_row};
use crate::position::Position;
use crate::random::{draw_ratio, thread_generator};
use crate::store::GraphState;

verus! {

/// The nodes `0, .., n - 1` in this order, node `i` at the grid point
/// `(i, i)`.
pub open spec fn diagonal_nodes(n: nat) -> Seq<Node> {
    Seq::new(
        n,
        |i: int| Node { id: i as usize, position: Position::Grid { column: i as usize, row: i as usize } },
    )
}

/// The nodes `0, .., n - 1` in this order, node `i` at the `i`-th of the `n`
/// positions.
pub open spec fn placed_nodes(positions: Seq<Position>) -> Seq<Node> {
    Seq::new(positions.len(), |i: int| Node { id: i as usize, position: positions[i] })
}

/// The edges stand in the order of their pairs, so no pair has two edges.
pub open spec fn edges_in_pair_order(edges: Seq<Edge>) -> bool {
    forall|k: int, l: int|
        0 <= k < l < edges.len() ==> pair_before(
            (#[trigger] edges[k]).source,
            edges[k].target,
            (#[trigger] edges[l]).source,
            edges[l].target,
        )
}

/// Every edge joins a pair that comes before `(i, j)`.
pub open spec fn edges_before_pair(edges: Seq<Edge>, i: usize, j: usize) -> bool {
    forall|k: int|
        0 <= k < edges.len() ==> pair_before((#[trigger] edges[k]).source, edges[k].target, i, j)
}

/// The edge that the complete graph on `n` nodes has for the pair `i < j`:
/// its identifier is the rank of the pair.
pub open spec fn edge_of_pair(n: nat, i: int, j: int) -> Edge {
    Edge { id: pair_rank(n, i as nat, j as nat) as usize, source: i as usize, target: j as usize }
}

/// Every edge has its index as its identifier and joins two different nodes
/// below `n`, the smaller one first.
pub open spec fn edges_numbered(edges: Seq<Edge>, n: nat) -> bool {
    forall|k: int|
        0 <= k < edges.len() ==> (#[trigger] edges[k]).id == k && edges[k].source
            < edges[k].target < n
}

/// Each pair `a < b < n` that comes before `(i, j)` has its edge in `edges`,
/// at the pair's rank.
pub open spec fn pairs_placed(edges: Seq<Edge>, n: nat, i: int, j: int) -> bool {
    forall|a: int, b: int|
        0 <= a < b < n && (a < i || (a == i && b < j)) ==> 0 <= #[trigger] pair_rank(
            n,
            a as nat,
            b as nat,
        ) < edges.len() && edges[pair_rank(n, a as nat, b as nat) as int] == edge_of_pair(n, a, b)
}

/// The edges are those of the complete graph on `n` nodes: one for each pair
/// `i < j`, which stands at the pair's rank and has the rank as its
/// identifier, and no other.
pub open spec fn every_pair_joined(edges: Seq<Edge>, n: nat) -> bool {
    &&& edges.len() == pair_count(n)
    &&& edges_numbered(edges, n)
    &&& pairs_placed(edges, n, n as int, n as int)
}

impl GraphView {
    /// The graph is the complete graph on `n` nodes as the generator builds
    /// it: the nodes on the diagonal of the grid, and one edge for each pair
    /// `i < j`, which stands at the pair's rank and has the rank as its
    /// identifier.
    pub open spec fn is_complete(self, n: nat) -> bool {
        &&& self.nodes == diagonal_nodes(n)
        &&& self.next_node_id == n
        &&& self.next_edge_id == pair_count(n)
        &&& every_pair_joined(self.edges, n)
    }

    /// The graph is one that the random generator can build on the given
    /// positions: one node for each position, and for some of the pairs
    /// `i < j` an edge, in the order of the pairs, numbered from zero without
    /// a gap.
    pub open spec fn is_selection_on(self, positions: Seq<Position>) -> bool {
        &&& self.nodes == placed_nodes(positions)
        &&& self.next_node_id == positions.len()
        &&& self.edges.len() <= pair_count(positions.len())
        &&& self.next_edge_id == self.edges.len()
        &&& edges_numbered(self.edges, positions.len())
        &&& edges_in_pair_order(self.edges)
    }
}

/// The chance with which `generate_random_graph` joins a pair of nodes:
/// numerator and denominator.
pub const EDGE_CHANCE: (u32, u32) = (1, 2);

impl GraphState {
    /// Replaces the graph by a random one: a node at each of the given
    /// positions, and between each two of them an edge with the chance
    /// `EDGE_CHANCE`, each pair drawn for itself from the generator of the
    /// current thread.
    pub fn generate_random_graph(&mut self, positions: &Vec<Position>)
        ensures
            final(self)@.is_selection_on(positions@),
            final(self).wf(),
    {
        self.generate_random_graph_with_chance(positions, EDGE_CHANCE.0, EDGE_CHANCE.1);
    }

    /// Replaces the graph by a random one: a node at each of the given
    /// positions, and between each two of them an edge with the chance
    /// `numerator / denominator`, each pair drawn for itself from the
    /// generator of the current thread. A chance of zero joins no pair, a
    /// chance of one joins every pair.
    pub fn generate_random_graph_with_chance(
        &mut self,
        positions: &Vec<Position>,
        numerator: u32,
        denominator: u32,
    )
        requires
            denominator > 0,
            numerator <= denominator,
        ensures
            final(self)@.is_selection_on(positions@),
            final(self).wf(),
            numerator == 0 ==> final(self)@.edges.len() == 0,
            numerator == denominator ==> every_pair_joined(final(self)@.edges, positions@.len()),
    {
        self.clear();
        let num_nodes = positions.len();
        let ghost n = num_nodes as nat;
        let mut rng = thread_generator();
        let mut i: usize = 0;
        assert(self@.nodes =~= placed_nodes(positions@.take(0)));
        while i < num_nodes
            invariant
                num_nodes == positions.len(),
                i <= num_nodes,
                self@.nodes == placed_nodes(positions@.take(i as int)),
                self@.next_node_id == i,
                self@.edges.len() == 0,
                self@.next_edge_id == 0,
            decreases num_nodes - i,
        {
            self.nodes.push(Node { id: i, position: positions[i] });
            self.next_node_id += 1;
            i += 1;
            assert(self@.nodes =~= placed_nodes(positions@.take(i as int)));
        }
        assert(positions@.take(num_nodes as int) =~= positions@);
        let mut i: usize = 0;
        while i < num_nodes
            invariant
                n == num_nodes,
                n == positions.len(),
                i <= num_nodes,
                0 < denominator,
                numerator <= denominator,
                self.wf(),
                self@.nodes == placed_nodes(positions@),
                self@.next_node_id == n,
                self@.edges.len() <= pairs_before_row(n, i as nat),
                self@.next_edge_id == self@.edges.len(),
                edges_numbered(self@.edges, n),
                edges_in_pair_order(self@.edges),
                edges_before_pair(self@.edges, i, 0),
                numerator == 0 ==> self@.edges.len() == 0,
                numerator == denominator ==> self@.edges.len() == pairs_before_row(n, i as nat)
                    && pairs_placed(self@.edges, n, i as int, 0),
            decreases num_nodes - i,
        {
            proof {
                lemma_row_step(n, i as nat);
            }
            let mut j: usize = i + 1;
            while j < num_nodes
                invariant
                    n == num_nodes,
                    n == positions.len(),
                    i < j <= num_nodes,
                    0 < denominator,
                    numerator <= denominator,
                    self.wf(),
                    self@.nodes == placed_nodes(positions@),
                    self@.next_node_id == n,
                    self@.edges.len() <= pairs_before_row(n, i as nat) + (j - i - 1),
                    self@.next_edge_id == self@.edges.len(),
                    edges_numbered(self@.edges, n),
                    edges_in_pair_order(self@.edges),
                    edges_before_pair(self@.edges, i, j),
                    numerator == 0 ==> self@.edges.len() == 0,
                    numerator == denominator ==> self@.edges.len() == pairs_before_row(
                        n,
                        i as nat,
                    ) + (j - i - 1) && pairs_placed(self@.edges, n, i as int, j as int),
                decreases num_nodes - j,
            {
                let chosen = draw_ratio(&mut rng, numerator, denominator);
                proof {
                    assert(self@.nodes[i as int].id == i);
                    assert(self@.nodes[j as int].id == j);
                }
                self.add_edge_if(chosen, i, j);
                j += 1;
            }
            i += 1;
        }
        proof {
            lemma_rows_total(n);
        }
    }

    /// Replaces the graph by the complete graph on `num_nodes` nodes.
    pub fn generate_complete_graph(&mut self, num_nodes: usize)
        ensures
            final(self)@.is_complete(num_nodes as nat),
            final(self).wf(),
    {
        self.clear();
        let ghost n = num_nodes as nat;
        let mut i: usize = 0;
        assert(self@.nodes =~= diagonal_nodes(0));
        while i < num_nodes
            invariant
                i <= num_nodes,
                self@.nodes == diagonal_nodes(i as nat),
                self@.next_node_id == i,
                self@.edges.len() == 0,
                self@.next_edge_id == 0,
            decreases num_nodes - i,
        {
            self.nodes.push(Node { id: i, position: Position::Grid { column: i, row: i } });
            self.next_node_id += 1;
            i += 1;
            assert(self@.nodes =~= diagonal_nodes(i as nat));
        }
        let mut i: usize = 0;
        while i < num_nodes
            invariant
                n == num_nodes,
                i <= num_nodes,
                self@.nodes == diagonal_nodes(n),
                self@.next_node_id == n,
                self@.edges.len() == pairs_before_row(n, i as nat),
                self@.next_edge_id == self@.edges.len(),
                edges_numbered(self@.edges, n),
                pairs_placed(self@.edges, n, i as int, 0),
            decreases num_nodes - i,
        {
            proof {
                lemma_row_step(n, i as nat);
            }
            let mut j: usize = i + 1;
            while j < num_nodes
                invariant
                    n == num_nodes,
                    i < j <= num_nodes,
                    self@.nodes == diagonal_nodes(n),
                    self@.next_node_id == n,
                    self@.edges.len() == pairs_before_row(n, i as nat) + (j - i - 1),
                    self@.next_edge_id == self@.edges.len(),
                    edges_numbered(self@.edges, n),
                    pairs_placed(self@.edges, n, i as int, j as int),
                decreases num_nodes - j,
            {
                self.edges.push(Edge { id: self.next_edge_id, source: i, target: j });
                assert(self.edges.len() == self.edges@.len());
                self.next_edge_id += 1;
                j += 1;
            }
            i += 1;
        }
        proof {
            lemma_rows_total(n);
            lemma_complete_wf(self@, n);
        }
    }
}

/// A complete graph meets the invariant of the store.
pub proof fn lemma_complete_wf(g: GraphView, n: nat)
    requires
        g.is_complete(n),
        n <= usize::MAX,
    ensures
        g.wf(),
{
    assert forall|k: int| 0 <= k < g.edges.len() implies g.has_node(
        (#[trigger] g.edges[k]).source,
    ) && g.has_node(g.edges[k].target) by {
        let s = g.edges[k].source as int;
        let t = g.edges[k].target as int;
        assert(g.nodes[s].id == s);
        assert(g.nodes[t].id == t);
    }
}

} // verus!
