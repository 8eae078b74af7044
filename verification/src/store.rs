//! The store and its elementary operations.

use vstd::prelude::*;
use crate::error::GraphError;
use crate::model::{edge_avoids, lemma_aligned_wf, lemma_with_edge_wf, lemma_with_node_wf,
    lemma_with_position_wf, lemma_without_edge_removes, lemma_without_edge_wf,
    lemma_without_node_removes, lemma_without_node_wf, Edge, GraphView, Node};
use crate::position::Position;

verus! {

/// The graph that the editor works on.
pub struct GraphState {
    pub(crate) nodes: Vec<Node>,
    pub(crate) edges: Vec<Edge>,
    pub(crate) next_node_id: usize,
    pub(crate) next_edge_id: usize,
}

impl View for GraphState {
    type V = GraphView;

    open(crate) spec fn view(&self) -> GraphView {
        GraphView {
            nodes: self.nodes@,
            edges: self.edges@,
            next_node_id: self.next_node_id as nat,
            next_edge_id: self.next_edge_id as nat,
        }
    }
}

impl Default for GraphState {
    /// An empty store.
    fn default() -> (state: GraphState)
        ensures
            state@ == GraphView::empty(),
            state.wf(),
    {
        GraphState::new()
    }
}

impl GraphState {
    /// The invariant of the store, which every operation keeps.
    pub open spec fn wf(&self) -> bool {
        self@.wf()
    }

    /// An empty store.
    pub fn new() -> (state: GraphState)
        ensures
            state@ == GraphView::empty(),
            state.wf(),
    {
        GraphState { nodes: Vec::new(), edges: Vec::new(), next_node_id: 0, next_edge_id: 0 }
    }

    /// The identifier that the next node gets.
    pub fn next_node_id(&self) -> (id: usize)
        ensures
            id == self@.next_node_id,
    {
        self.next_node_id
    }

    /// The identifier that the next edge gets.
    pub fn next_edge_id(&self) -> (id: usize)
        ensures
            id == self@.next_edge_id,
    {
        self.next_edge_id
    }

    /// The index of the first node with the identifier `id`, if there is one.
    pub fn node_index(&self, id: usize) -> (found: Option<usize>)
        ensures
            found is Some <==> self@.has_node(id),
            found matches Some(at) ==> at < self@.nodes.len() && self@.nodes[at as int].id == id
                && forall|k: int| 0 <= k < at ==> (#[trigger] self@.nodes[k]).id != id,
    {
        let mut i: usize = 0;
        while i < self.nodes.len()
            invariant
                i <= self.nodes.len(),
                forall|k: int| 0 <= k < i ==> (#[trigger] self.nodes@[k]).id != id,
            decreases self.nodes.len() - i,
        {
            if self.nodes[i].id == id {
                assert(self@.nodes[i as int].id == id);
                return Some(i);
            }
            i += 1;
        }
        None
    }

    /// The index of the first edge with the identifier `id`, if there is one.
    pub fn edge_index(&self, id: usize) -> (found: Option<usize>)
        ensures
            found is Some <==> self@.has_edge(id),
            found matches Some(at) ==> at < self@.edges.len() && self@.edges[at as int].id == id
                && forall|k: int| 0 <= k < at ==> (#[trigger] self@.edges[k]).id != id,
    {
        let mut k: usize = 0;
        while k < self.edges.len()
            invariant
                k <= self.edges.len(),
                forall|l: int| 0 <= l < k ==> (#[trigger] self.edges@[l]).id != id,
            decreases self.edges.len() - k,
        {
            if self.edges[k].id == id {
                assert(self@.edges[k as int].id == id);
                return Some(k);
            }
            k += 1;
        }
        None
    }

    /// Whether some node has the identifier `id`.
    pub fn contains_node(&self, id: usize) -> (found: bool)
        ensures
            found == self@.has_node(id),
    {
        self.node_index(id).is_some()
    }

    /// Adds a node at `position` and returns it. Its identifier is the one
    /// that the counter held.
    pub fn add_node(&mut self, position: Position) -> (node: Node)
        requires
            old(self).wf(),
            old(self)@.node_id_free(),
        ensures
            node == (Node { id: old(self)@.next_node_id as usize, position }),
            final(self)@ == old(self)@.with_node(position),
            final(self).wf(),
    {
        let node = Node { id: self.next_node_id, position };
        self.nodes.push(node);
        assert(self.nodes.len() == self.nodes@.len());
        self.next_node_id += 1;
        proof {
            lemma_with_node_wf(old(self)@, position);
        }
        node
    }

    /// Adds an edge from `source` to `target` and returns it, if both are
    /// nodes of the graph. A loop, or a second edge between the same two
    /// nodes, is added like any other edge.
    pub fn add_edge(&mut self, source: usize, target: usize) -> (added: Result<Edge, GraphError>)
        requires
            old(self).wf(),
            old(self)@.has_node(source) && old(self)@.has_node(target) ==> old(
                self,
            )@.edge_id_free(),
        ensures
            final(self).wf(),
            old(self)@.has_node(source) && old(self)@.has_node(target) ==> added == Ok::<
                Edge,
                GraphError,
            >(Edge { id: old(self)@.next_edge_id as usize, source, target }) && final(self)@ == old(
                self,
            )@.with_edge(source, target),
            !(old(self)@.has_node(source) && old(self)@.has_node(target)) ==> added == Err::<
                Edge,
                GraphError,
            >(GraphError::EndpointNotFound) && final(self)@ == old(self)@,
    {
        if !self.contains_node(source) || !self.contains_node(target) {
            return Err(GraphError::EndpointNotFound);
        }
        let edge = Edge { id: self.next_edge_id, source, target };
        self.edges.push(edge);
        assert(self.edges.len() == self.edges@.len());
        self.next_edge_id += 1;
        proof {
            lemma_with_edge_wf(old(self)@, source, target);
        }
        Ok(edge)
    }

    /// Adds an edge between two nodes of the graph if `chosen` says so, and
    /// leaves the graph as it is otherwise.
    pub fn add_edge_if(&mut self, chosen: bool, source: usize, target: usize)
        requires
            old(self).wf(),
            old(self)@.has_node(source),
            old(self)@.has_node(target),
            chosen ==> old(self)@.edge_id_free(),
        ensures
            final(self).wf(),
            final(self)@ == if chosen {
                old(self)@.with_edge(source, target)
            } else {
                old(self)@
            },
    {
        if chosen {
            self.edges.push(Edge { id: self.next_edge_id, source, target });
            assert(self.edges.len() == self.edges@.len());
            self.next_edge_id += 1;
            proof {
                lemma_with_edge_wf(old(self)@, source, target);
            }
        }
    }

    /// Moves the node `node_id` to `position`.
    pub fn update_node_position(&mut self, node_id: usize, position: Position) -> (moved: Result<
        (),
        GraphError,
    >)
        requires
            old(self).wf(),
        ensures
            final(self).wf(),
            old(self)@.has_node(node_id) ==> moved == Ok::<(), GraphError>(()) && final(self)@
                == old(self)@.with_position(node_id, position),
            !old(self)@.has_node(node_id) ==> moved == Err::<(), GraphError>(
                GraphError::NodeNotFound,
            ) && final(self)@ == old(self)@,
    {
        match self.node_index(node_id) {
            Some(at) => {
                self.nodes[at].position = position;
                proof {
                    lemma_with_position_wf(old(self)@, node_id, position);
                    assert(self@.nodes =~= old(self)@.with_position(node_id, position).nodes);
                }
                Ok(())
            },
            None => Err(GraphError::NodeNotFound),
        }
    }

    /// A copy of the nodes and of the edges, each in the order in which they
    /// were added.
    pub fn get_graph(&self) -> (graph: (Vec<Node>, Vec<Edge>))
        ensures
            graph.0@ == self@.nodes,
            graph.1@ == self@.edges,
    {
        let nodes = self.nodes.clone();
        let edges = self.edges.clone();
        assert(nodes@ =~= self.nodes@);
        assert(edges@ =~= self.edges@);
        (nodes, edges)
    }

    /// Deletes the node `node_id`, and with it every edge that starts or ends
    /// there.
    pub fn delete_node(&mut self, node_id: usize) -> (deleted: Result<(), GraphError>)
        requires
            old(self).wf(),
        ensures
            final(self).wf(),
            old(self)@.has_node(node_id) ==> deleted == Ok::<(), GraphError>(()) && final(self)@
                == old(self)@.without_node(node_id),
            !old(self)@.has_node(node_id) ==> deleted == Err::<(), GraphError>(
                GraphError::NodeNotFound,
            ) && final(self)@ == old(self)@,
    {
        match self.node_index(node_id) {
            Some(at) => {
                self.nodes.remove(at);
                self.retain_edges_avoiding(node_id);
                proof {
                    lemma_without_node_removes(old(self)@, at as int);
                    lemma_without_node_wf(old(self)@, node_id);
                }
                Ok(())
            },
            None => Err(GraphError::NodeNotFound),
        }
    }

    /// Keeps the edges that neither start nor end at the node `node_id`, in
    /// their order, and drops the others.
    fn retain_edges_avoiding(&mut self, node_id: usize)
        ensures
            final(self).edges@ == old(self).edges@.filter(edge_avoids(node_id)),
            final(self).nodes == old(self).nodes,
            final(self).next_node_id == old(self).next_node_id,
            final(self).next_edge_id == old(self).next_edge_id,
    {
        let mut kept: Vec<Edge> = Vec::new();
        let mut k: usize = 0;
        proof {
            reveal(Seq::filter);
            assert(self.edges@.take(0) =~= Seq::<Edge>::empty());
        }
        while k < self.edges.len()
            invariant
                k <= self.edges.len(),
                kept@ == self.edges@.take(k as int).filter(edge_avoids(node_id)),
            decreases self.edges.len() - k,
        {
            let edge = self.edges[k];
            proof {
                self.edges@.take(k as int).lemma_filter_push(edge, edge_avoids(node_id));
                assert(self.edges@.take(k as int).push(edge) =~= self.edges@.take(k + 1));
            }
            if edge.source != node_id && edge.target != node_id {
                kept.push(edge);
            }
            k += 1;
        }
        assert(self.edges@.take(k as int) =~= self.edges@);
        self.edges = kept;
    }

    /// Deletes the edge `edge_id`.
    pub fn delete_edge(&mut self, edge_id: usize) -> (deleted: Result<(), GraphError>)
        requires
            old(self).wf(),
        ensures
            final(self).wf(),
            old(self)@.has_edge(edge_id) ==> deleted == Ok::<(), GraphError>(()) && final(self)@
                == old(self)@.without_edge(edge_id),
            !old(self)@.has_edge(edge_id) ==> deleted == Err::<(), GraphError>(
                GraphError::EdgeNotFound,
            ) && final(self)@ == old(self)@,
    {
        match self.edge_index(edge_id) {
            Some(at) => {
                self.edges.remove(at);
                proof {
                    lemma_without_edge_removes(old(self)@, at as int);
                    lemma_without_edge_wf(old(self)@, edge_id);
                }
                Ok(())
            },
            None => Err(GraphError::EdgeNotFound),
        }
    }

    /// Spreads the nodes over the layout circle, in their order and at equal
    /// distances: of `k` nodes, the one at index `i` takes slot `i` of `k`.
    /// Identifiers and edges stay. With no node there is nothing to do.
    pub fn align_graph(&mut self)
        requires
            old(self).wf(),
        ensures
            final(self)@ == old(self)@.aligned(),
            final(self).wf(),
    {
        let num_nodes = self.nodes.len();
        if num_nodes == 0 {
            assert(self@.nodes =~= old(self)@.aligned().nodes);
            return ;
        }
        let mut i: usize = 0;
        while i < num_nodes
            invariant
                i <= num_nodes,
                num_nodes == self.nodes.len(),
                self.edges == old(self).edges,
                self.next_node_id == old(self).next_node_id,
                self.next_edge_id == old(self).next_edge_id,
                self.nodes@.len() == old(self).nodes@.len(),
                forall|k: int| 0 <= k < i ==> #[trigger] self.nodes@[k] == old(self)@.aligned().nodes[k],
                forall|k: int| i <= k < num_nodes ==> #[trigger] self.nodes@[k] == old(self).nodes@[k],
            decreases num_nodes - i,
        {
            self.nodes[i].position = Position::Ring { slot: i, slots: num_nodes };
            i += 1;
        }
        proof {
            assert(self@.nodes =~= old(self)@.aligned().nodes);
            lemma_aligned_wf(old(self)@);
        }
    }

    /// Empties the store and sets both counters back to zero.
    pub fn clear_graph(&mut self)
        ensures
            final(self)@ == GraphView::empty(),
            final(self).wf(),
    {
        self.clear();
    }

    /// Empties the store and sets both counters back to zero.
    pub fn clear(&mut self)
        ensures
            final(self)@ == GraphView::empty(),
            final(self).wf(),
    {
        self.nodes.clear();
        self.edges.clear();
        self.next_node_id = 0;
        self.next_edge_id = 0;
    }
}

} // verus!
