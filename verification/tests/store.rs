use graph_store::error::GraphError;
use graph_store::model::{Edge, Node};
use graph_store::position::Position;
use graph_store::store::GraphState;

fn at(x: f64, y: f64) -> Position {
    Position::Free { x: x.to_bits(), y: y.to_bits() }
}

#[test]
fn new_store_is_empty() {
    let state = GraphState::new();
    let (nodes, edges) = state.get_graph();
    assert!(nodes.is_empty());
    assert!(edges.is_empty());
    assert_eq!(state.next_node_id(), 0);
    assert_eq!(state.next_edge_id(), 0);
}

#[test]
fn default_store_is_empty() {
    let state = GraphState::default();
    let (nodes, edges) = state.get_graph();
    assert!(nodes.is_empty());
    assert!(edges.is_empty());
    assert_eq!(state.next_node_id(), 0);
    assert_eq!(state.next_edge_id(), 0);
}

#[test]
fn add_node_returns_the_node_and_keeps_it() {
    let mut state = GraphState::new();
    let node = state.add_node(at(1.5, -2.25));
    assert_eq!(node, Node { id: 0, position: at(1.5, -2.25) });
    let (nodes, edges) = state.get_graph();
    assert_eq!(nodes, vec![node]);
    assert!(edges.is_empty());
    assert_eq!(state.next_node_id(), 1);
}

#[test]
fn node_ids_count_up_from_zero() {
    let mut state = GraphState::new();
    for expected in 0..20usize {
        let node = state.add_node(at(expected as f64, 0.0));
        assert_eq!(node.id, expected);
    }
    let (nodes, _) = state.get_graph();
    let ids: Vec<usize> = nodes.iter().map(|n| n.id).collect();
    assert_eq!(ids, (0..20).collect::<Vec<usize>>());
}

#[test]
fn node_ids_are_not_used_again_after_a_deletion() {
    let mut state = GraphState::new();
    state.add_node(at(0.0, 0.0));
    state.add_node(at(1.0, 1.0));
    state.add_node(at(2.0, 2.0));
    assert_eq!(state.delete_node(1), Ok(()));
    assert_eq!(state.delete_node(2), Ok(()));
    let node = state.add_node(at(3.0, 3.0));
    assert_eq!(node.id, 3);
    let (nodes, _) = state.get_graph();
    let ids: Vec<usize> = nodes.iter().map(|n| n.id).collect();
    assert_eq!(ids, vec![0, 3]);
}

#[test]
fn add_edge_joins_two_nodes() {
    let mut state = GraphState::new();
    state.add_node(at(0.0, 0.0));
    state.add_node(at(1.0, 1.0));
    assert_eq!(state.add_edge(0, 1), Ok(Edge { id: 0, source: 0, target: 1 }));
    assert_eq!(state.add_edge(1, 0), Ok(Edge { id: 1, source: 1, target: 0 }));
    let (_, edges) = state.get_graph();
    assert_eq!(
        edges,
        vec![Edge { id: 0, source: 0, target: 1 }, Edge { id: 1, source: 1, target: 0 }]
    );
    assert_eq!(state.next_edge_id(), 2);
}

#[test]
fn add_edge_fails_without_the_source() {
    let mut state = GraphState::new();
    state.add_node(at(0.0, 0.0));
    assert_eq!(state.add_edge(5, 0), Err(GraphError::EndpointNotFound));
    let (nodes, edges) = state.get_graph();
    assert_eq!(nodes.len(), 1);
    assert!(edges.is_empty());
    assert_eq!(state.next_edge_id(), 0);
}

#[test]
fn add_edge_fails_without_the_target() {
    let mut state = GraphState::new();
    state.add_node(at(0.0, 0.0));
    assert_eq!(state.add_edge(0, 5), Err(GraphError::EndpointNotFound));
    assert_eq!(state.get_graph().1, vec![]);
    assert_eq!(state.next_edge_id(), 0);
}

#[test]
fn add_edge_fails_on_an_empty_store() {
    let mut state = GraphState::new();
    assert_eq!(state.add_edge(0, 0), Err(GraphError::EndpointNotFound));
}

#[test]
fn add_edge_fails_on_a_deleted_node() {
    let mut state = GraphState::new();
    state.add_node(at(0.0, 0.0));
    state.add_node(at(1.0, 1.0));
    assert_eq!(state.delete_node(0), Ok(()));
    assert_eq!(state.add_edge(0, 1), Err(GraphError::EndpointNotFound));
    assert_eq!(state.add_edge(1, 1), Ok(Edge { id: 0, source: 1, target: 1 }));
}

#[test]
fn add_edge_takes_loops_and_doubles() {
    let mut state = GraphState::new();
    state.add_node(at(0.0, 0.0));
    state.add_node(at(1.0, 1.0));
    assert_eq!(state.add_edge(0, 0), Ok(Edge { id: 0, source: 0, target: 0 }));
    assert_eq!(state.add_edge(0, 1), Ok(Edge { id: 1, source: 0, target: 1 }));
    assert_eq!(state.add_edge(0, 1), Ok(Edge { id: 2, source: 0, target: 1 }));
    assert_eq!(state.get_graph().1.len(), 3);
}

#[test]
fn add_edge_if_adds_only_when_chosen() {
    let mut state = GraphState::new();
    state.add_node(at(0.0, 0.0));
    state.add_node(at(1.0, 1.0));
    state.add_edge_if(false, 0, 1);
    assert!(state.get_graph().1.is_empty());
    assert_eq!(state.next_edge_id(), 0);
    state.add_edge_if(true, 0, 1);
    assert_eq!(state.get_graph().1, vec![Edge { id: 0, source: 0, target: 1 }]);
    assert_eq!(state.next_edge_id(), 1);
    state.add_edge_if(false, 1, 0);
    state.add_edge_if(true, 1, 0);
    assert_eq!(
        state.get_graph().1,
        vec![Edge { id: 0, source: 0, target: 1 }, Edge { id: 1, source: 1, target: 0 }]
    );
}

#[test]
fn update_node_position_moves_one_node() {
    let mut state = GraphState::new();
    state.add_node(at(0.0, 0.0));
    state.add_node(at(1.0, 1.0));
    state.add_node(at(2.0, 2.0));
    assert_eq!(state.update_node_position(1, at(10.0, 20.0)), Ok(()));
    let (nodes, _) = state.get_graph();
    assert_eq!(
        nodes,
        vec![
            Node { id: 0, position: at(0.0, 0.0) },
            Node { id: 1, position: at(10.0, 20.0) },
            Node { id: 2, position: at(2.0, 2.0) },
        ]
    );
}

#[test]
fn update_node_position_fails_on_a_missing_node() {
    let mut state = GraphState::new();
    state.add_node(at(0.0, 0.0));
    assert_eq!(state.update_node_position(1, at(10.0, 20.0)), Err(GraphError::NodeNotFound));
    assert_eq!(state.get_graph().0, vec![Node { id: 0, position: at(0.0, 0.0) }]);
}

#[test]
fn get_graph_is_a_copy() {
    let mut state = GraphState::new();
    state.add_node(at(0.0, 0.0));
    let (mut nodes, _) = state.get_graph();
    nodes.clear();
    assert_eq!(state.get_graph().0.len(), 1);
}

#[test]
fn delete_node_takes_its_edges_along() {
    let mut state = GraphState::new();
    for i in 0..4 {
        state.add_node(at(i as f64, 0.0));
    }
    state.add_edge(0, 1).unwrap();
    state.add_edge(1, 2).unwrap();
    state.add_edge(2, 3).unwrap();
    state.add_edge(3, 1).unwrap();
    state.add_edge(0, 3).unwrap();
    state.add_edge(1, 1).unwrap();
    assert_eq!(state.delete_node(1), Ok(()));
    let (nodes, edges) = state.get_graph();
    assert_eq!(
        nodes,
        vec![
            Node { id: 0, position: at(0.0, 0.0) },
            Node { id: 2, position: at(2.0, 0.0) },
            Node { id: 3, position: at(3.0, 0.0) },
        ]
    );
    assert_eq!(
        edges,
        vec![Edge { id: 2, source: 2, target: 3 }, Edge { id: 4, source: 0, target: 3 }]
    );
    assert_eq!(state.next_node_id(), 4);
    assert_eq!(state.next_edge_id(), 6);
}

#[test]
fn delete_node_fails_on_a_missing_node() {
    let mut state = GraphState::new();
    state.add_node(at(0.0, 0.0));
    state.add_node(at(1.0, 0.0));
    state.add_edge(0, 1).unwrap();
    assert_eq!(state.delete_node(2), Err(GraphError::NodeNotFound));
    let (nodes, edges) = state.get_graph();
    assert_eq!(nodes.len(), 2);
    assert_eq!(edges.len(), 1);
}

#[test]
fn delete_node_twice_fails_the_second_time() {
    let mut state = GraphState::new();
    state.add_node(at(0.0, 0.0));
    assert_eq!(state.delete_node(0), Ok(()));
    assert_eq!(state.delete_node(0), Err(GraphError::NodeNotFound));
}

#[test]
fn delete_edge_takes_one_edge() {
    let mut state = GraphState::new();
    state.add_node(at(0.0, 0.0));
    state.add_node(at(1.0, 0.0));
    state.add_edge(0, 1).unwrap();
    state.add_edge(1, 0).unwrap();
    state.add_edge(0, 0).unwrap();
    assert_eq!(state.delete_edge(1), Ok(()));
    let (nodes, edges) = state.get_graph();
    assert_eq!(nodes.len(), 2);
    assert_eq!(
        edges,
        vec![Edge { id: 0, source: 0, target: 1 }, Edge { id: 2, source: 0, target: 0 }]
    );
    assert_eq!(state.add_edge(1, 1), Ok(Edge { id: 3, source: 1, target: 1 }));
}

#[test]
fn delete_edge_fails_on_a_missing_edge() {
    let mut state = GraphState::new();
    state.add_node(at(0.0, 0.0));
    state.add_edge(0, 0).unwrap();
    assert_eq!(state.delete_edge(1), Err(GraphError::EdgeNotFound));
    assert_eq!(state.get_graph().1.len(), 1);
}

#[test]
fn clear_graph_empties_the_store_and_resets_the_counters() {
    let mut state = GraphState::new();
    state.add_node(at(0.0, 0.0));
    state.add_node(at(1.0, 0.0));
    state.add_edge(0, 1).unwrap();
    state.clear_graph();
    let (nodes, edges) = state.get_graph();
    assert_eq!(nodes, vec![]);
    assert_eq!(edges, vec![]);
    let node = state.add_node(at(5.0, 5.0));
    assert_eq!(node.id, 0);
    assert_eq!(state.add_edge(0, 0), Ok(Edge { id: 0, source: 0, target: 0 }));
}

#[test]
fn clear_does_what_clear_graph_does() {
    let mut state = GraphState::new();
    state.add_node(at(0.0, 0.0));
    state.add_edge(0, 0).unwrap();
    state.clear();
    assert_eq!(state.get_graph(), (vec![], vec![]));
    assert_eq!(state.next_node_id(), 0);
    assert_eq!(state.next_edge_id(), 0);
}

#[test]
fn align_graph_spreads_the_nodes_over_the_circle() {
    let mut state = GraphState::new();
    for i in 0..3 {
        state.add_node(at(i as f64, 0.0));
    }
    state.add_edge(0, 2).unwrap();
    state.delete_node(1).unwrap();
    state.add_node(at(9.0, 9.0));
    state.align_graph();
    let (nodes, edges) = state.get_graph();
    assert_eq!(
        nodes,
        vec![
            Node { id: 0, position: Position::Ring { slot: 0, slots: 3 } },
            Node { id: 2, position: Position::Ring { slot: 1, slots: 3 } },
            Node { id: 3, position: Position::Ring { slot: 2, slots: 3 } },
        ]
    );
    assert_eq!(edges, vec![Edge { id: 0, source: 0, target: 2 }]);
}

#[test]
fn align_graph_twice_changes_nothing_more() {
    let mut state = GraphState::new();
    for i in 0..5 {
        state.add_node(at(i as f64, 0.0));
    }
    state.align_graph();
    let once = state.get_graph();
    state.align_graph();
    assert_eq!(state.get_graph(), once);
}

#[test]
fn align_graph_on_an_empty_store_changes_nothing() {
    let mut state = GraphState::new();
    state.align_graph();
    assert_eq!(state.get_graph(), (vec![], vec![]));
    assert_eq!(state.next_node_id(), 0);
}

#[test]
fn align_graph_on_one_node() {
    let mut state = GraphState::new();
    state.add_node(at(7.0, 7.0));
    state.align_graph();
    assert_eq!(
        state.get_graph().0,
        vec![Node { id: 0, position: Position::Ring { slot: 0, slots: 1 } }]
    );
}

#[test]
fn node_index_and_edge_index_find_the_first_place() {
    let mut state = GraphState::new();
    for i in 0..3 {
        state.add_node(at(i as f64, 0.0));
    }
    state.add_edge(0, 1).unwrap();
    state.add_edge(1, 2).unwrap();
    state.delete_node(0).unwrap();
    assert_eq!(state.node_index(0), None);
    assert_eq!(state.node_index(1), Some(0));
    assert_eq!(state.node_index(2), Some(1));
    assert_eq!(state.edge_index(0), None);
    assert_eq!(state.edge_index(1), Some(0));
    assert!(state.contains_node(2));
    assert!(!state.contains_node(0));
}

#[test]
fn error_messages() {
    assert_eq!(GraphError::EndpointNotFound.message(), "Source or target node not found");
    assert_eq!(GraphError::NodeNotFound.message(), "Node not found");
    assert_eq!(GraphError::EdgeNotFound.message(), "Edge not found");
}
