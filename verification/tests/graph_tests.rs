use nog::direction::Direction;
use nog::graph::{Graph, GraphEdge, GraphError, GraphNode, GraphNodeGroupKind};
use nog::platform::WindowId;

/// Root row holding window 10 and a column with windows 20 and 30.
fn sample() -> Graph {
    let mut g = Graph::new();
    assert_eq!(g.add_window(0, WindowId(10)).unwrap(), 1);
    assert_eq!(g.add_col(0).unwrap(), 2);
    assert_eq!(g.add_window(2, WindowId(20)).unwrap(), 3);
    assert_eq!(g.add_window(2, WindowId(30)).unwrap(), 4);
    g
}

#[test]
fn new_graph_has_an_empty_root_row() {
    let g = Graph::new();
    assert_eq!(g.max_id, 0);
    assert!(!g.dirty);
    assert_eq!(g.root_node_id, 0);
    assert!(g.edges.is_empty());
    match g.get_node(0) {
        Some(GraphNode::Group { kind, focus, child_count }) => {
            assert_eq!(*kind, GraphNodeGroupKind::Row);
            assert_eq!(*focus, 0);
            assert_eq!(*child_count, 0);
        }
        _ => panic!("the root is a group"),
    }
    assert!(g.get_node(1).is_none());
}

#[test]
fn adding_children_counts_and_focuses_them() {
    let g = sample();
    assert!(g.dirty);
    assert_eq!(g.max_id, 4);
    assert_eq!(g.get_children(0), vec![1, 2]);
    assert_eq!(g.get_children(2), vec![3, 4]);
    match g.get_node(2) {
        Some(GraphNode::Group { kind, focus, child_count }) => {
            assert_eq!(*kind, GraphNodeGroupKind::Col);
            assert_eq!(*focus, 1);
            assert_eq!(*child_count, 2);
        }
        _ => panic!("node 2 is a column"),
    }
    assert_eq!(g.get_node(3).unwrap().try_get_window_id(), Some(WindowId(20)));
    assert_eq!(g.get_node(2).unwrap().try_get_group_kind(), Some(GraphNodeGroupKind::Col));
    assert_eq!(g.get_node(3).unwrap().try_get_group_kind(), None);
}

#[test]
fn adding_under_a_window_or_a_missing_node_fails() {
    let mut g = sample();
    assert!(matches!(g.add_window(1, WindowId(5)), Err(GraphError::NotAGroupNode)));
    assert!(matches!(g.add_row(99), Err(GraphError::NotAGroupNode)));
    assert_eq!(g.max_id, 4);
}

#[test]
fn parents_and_window_lookup() {
    let g = sample();
    assert_eq!(g.get_parent_node(3), Some(2));
    assert_eq!(g.get_parent_node(2), Some(0));
    assert_eq!(g.get_parent_node(0), None);
    assert_eq!(g.get_parent_edge(4), Some(3));
    assert_eq!(g.get_window_node(WindowId(20)), Some(3));
    assert_eq!(g.get_window_node(WindowId(99)), None);
}

#[test]
fn focus_walk_follows_the_focused_children() {
    let g = sample();
    assert_eq!(g.get_focused_window_child(0), Some(4));
    assert_eq!(g.get_focused_window_child(1), Some(1));
}

#[test]
fn moving_in_a_direction() {
    let g = sample();
    assert_eq!(g.get_window_node_in_direction(4, Direction::Up), Some(3));
    assert_eq!(g.get_window_node_in_direction(4, Direction::Left), Some(1));
    assert_eq!(g.get_window_node_in_direction(4, Direction::Right), None);
    assert_eq!(g.get_window_node_in_direction(3, Direction::Down), Some(4));
    assert_eq!(g.get_window_node_in_direction(1, Direction::Right), Some(4));
}

#[test]
fn deleting_a_leaf_updates_its_parent() {
    let mut g = sample();
    assert!(g.delete_node(4, false).is_ok());
    assert!(g.get_node(4).is_none());
    assert_eq!(g.max_id, 3);
    assert_eq!(g.get_children(2), vec![3]);
    match g.get_node(2) {
        Some(GraphNode::Group { focus, child_count, .. }) => {
            assert_eq!(*focus, 0);
            assert_eq!(*child_count, 1);
        }
        _ => panic!("node 2 is a column"),
    }
    assert!(matches!(g.delete_node(42, false), Err(GraphError::NodeNotFound)));
}

#[test]
fn swapping_twice_gives_the_graph_back() {
    let mut g = sample();
    let before: Vec<GraphEdge> = g.edges.clone();
    g.swap_nodes(1, 3);
    assert_eq!(g.get_parent_node(1), Some(2));
    assert_eq!(g.get_parent_node(3), Some(0));
    g.swap_nodes(1, 3);
    assert_eq!(g.edges, before);
}

#[test]
fn moving_a_node_to_another_group() {
    let mut g = sample();
    g.move_node(2, 1);
    assert_eq!(g.get_children(0), vec![2]);
    assert_eq!(g.get_children(2), vec![3, 4, 5]);
    assert_eq!(g.get_node(5).unwrap().try_get_window_id(), Some(WindowId(10)));
    assert_eq!(g.get_window_node(WindowId(10)), Some(5));
}

#[test]
fn graph_text_shows_the_tree() {
    let g = sample();
    assert_eq!(
        g.to_string(),
        "[0]Row focus: 1 child_count: 2\n|   [1]Win(10)\n|   [2]Col focus: 1 child_count: 2\n|   |   [3]Win(20)\n|   |   [4]Win(30)"
    );
    assert_eq!(Graph::new().to_string(), "[0]Row focus: 0 child_count: 0");
}

#[test]
fn swapped_and_moved_windows_stay_in_a_tree() {
    let mut g = sample();
    g.swap_nodes(1, 4);
    assert_eq!(
        g.to_string(),
        "[0]Row focus: 1 child_count: 2\n|   [4]Win(30)\n|   [2]Col focus: 1 child_count: 2\n|   |   [3]Win(20)\n|   |   [1]Win(10)"
    );
    g.move_node(0, 3);
    assert_eq!(
        g.to_string(),
        "[0]Row focus: 2 child_count: 3\n|   [4]Win(30)\n|   [2]Col focus: 0 child_count: 1\n|   |   [1]Win(10)\n|   [5]Win(20)"
    );
}

#[test]
fn deleting_a_group_deletes_the_nodes_below_it() {
    let mut g = sample();
    let sub = g.add_row(2).unwrap();
    g.add_window(sub, WindowId(40)).unwrap();
    assert!(g.delete_node(2, false).is_ok());
    for id in 2..=6 {
        assert!(g.get_node(id).is_none());
    }
    assert_eq!(g.edges, vec![GraphEdge { parent: 0, child: 1 }]);
    assert_eq!(g.max_id, 5);
    assert_eq!(g.to_string(), "[0]Row focus: 0 child_count: 1\n|   [1]Win(10)");
}

#[test]
fn a_shallow_delete_leaves_the_children() {
    let mut g = sample();
    assert!(g.delete_node(2, true).is_ok());
    assert!(g.get_node(2).is_none());
    assert!(g.get_node(3).is_some());
    assert_eq!(g.get_children(2), vec![3, 4]);
}
