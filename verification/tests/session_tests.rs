use nog::graph::{GraphEdge, GraphNode, GraphNodeGroupKind};
use nog::notification::NotificationStack;
use nog::platform::{Area, Position, Size, WindowId};
use nog::session::{parse_session, session_readable, session_text};
use nog::workspace::{Workspace, WorkspaceId};

fn workspace_with_two_windows(id: usize) -> Workspace {
    let mut ws = Workspace::new(WorkspaceId(id), "master_slave");
    ws.graph.add_window(0, WindowId(7)).unwrap();
    ws.graph.add_window(0, WindowId(8)).unwrap();
    ws
}

#[test]
fn session_text_of_workspaces() {
    let wss = vec![Workspace::new(WorkspaceId(3), "master_slave"), workspace_with_two_windows(1)];
    assert_eq!(
        session_text(&wss),
        "@workspace 3\n0:row\n@endworkspace\n@workspace 1\n0:row\n1:win:7\n2:win:8\n\n1:0\n2:0\n@endworkspace"
    );
    assert_eq!(session_text(&vec![]), "");
}

#[test]
fn reading_a_session_back() {
    let wss = vec![workspace_with_two_windows(4), workspace_with_two_windows(2)];
    let loaded = parse_session(&session_text(&wss)).unwrap();
    assert_eq!(loaded.len(), 2);
    assert_eq!(loaded[0].id, WorkspaceId(4));
    assert_eq!(loaded[1].id, WorkspaceId(2));
    for ws in &loaded {
        assert_eq!(ws.layout_name, "master_slave");
        assert_eq!(ws.graph.max_id, 2);
        assert!(ws.graph.dirty);
        assert_eq!(ws.graph.edges, vec![GraphEdge { parent: 0, child: 1 }, GraphEdge { parent: 0, child: 2 }]);
        assert_eq!(ws.graph.get_node(1).unwrap().try_get_window_id(), Some(WindowId(7)));
        assert_eq!(ws.graph.get_node(2).unwrap().try_get_window_id(), Some(WindowId(8)));
        match ws.graph.get_node(0) {
            Some(GraphNode::Group { kind, focus, child_count }) => {
                assert_eq!(*kind, GraphNodeGroupKind::Row);
                assert_eq!(*focus, 0);
                assert_eq!(*child_count, 0);
            }
            _ => panic!("node 0 is a row"),
        }
    }
}

#[test]
fn a_session_without_edges_and_lines_around_it() {
    let loaded = parse_session("hello\n@workspace  9 \n0:col\n5:win:+12\n@endworkspace").unwrap();
    assert_eq!(loaded.len(), 1);
    assert_eq!(loaded[0].id, WorkspaceId(9));
    assert_eq!(loaded[0].graph.max_id, 5);
    assert!(!loaded[0].graph.dirty);
    assert!(loaded[0].graph.edges.is_empty());
    assert_eq!(loaded[0].graph.get_node(5).unwrap().try_get_window_id(), Some(WindowId(12)));
    assert_eq!(loaded[0].graph.get_node(0).unwrap().try_get_group_kind(), Some(GraphNodeGroupKind::Col));
}

#[test]
fn a_session_header_without_a_number_gives_nothing() {
    assert!(parse_session("@workspace one\n0:row\n@endworkspace").is_none());
    assert!(parse_session("").unwrap().is_empty());
}

#[test]
fn notifications_stack_up_and_close_up() {
    let area = Area::new(Size::new(1920, 1080), Position::new(0, 0));
    let mut stack = NotificationStack::new(&area);
    assert_eq!(stack.root_position, Position::new(1700, 20));
    assert_eq!(stack.push(), (0, (1700, 20)));
    assert_eq!(stack.push(), (1, (1700, 100)));
    assert_eq!(stack.push(), (2, (1700, 180)));
    stack.close(1);
    assert_eq!(stack.ids, vec![0, 2]);
    assert_eq!(stack.positions(), vec![(0, (1700, 20)), (2, (1700, 100))]);
    assert_eq!(stack.calculate_notif_position(3), (1700, 260));
    let (id, _) = stack.push();
    stack.close(id);
    assert_eq!(stack.ids, vec![0, 2]);
}

#[test]
fn readable_sessions() {
    let wss = vec![workspace_with_two_windows(4), workspace_with_two_windows(2)];
    assert!(session_readable(&session_text(&wss)));
    assert!(session_readable("@workspace one\n7:bad"));
    assert!(!session_readable("@workspace 1\n0:row\n1:window:3\n@endworkspace"));
    assert!(!session_readable("@workspace 1\n0:row\n\n1\n@endworkspace"));
    // A section without edges runs on into the next one, whose header is no edge.
    let no_edges = vec![Workspace::new(WorkspaceId(3), "master_slave"), workspace_with_two_windows(1)];
    assert!(!session_readable(&session_text(&no_edges)));
}
