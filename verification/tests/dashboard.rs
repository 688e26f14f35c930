use lan_tui::dashboard::{
    help_overlay_area, progress_bar, Animation, App, Area, EdgeDraw, Key, KeyOutcome, Pointer,
    PointerOutcome, ZoomAction,
};
use lan_tui::node::Node;
use lan_tui::state::StateMachine;

fn mock_nodes() -> Vec<Node<f64>> {
    vec![
        Node::from_config("Router", "192.168.1.1", "Gateway", 0.0, 0.0, 0.0, 0.0),
        Node::from_config("Laptop", "192.168.1.42", "Client", 5.0, 3.0, 1.0, 0.0),
        Node::from_config("Phone", "192.168.1.67", "Client", -4.0, 4.5, 0.5, 0.0),
        Node::from_config("Printer", "192.168.1.15", "Peripheral", 3.5, -5.0, 1.2, 0.0),
    ]
}

fn app_with_nodes() -> App<f64> {
    let mut app = App::new();
    app.nodes = mock_nodes();
    app
}

const KEEP: KeyOutcome = KeyOutcome { running: true, zoom: ZoomAction::Keep, rescan: false };
const STOP: KeyOutcome = KeyOutcome { running: false, zoom: ZoomAction::Keep, rescan: false };

#[test]
fn start_up_state() {
    let app: App<f64> = App::new();
    assert_eq!(app.state, StateMachine::Splash);
    assert!(app.nodes.is_empty());
    assert_eq!(app.last_update, "—");
    assert_eq!(app.scan_count, 0);
    assert_eq!(app.target_idx, 0);
    assert_eq!(app.selected_idx, 0);
    assert!(!app.show_help);
    assert_eq!(app.content_area, Area { x: 0, y: 0, width: 0, height: 0 });
}

#[test]
fn advancing_through_the_screens() {
    let mut app = app_with_nodes();
    assert_eq!(app.advance(), ZoomAction::Keep);
    assert_eq!(app.state, StateMachine::AnimatingIntro);
    assert_eq!(app.advance(), ZoomAction::Keep);
    assert_eq!(app.state, StateMachine::Graph);
    assert_eq!(app.advance(), ZoomAction::ToStart);
    assert_eq!(app.state, StateMachine::AnimatingZoom);
    assert_eq!(app.target_idx, 1);
    assert_eq!(app.advance(), ZoomAction::ToEnd);
    assert_eq!(app.state, StateMachine::Detail);
    assert_eq!(app.advance(), ZoomAction::ToStart);
    assert_eq!(app.state, StateMachine::Splash);
}

#[test]
fn camera_target_wraps() {
    let mut app = app_with_nodes();
    app.state = StateMachine::Graph;
    app.target_idx = 3;
    app.advance();
    assert_eq!(app.target_idx, 0);
    let mut empty: App<f64> = App::new();
    empty.state = StateMachine::Graph;
    empty.target_idx = 5;
    empty.advance();
    assert_eq!(empty.target_idx, 0);
}

#[test]
fn enter_closes_help_before_advancing() {
    let mut app = app_with_nodes();
    app.show_help = true;
    assert_eq!(app.handle_key(Key::Enter), KEEP);
    assert!(!app.show_help);
    assert_eq!(app.state, StateMachine::Splash);
    assert_eq!(app.handle_key(Key::Enter), KEEP);
    assert_eq!(app.state, StateMachine::AnimatingIntro);
}

#[test]
fn five_enters_come_back() {
    let mut app = app_with_nodes();
    for _ in 0..5 {
        assert!(app.handle_key(Key::Enter).running);
    }
    assert_eq!(app.state, StateMachine::Splash);
}

#[test]
fn help_toggles() {
    let mut app = app_with_nodes();
    assert_eq!(app.handle_key(Key::F1), KEEP);
    assert!(app.show_help);
    app.handle_key(Key::F1);
    assert!(!app.show_help);
    app.handle_key(Key::Char('?'));
    assert!(app.show_help);
    app.handle_key(Key::Char('?'));
    assert!(!app.show_help);
}

#[test]
fn quit_closes_help_first() {
    let mut app = app_with_nodes();
    app.show_help = true;
    assert_eq!(app.handle_key(Key::Esc), KEEP);
    assert!(!app.show_help);
    assert_eq!(app.handle_key(Key::Char('q')), STOP);
    assert_eq!(app.handle_key(Key::Esc), STOP);
}

#[test]
fn arrows_cycle_the_selection() {
    let mut app = app_with_nodes();
    app.handle_key(Key::Left);
    assert_eq!(app.selected_idx, 3);
    app.handle_key(Key::Right);
    assert_eq!(app.selected_idx, 0);
    app.handle_key(Key::Right);
    assert_eq!(app.selected_idx, 1);
    app.handle_key(Key::Left);
    assert_eq!(app.selected_idx, 0);
    for _ in 0..4 {
        app.handle_key(Key::Right);
    }
    assert_eq!(app.selected_idx, 0);
}

#[test]
fn arrows_blocked_by_help_or_no_nodes() {
    let mut app = app_with_nodes();
    app.show_help = true;
    app.handle_key(Key::Right);
    assert_eq!(app.selected_idx, 0);
    let mut empty: App<f64> = App::new();
    empty.handle_key(Key::Left);
    assert_eq!(empty.selected_idx, 0);
    assert_eq!(empty.handle_key(Key::Other), KEEP);
}

fn detail_app() -> App<f64> {
    let mut app = app_with_nodes();
    app.state = StateMachine::Detail;
    app.content_area = Area { x: 0, y: 1, width: 80, height: 20 };
    app
}

#[test]
fn clicking_a_detail_row_selects_it() {
    let mut app = detail_app();
    assert_eq!(app.handle_pointer(Pointer::LeftDown { column: 5, row: 5 }), PointerOutcome::Done);
    assert_eq!(app.selected_idx, 2);
    // header rows and rows past the list select nothing
    app.handle_pointer(Pointer::LeftDown { column: 5, row: 2 });
    assert_eq!(app.selected_idx, 2);
    app.handle_pointer(Pointer::LeftDown { column: 5, row: 10 });
    assert_eq!(app.selected_idx, 2);
}

#[test]
fn clicks_outside_or_under_help_are_ignored() {
    let mut app = detail_app();
    app.handle_pointer(Pointer::LeftDown { column: 80, row: 5 });
    assert_eq!(app.selected_idx, 0);
    app.handle_pointer(Pointer::LeftDown { column: 5, row: 0 });
    assert_eq!(app.selected_idx, 0);
    app.show_help = true;
    app.handle_pointer(Pointer::LeftDown { column: 5, row: 5 });
    assert_eq!(app.selected_idx, 0);
}

#[test]
fn graph_clicks_and_wheel() {
    let mut app = app_with_nodes();
    app.state = StateMachine::Graph;
    app.content_area = Area { x: 0, y: 1, width: 80, height: 20 };
    assert_eq!(app.handle_pointer(Pointer::LeftDown { column: 5, row: 5 }), PointerOutcome::PickNearest);
    assert_eq!(app.handle_pointer(Pointer::ScrollUp), PointerOutcome::ZoomIn);
    assert_eq!(app.handle_pointer(Pointer::ScrollDown), PointerOutcome::ZoomOut);
    assert_eq!(app.handle_pointer(Pointer::Other), PointerOutcome::Done);
    app.nodes.clear();
    assert_eq!(app.handle_pointer(Pointer::LeftDown { column: 5, row: 5 }), PointerOutcome::Done);
    app.state = StateMachine::Splash;
    assert_eq!(app.handle_pointer(Pointer::ScrollUp), PointerOutcome::Done);
}

#[test]
fn selecting_existing_nodes_only() {
    let mut app = app_with_nodes();
    app.select(2);
    assert_eq!(app.selected_idx, 2);
    app.select(4);
    assert_eq!(app.selected_idx, 2);
}

#[test]
fn animations_and_zoom_completion() {
    let mut app = app_with_nodes();
    assert_eq!(app.animation(), Animation::Idle);
    app.state = StateMachine::AnimatingIntro;
    assert_eq!(app.animation(), Animation::Intro);
    app.complete_zoom();
    assert_eq!(app.state, StateMachine::AnimatingIntro);
    app.state = StateMachine::AnimatingZoom;
    assert_eq!(app.animation(), Animation::Zoom);
    app.complete_zoom();
    assert_eq!(app.state, StateMachine::Detail);
}

#[test]
fn scans_replace_the_nodes() {
    let mut app: App<f64> = App::new();
    app.receive_scan(mock_nodes());
    assert_eq!(app.nodes.len(), 4);
    assert_eq!(app.scan_count, 1);
    assert!(app.last_update.starts_with("last scan: "));
    assert_eq!(app.last_update.chars().count(), "last scan: ".len() + 8);
    app.receive_scan(vec![]);
    assert_eq!(app.scan_count, 2);
    assert!(app.nodes.is_empty());
}

#[test]
fn drawn_selection_and_target_are_clamped() {
    let mut app = app_with_nodes();
    app.selected_idx = 9;
    assert_eq!(app.shown_selection(), 3);
    app.selected_idx = 1;
    assert_eq!(app.shown_selection(), 1);
    app.target_idx = 7;
    assert_eq!(app.zoom_target(), 3);
    let empty: App<f64> = App::new();
    assert_eq!(empty.shown_selection(), 0);
    assert_eq!(empty.zoom_target(), 0);
}

#[test]
fn link_labels() {
    let app = app_with_nodes();
    assert_eq!(app.links_label(0), Some("Laptop, Phone, Printer".to_string()));
    assert_eq!(app.links_label(2), Some("Router".to_string()));
    assert_eq!(app.links_label(7), None);
    let mut two = app_with_nodes();
    two.nodes.truncate(2);
    assert_eq!(two.links_label(0), Some("Laptop".to_string()));
    assert_eq!(two.links_label(3), Some("Router".to_string()));
    let empty: App<f64> = App::new();
    assert_eq!(empty.links_label(0), None);
}

#[test]
fn edge_plans() {
    let app = app_with_nodes();
    let e = |from, to, emphasized, labelled| EdgeDraw { from, to, emphasized, labelled };
    assert_eq!(
        app.edge_plan(1, true),
        vec![e(0, 1, true, true), e(0, 2, false, false), e(0, 3, false, false)]
    );
    assert_eq!(
        app.edge_plan(1, false),
        vec![e(0, 1, false, true), e(0, 2, false, true), e(0, 3, false, true)]
    );
    let mut two = app_with_nodes();
    two.nodes.truncate(3);
    assert_eq!(two.edge_plan(0, true), vec![e(0, 1, true, true), e(0, 2, true, true)]);
}

#[test]
fn help_box_placement() {
    assert_eq!(
        help_overlay_area(Area { x: 0, y: 0, width: 100, height: 40 }),
        Area { x: 22, y: 13, width: 56, height: 13 }
    );
    assert_eq!(
        help_overlay_area(Area { x: 2, y: 1, width: 30, height: 13 }),
        Area { x: 2, y: 1, width: 30, height: 13 }
    );
}

#[test]
fn progress_bars() {
    assert_eq!(progress_bar(0), format!("[{}]", "·".repeat(20)));
    assert_eq!(progress_bar(5), format!("[{}{}]", "■".repeat(5), "·".repeat(15)));
    assert_eq!(progress_bar(20), format!("[{}]", "■".repeat(20)));
    assert_eq!(progress_bar(25), format!("[{}]", "■".repeat(25)));
}

#[test]
fn keys_at_extreme_indices() {
    let mut app = app_with_nodes();
    app.selected_idx = usize::MAX;
    app.target_idx = usize::MAX;
    assert_eq!(app.handle_key(Key::Char('q')), STOP);
    assert_eq!(app.handle_key(Key::F1), KEEP);
    assert!(app.show_help);
    assert_eq!(app.handle_key(Key::Right), KEEP);
    assert_eq!(app.selected_idx, usize::MAX);
    assert_eq!(app.handle_key(Key::Enter), KEEP);
    assert!(!app.show_help);
    app.handle_key(Key::Left);
    assert_eq!(app.selected_idx, usize::MAX - 1);
    assert_eq!(app.handle_key(Key::Enter), KEEP);
    assert_eq!(app.state, StateMachine::AnimatingIntro);
    assert_eq!(app.handle_key(Key::Other), KEEP);
}

#[test]
fn start_up_has_no_search() {
    let app: App<f64> = App::new();
    assert!(!app.searching);
    assert!(app.query.is_empty());
}

#[test]
fn r_asks_for_a_scan() {
    let mut app = app_with_nodes();
    assert_eq!(app.handle_key(Key::Char('r')), KeyOutcome { rescan: true, ..KEEP });
    app.show_help = true;
    assert_eq!(app.handle_key(Key::Char('r')), KEEP);
}

#[test]
fn search_typing_and_confirming() {
    let mut app = app_with_nodes();
    app.state = StateMachine::Detail;
    assert_eq!(app.handle_key(Key::Char('/')), KEEP);
    assert!(app.searching);
    for c in "Phx".chars() {
        assert_eq!(app.handle_key(Key::Char(c)), KEEP);
    }
    assert_eq!(app.query, vec!['P', 'h', 'x']);
    assert!(app.search_matches().is_empty());
    app.handle_key(Key::Backspace);
    assert_eq!(app.query, vec!['P', 'h']);
    assert_eq!(app.search_matches(), vec![2]);
    // q and r are typed into the search, not acted on
    app.handle_key(Key::Char('o'));
    assert_eq!(app.search_matches(), vec![2]);
    assert_eq!(app.handle_key(Key::Enter), KEEP);
    assert!(!app.searching);
    assert!(app.query.is_empty());
    assert_eq!(app.selected_idx, 2);
    assert_eq!(app.state, StateMachine::Detail);
}

#[test]
fn search_by_address_and_typed_command_keys() {
    let mut app = app_with_nodes();
    app.handle_key(Key::Char('/'));
    for c in ".1.1".chars() {
        app.handle_key(Key::Char(c));
    }
    assert_eq!(app.search_matches(), vec![0, 3]);
    assert_eq!(app.handle_key(Key::Char('q')), KEEP);
    assert_eq!(app.handle_key(Key::Char('r')), KEEP);
    assert_eq!(app.query.len(), 6);
    assert!(app.searching);
}

#[test]
fn search_cancel_keeps_selection() {
    let mut app = app_with_nodes();
    app.selected_idx = 1;
    app.handle_key(Key::Char('/'));
    app.handle_key(Key::Char('P'));
    assert_eq!(app.handle_key(Key::Esc), KEEP);
    assert!(!app.searching);
    assert!(app.query.is_empty());
    assert_eq!(app.selected_idx, 1);
    assert_eq!(app.state, StateMachine::Splash);
}

#[test]
fn search_without_match_keeps_selection() {
    let mut app = app_with_nodes();
    app.selected_idx = 3;
    app.handle_key(Key::Char('/'));
    app.handle_key(Key::Char('z'));
    app.handle_key(Key::Enter);
    assert_eq!(app.selected_idx, 3);
    app.handle_key(Key::Char('/'));
    app.handle_key(Key::Enter);
    assert_eq!(app.selected_idx, 0);
}

#[test]
fn slash_ignored_under_help() {
    let mut app = app_with_nodes();
    app.show_help = true;
    app.handle_key(Key::Char('/'));
    assert!(!app.searching);
}

#[test]
fn clicking_a_filtered_row_selects_its_node() {
    let mut app = detail_app();
    app.handle_key(Key::Char('/'));
    app.handle_key(Key::Char('P'));
    assert_eq!(app.search_matches(), vec![2, 3]);
    app.handle_pointer(Pointer::LeftDown { column: 5, row: 4 });
    assert_eq!(app.selected_idx, 3);
    app.handle_pointer(Pointer::LeftDown { column: 5, row: 5 });
    assert_eq!(app.selected_idx, 3);
}
