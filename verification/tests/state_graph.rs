use lan_tui::graph::{edge_indices, neighbors_of};
use lan_tui::state::StateMachine;

#[test]
fn transition_follows_the_cycle() {
    assert_eq!(StateMachine::Splash.transition(), StateMachine::AnimatingIntro);
    assert_eq!(StateMachine::AnimatingIntro.transition(), StateMachine::Graph);
    assert_eq!(StateMachine::Graph.transition(), StateMachine::AnimatingZoom);
    assert_eq!(StateMachine::AnimatingZoom.transition(), StateMachine::Detail);
    assert_eq!(StateMachine::Detail.transition(), StateMachine::Splash);
}

#[test]
fn five_transitions_come_back() {
    for start in [
        StateMachine::Splash,
        StateMachine::AnimatingIntro,
        StateMachine::Graph,
        StateMachine::AnimatingZoom,
        StateMachine::Detail,
    ] {
        let mut s = start;
        for step in 1..=5 {
            s = s.transition();
            if step < 5 {
                assert_ne!(s, start);
            }
        }
        assert_eq!(s, start);
    }
}

#[test]
fn labels_of_every_state() {
    assert_eq!(StateMachine::Splash.label(), "SPLASH");
    assert_eq!(StateMachine::AnimatingIntro.label(), "ANIMATING INTRO");
    assert_eq!(StateMachine::Graph.label(), "GRAPH");
    assert_eq!(StateMachine::AnimatingZoom.label(), "ANIMATING ZOOM");
    assert_eq!(StateMachine::Detail.label(), "DETAIL");
}

#[test]
fn labels_are_distinct() {
    let all = [
        StateMachine::Splash,
        StateMachine::AnimatingIntro,
        StateMachine::Graph,
        StateMachine::AnimatingZoom,
        StateMachine::Detail,
    ];
    for a in all {
        for b in all {
            assert_eq!(a == b, a.label() == b.label());
        }
    }
}

#[test]
fn edge_table() {
    assert_eq!(edge_indices(), vec![(0, 1), (0, 2), (0, 3)]);
}

#[test]
fn neighbors_of_each_node() {
    assert_eq!(neighbors_of(0), vec![1, 2, 3]);
    assert_eq!(neighbors_of(1), vec![0]);
    assert_eq!(neighbors_of(2), vec![0]);
    assert_eq!(neighbors_of(3), vec![0]);
    assert_eq!(neighbors_of(4), Vec::<usize>::new());
    assert_eq!(neighbors_of(usize::MAX), Vec::<usize>::new());
}

#[test]
fn neighbors_are_symmetric() {
    for a in 0..6usize {
        for b in 0..6usize {
            assert_eq!(neighbors_of(a).contains(&b), neighbors_of(b).contains(&a));
        }
        assert!(!neighbors_of(a).contains(&a));
    }
}
