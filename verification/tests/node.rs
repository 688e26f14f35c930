use lan_tui::node::{ip_seed, sparkline_bars, unknown_label, Node, NodeColor, MAX_HISTORY};

#[test]
fn config_node_fields() {
    let n = Node::from_config("Router", "192.168.1.1", "Gateway", 0.0, 1.5, -2.0, 0.0);
    assert_eq!(n.name, "Router");
    assert_eq!(n.ip, "192.168.1.1");
    assert_eq!(n.kind, "Gateway");
    assert_eq!(n.latency_ms, 0.0);
    assert_eq!((n.x, n.y, n.z), (0.0, 1.5, -2.0));
    assert!(n.history.is_empty());
}

#[test]
fn colors_by_kind() {
    let mk = |k: &str| Node::from_config("n", "1.1.1.1", k, 0.0, 0.0, 0.0, 0.0).color();
    assert_eq!(mk("Gateway"), NodeColor::Magenta);
    assert_eq!(mk("Client"), NodeColor::Cyan);
    assert_eq!(mk("Peripheral"), NodeColor::Yellow);
    assert_eq!(mk("Unknown"), NodeColor::White);
    assert_eq!(mk("gateway"), NodeColor::White);
    assert_eq!(mk(""), NodeColor::White);
}

#[test]
fn history_keeps_the_last_twenty() {
    let mut n = Node::from_config("n", "1.1.1.1", "Client", 0.0, 0.0, 0.0, 0.0);
    for i in 0..25 {
        n.push_latency(i as f64);
        assert!(n.history.len() <= MAX_HISTORY);
        assert_eq!(n.latency_ms, i as f64);
        assert_eq!(*n.history.last().unwrap(), i as f64);
    }
    let expected: Vec<f64> = (5..25).map(|i| i as f64).collect();
    assert_eq!(n.history, expected);
}

#[test]
fn history_below_capacity_keeps_all() {
    let mut n = Node::from_config("n", "1.1.1.1", "Client", 0.0, 0.0, 0.0, 0.0);
    n.push_latency(1.5);
    n.push_latency(2.5);
    assert_eq!(n.history, vec![1.5, 2.5]);
}

#[test]
fn probe_outcomes() {
    let mut n = Node::from_config("n", "1.1.1.1", "Client", 0.0, 0.0, 0.0, 0.0);
    n.record_probe(Some(3.0), 0.0);
    assert_eq!(n.latency_ms, 3.0);
    assert_eq!(n.history, vec![3.0]);
    n.record_probe(None, 0.0);
    assert_eq!(n.latency_ms, 0.0);
    assert_eq!(n.history, vec![3.0]);
}

#[test]
fn seeds_of_addresses() {
    assert_eq!(ip_seed("192.168.1.42"), 42);
    assert_eq!(ip_seed("10.0.0.255"), 255);
    assert_eq!(ip_seed("10.0.0."), 1);
    assert_eq!(ip_seed("host"), 1);
    assert_eq!(ip_seed("12"), 12);
    assert_eq!(ip_seed("1.2.3.-4"), -4);
    assert_eq!(ip_seed("fe80::1"), 1);
    assert_eq!(ip_seed(""), 1);
}

#[test]
fn names_of_unknown_hosts() {
    assert_eq!(unknown_label(42), "Unknown-42");
    assert_eq!(unknown_label(0), "Unknown-0");
    assert_eq!(unknown_label(-4), "Unknown-0");
    assert_eq!(unknown_label(i32::MAX), "Unknown-2147483647");
}

#[test]
fn unknown_node_fields() {
    let n: Node<f64> = Node::new_unknown("192.168.1.77", 1.0, 2.0, 1.0, 0.0);
    assert_eq!(n.name, "Unknown-77");
    assert_eq!(n.ip, "192.168.1.77");
    assert_eq!(n.kind, "Unknown");
    assert_eq!(n.latency_ms, 0.0);
    assert!(n.history.is_empty());
    assert_eq!(n.color(), NodeColor::White);
}

#[test]
fn unknown_name_reads_back_its_seed() {
    for seed in [0, 7, 42, 1000, i32::MAX] {
        let name = unknown_label(seed);
        assert_eq!(name["Unknown-".len()..].parse::<i32>().unwrap(), seed);
    }
}

#[test]
fn sparkline_bars_drawn() {
    assert_eq!(sparkline_bars(&vec![]), "");
    assert_eq!(sparkline_bars(&vec![3]), "");
    assert_eq!(sparkline_bars(&vec![0, 7]), "▁█");
    assert_eq!(sparkline_bars(&vec![0, 1, 2, 3, 4, 5, 6, 7, 8, 100]), "▁▂▃▄▅▆▇███");
}
