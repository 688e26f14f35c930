use lan_tui::arp::parse_arp_entries;
use lan_tui::node::Node;
use lan_tui::scan::{
    answered_hosts, append_hosts, apply_probes, arp_has_ip, subnet_prefix_of, sweep_targets, jitter_step, listed_flags, scan_pause_secs, unseen_arp_ips,
};

const TABLE: &str = "IP address       HW type     Flags       HW address            Mask     Device
192.168.1.1      0x1         0x2         aa:bb:cc:dd:ee:01     *        wlan0
192.168.1.42     0x1         0x2         aa:bb:cc:dd:ee:42     *        wlan0
192.168.1.99     0x1         0x0         00:00:00:00:00:00     *        wlan0
";

fn pair(a: &str, b: &str) -> (String, String) {
    (a.to_string(), b.to_string())
}

#[test]
fn complete_entries_are_read() {
    assert_eq!(
        parse_arp_entries(TABLE),
        vec![pair("192.168.1.1", "aa:bb:cc:dd:ee:01"), pair("192.168.1.42", "aa:bb:cc:dd:ee:42")]
    );
}

#[test]
fn header_only_and_empty_tables() {
    assert!(parse_arp_entries("").is_empty());
    assert!(parse_arp_entries("IP address HW type Flags HW address Mask Device\n").is_empty());
    // the first line is always the header, even when it looks like an entry
    assert!(parse_arp_entries("10.0.0.1 0x1 0x2 aa:aa").is_empty());
}

#[test]
fn short_rows_and_other_flags_are_skipped() {
    let text = "hdr\n10.0.0.1 0x1 0x2\n10.0.0.2 0x1 0x6 bb\n10.0.0.3 0x1 0x2 cc extra\n";
    assert_eq!(parse_arp_entries(text), vec![pair("10.0.0.3", "cc")]);
}

#[test]
fn tabs_and_carriage_returns_separate_columns() {
    let text = "hdr\r\n10.0.0.1\t0x1\t0x2\tdd:dd\r\n  10.0.0.2   0x1  0x2  ee:ee  \n";
    assert_eq!(parse_arp_entries(text), vec![pair("10.0.0.1", "dd:dd"), pair("10.0.0.2", "ee:ee")]);
}

#[test]
fn matches_std_line_and_word_splitting() {
    let texts = [TABLE, "a\n\n1 2 0x2 4\n\n", "x\r\n1 2 0x2 4\r\n5\u{a0}6 0x2 8", "h\n\u{3000}1 2 0x2 4 "];
    for text in texts {
        let expected: Vec<(String, String)> = text
            .lines()
            .skip(1)
            .filter_map(|line| {
                let parts: Vec<&str> = line.split_whitespace().collect();
                if parts.len() >= 4 && parts[2] == "0x2" {
                    Some((parts[0].to_string(), parts[3].to_string()))
                } else {
                    None
                }
            })
            .collect();
        assert_eq!(parse_arp_entries(text), expected, "text {:?}", text);
    }
}

#[test]
fn listed_addresses() {
    let entries = parse_arp_entries(TABLE);
    assert!(arp_has_ip(&entries, &"192.168.1.42".to_string()));
    assert!(!arp_has_ip(&entries, &"192.168.1.99".to_string()));
    assert!(!arp_has_ip(&vec![], &"192.168.1.1".to_string()));
}

#[test]
fn unseen_addresses_in_entry_order() {
    let known: Vec<Node<f64>> =
        vec![Node::from_config("Router", "192.168.1.1", "Gateway", 0.0, 0.0, 0.0, 0.0)];
    let entries = vec![
        pair("192.168.1.7", "a"),
        pair("192.168.1.1", "b"),
        pair("192.168.1.7", "c"),
        pair("192.168.1.3", "d"),
    ];
    assert_eq!(
        unseen_arp_ips(&known, &entries),
        vec!["192.168.1.7".to_string(), "192.168.1.7".to_string(), "192.168.1.3".to_string()]
    );
    assert!(unseen_arp_ips(&known, &vec![]).is_empty());
}

#[test]
fn scans_every_five_seconds() {
    assert_eq!(scan_pause_secs(), 5);
}

#[test]
fn listed_nodes_are_flagged() {
    let known: Vec<Node<f64>> = vec![
        Node::from_config("Router", "192.168.1.1", "Gateway", 0.0, 0.0, 0.0, 0.0),
        Node::from_config("Gone", "192.168.1.99", "Client", 0.0, 0.0, 0.0, 0.0),
        Node::from_config("Laptop", "192.168.1.42", "Client", 0.0, 0.0, 0.0, 0.0),
    ];
    assert_eq!(listed_flags(&known, &parse_arp_entries(TABLE)), vec![true, false, true]);
    assert!(listed_flags(&Vec::<Node<f64>>::new(), &vec![]).is_empty());
}

#[test]
fn probe_round_updates_in_place() {
    let mut known: Vec<Node<f64>> = vec![
        Node::from_config("Router", "192.168.1.1", "Gateway", 0.0, 0.0, 0.0, 0.0),
        Node::from_config("Laptop", "192.168.1.42", "Client", 1.0, 2.0, 3.0, 0.0),
    ];
    known[1].push_latency(7.0);
    apply_probes(&mut known, &vec![Some(1.5), None], 0.0);
    assert_eq!(known.len(), 2);
    assert_eq!(known[0].name, "Router");
    assert_eq!(known[0].latency_ms, 1.5);
    assert_eq!(known[0].history, vec![1.5]);
    assert_eq!(known[1].name, "Laptop");
    assert_eq!(known[1].latency_ms, 0.0);
    assert_eq!(known[1].history, vec![7.0]);
}

#[test]
fn new_hosts_follow_the_old_ones() {
    let mut known: Vec<Node<f64>> =
        vec![Node::from_config("Router", "192.168.1.1", "Gateway", 0.0, 0.0, 0.0, 0.0)];
    let fresh = vec!["192.168.1.7".to_string(), "192.168.1.9".to_string()];
    append_hosts(&mut known, &fresh, &vec![Some(2.5), None], &vec![(1.0, 2.0, 1.0), (3.0, 4.0, 1.0)], 0.0);
    assert_eq!(known.len(), 3);
    assert_eq!(known[0].name, "Router");
    assert_eq!(known[1].name, "Unknown-7");
    assert_eq!(known[1].ip, "192.168.1.7");
    assert_eq!(known[1].kind, "Unknown");
    assert_eq!((known[1].x, known[1].y, known[1].z), (1.0, 2.0, 1.0));
    assert_eq!(known[1].latency_ms, 2.5);
    assert_eq!(known[1].history, vec![2.5]);
    assert_eq!(known[2].name, "Unknown-9");
    assert_eq!(known[2].latency_ms, 0.0);
    assert!(known[2].history.is_empty());
}

#[test]
fn a_round_knows_every_listed_address() {
    let mut known: Vec<Node<f64>> =
        vec![Node::from_config("Router", "192.168.1.1", "Gateway", 0.0, 0.0, 0.0, 0.0)];
    let entries = parse_arp_entries(TABLE);
    let fresh = unseen_arp_ips(&known, &entries);
    let n = fresh.len();
    append_hosts(&mut known, &fresh, &vec![None; n], &vec![(0.0, 0.0, 0.0); n], 0.0);
    for (ip, _) in &entries {
        assert!(known.iter().any(|k| &k.ip == ip));
    }
}

#[test]
fn jitter_steps() {
    assert_eq!(jitter_step(1, 6), 25);
    assert_eq!(jitter_step(0, 0), 0);
    assert_eq!(jitter_step(3, 5), (21 + 65) % 30);
    let big = u64::MAX;
    assert_eq!(jitter_step(big, 4), big.wrapping_mul(7).wrapping_add(52) % 30);
    for tick in 0..40u64 {
        assert!(jitter_step(tick, 7) < 30);
    }
}

#[test]
fn subnet_prefixes_of_addresses() {
    assert_eq!(subnet_prefix_of(&"192.168.1.42".to_string()), "192.168.1.");
    assert_eq!(subnet_prefix_of(&"host".to_string()), "");
    assert_eq!(subnet_prefix_of(&"10.0.0.".to_string()), "10.0.0.");
}

#[test]
fn sweep_covers_each_subnet_once() {
    let known: Vec<Node<f64>> = vec![
        Node::from_config("Router", "192.168.1.1", "Gateway", 0.0, 0.0, 0.0, 0.0),
        Node::from_config("Laptop", "192.168.1.42", "Client", 0.0, 0.0, 0.0, 0.0),
        Node::from_config("Lab", "10.0.0.5", "Client", 0.0, 0.0, 0.0, 0.0),
        Node::from_config("Odd", "nodots", "Client", 0.0, 0.0, 0.0, 0.0),
    ];
    let targets = sweep_targets(&known);
    assert_eq!(targets.len(), 252 + 253);
    assert_eq!(targets[0], "192.168.1.2");
    assert_eq!(targets[39], "192.168.1.41");
    assert_eq!(targets[40], "192.168.1.43");
    assert_eq!(targets[251], "192.168.1.254");
    assert_eq!(targets[252], "10.0.0.1");
    assert_eq!(targets[256], "10.0.0.6");
    assert!(!targets.contains(&"192.168.1.255".to_string()));
    assert!(!targets.contains(&"192.168.1.0".to_string()));
    assert!(sweep_targets(&Vec::<Node<f64>>::new()).is_empty());
}

#[test]
fn answering_hosts_are_kept_in_order() {
    let targets = vec!["10.0.0.1".to_string(), "10.0.0.2".to_string(), "10.0.0.3".to_string()];
    let replies = vec![Some(1.0), None, Some(3.0)];
    let places = vec![(1.0, 1.0, 1.0), (2.0, 2.0, 1.0), (3.0, 3.0, 1.0)];
    let (ips, firsts, spots) = answered_hosts(&targets, &replies, &places);
    assert_eq!(ips, vec!["10.0.0.1".to_string(), "10.0.0.3".to_string()]);
    assert_eq!(firsts, vec![Some(1.0), Some(3.0)]);
    assert_eq!(spots, vec![(1.0, 1.0, 1.0), (3.0, 3.0, 1.0)]);
    let mut known: Vec<Node<f64>> = vec![];
    append_hosts(&mut known, &ips, &firsts, &spots, 0.0);
    assert_eq!(known[1].name, "Unknown-3");
    assert_eq!(known[1].history, vec![3.0]);
}
