use std::cmp::Ordering;

use frontary::ip::{format_ipv4, host_sort_key, network_sort_key, parse_ipv4, parse_ipv4_net};
use frontary::network::check_input;
use frontary::{
    HostNetwork, InputHostNetworkGroup, IpRange, NetworkGroup, parse_host_network, sort_hosts,
    sort_networks, validate_host_network,
};

fn range(start: &str, end: &str) -> IpRange {
    IpRange { start: start.to_string(), end: end.to_string() }
}

#[test]
fn parse_host_network_reads_a_host() {
    match parse_host_network("192.168.1.1") {
        Some(HostNetwork::Host(h)) => assert_eq!(h, "192.168.1.1"),
        _ => panic!("expected a host"),
    }
}

#[test]
fn parse_host_network_reads_a_network() {
    match parse_host_network("192.168.1.0/24") {
        Some(HostNetwork::Network(n)) => assert_eq!(n, "192.168.1.0/24"),
        _ => panic!("expected a network"),
    }
}

#[test]
fn parse_host_network_reads_a_range() {
    match parse_host_network("192.168.1.1-192.168.1.10") {
        Some(HostNetwork::Range(r)) => {
            assert_eq!(r.start, "192.168.1.1");
            assert_eq!(r.end, "192.168.1.10");
        }
        _ => panic!("expected a range"),
    }
}

#[test]
fn parse_host_network_trims_range_ends() {
    match parse_host_network(" 10.0.0.1 - 10.0.0.9 ") {
        Some(HostNetwork::Range(r)) => {
            assert_eq!(r.start, "10.0.0.1");
            assert_eq!(r.end, "10.0.0.9");
        }
        _ => panic!("expected a range"),
    }
}

#[test]
fn parse_host_network_refuses_reversed_or_empty_ranges() {
    assert!(parse_host_network("192.168.1.10-192.168.1.1").is_none());
    assert!(parse_host_network("192.168.1.1-192.168.1.1").is_none());
}

#[test]
fn parse_host_network_refuses_other_text() {
    assert!(parse_host_network("abc").is_none());
    assert!(parse_host_network("").is_none());
    assert!(parse_host_network("256.1.1.1").is_none());
    assert!(parse_host_network("01.1.1.1").is_none());
    assert!(parse_host_network("1.1.1.1/33").is_none());
}

#[test]
fn validate_host_network_accepts_a_host_unchanged() {
    assert_eq!(validate_host_network("192.168.1.1"), (true, None));
    assert_eq!(validate_host_network("192.168.1.0/24"), (true, None));
}

#[test]
fn validate_host_network_normalizes_ranges() {
    assert_eq!(
        validate_host_network("192.168.1.1~192.168.1.10"),
        (true, Some("192.168.1.1 - 192.168.1.10".to_string()))
    );
    assert_eq!(
        validate_host_network("10.0.0.1-10.0.0.2"),
        (true, Some("10.0.0.1 - 10.0.0.2".to_string()))
    );
    assert_eq!(
        validate_host_network("10.0.0.1 10.0.0.2"),
        (true, Some("10.0.0.1 - 10.0.0.2".to_string()))
    );
}

#[test]
fn validate_host_network_refuses_bad_input() {
    assert_eq!(validate_host_network("10.0.0.2~10.0.0.1"), (false, None));
    assert_eq!(validate_host_network("hello"), (false, None));
}

#[test]
fn sort_hosts_sorts_numerically_and_drops_repeats() {
    let mut hosts = vec![
        "192.168.1.10".to_string(),
        "192.168.1.2".to_string(),
        "192.168.1.10".to_string(),
    ];
    sort_hosts(&mut hosts);
    assert_eq!(hosts, vec!["192.168.1.2", "192.168.1.10"]);
}

#[test]
fn sort_hosts_puts_non_addresses_first() {
    let mut hosts = vec!["10.0.0.1".to_string(), "junk".to_string()];
    sort_hosts(&mut hosts);
    assert_eq!(hosts, vec!["junk", "10.0.0.1"]);
}

#[test]
fn sort_networks_sorts_and_drops_repeats() {
    let mut networks = vec![
        "192.168.2.0/24".to_string(),
        "192.168.1.0/24".to_string(),
        "192.168.2.0/24".to_string(),
    ];
    sort_networks(&mut networks);
    assert_eq!(networks, vec!["192.168.1.0/24", "192.168.2.0/24"]);
}

#[test]
fn sort_networks_orders_by_prefix_after_address() {
    let mut networks = vec!["10.0.0.0/16".to_string(), "10.0.0.0/8".to_string()];
    sort_networks(&mut networks);
    assert_eq!(networks, vec!["10.0.0.0/8", "10.0.0.0/16"]);
}

#[test]
fn parse_ipv4_reads_addresses() {
    assert_eq!(parse_ipv4("1.2.3.4"), Some(0x0102_0304));
    assert_eq!(parse_ipv4("255.255.255.255"), Some(u32::MAX));
    assert_eq!(parse_ipv4("1.2.3"), None);
    assert_eq!(parse_ipv4("1.2.3.4.5"), None);
}

#[test]
fn parse_ipv4_net_uses_ipnet() {
    assert_eq!(parse_ipv4_net("10.1.2.3/8"), Some((0x0a01_0203, 8)));
    assert_eq!(parse_ipv4_net("10.1.2.3"), None);
    assert_eq!(parse_ipv4_net("10.1.2.3/40"), None);
}

#[test]
fn format_ipv4_writes_dotted_quads() {
    assert_eq!(format_ipv4(0x0102_0304), "1.2.3.4");
    assert_eq!(format_ipv4(0), "0.0.0.0");
}

#[test]
fn formatted_address_parses_back() {
    for a in [0u32, 1, 255, 256, 0x7f00_0001, u32::MAX] {
        assert_eq!(parse_ipv4(&format_ipv4(a)), Some(a));
    }
}

#[test]
fn sort_keys_of_hosts_and_networks() {
    assert_eq!(host_sort_key("0.0.0.5"), 5);
    assert_eq!(host_sort_key("bad"), 0);
    assert_eq!(network_sort_key("0.0.0.1/8"), 64 + 8);
    assert_eq!(network_sort_key("bad"), 32);
}

#[test]
fn range_to_string_and_validity() {
    let r = range("1.1.1.1", "1.1.1.9");
    assert_eq!(r.to_string(), "1.1.1.1 - 1.1.1.9");
    assert!(r.is_valid());
    assert!(!range("1.1.1.9", "1.1.1.1").is_valid());
    assert!(!range("x", "1.1.1.1").is_valid());
}

#[test]
fn range_order_compares_start_then_end() {
    let a = range("1.1.1.1", "1.1.1.5");
    let b = range("1.1.1.1", "1.1.1.9");
    let c = range("1.1.1.2", "1.1.1.3");
    assert_eq!(a.cmp(&b), Ordering::Less);
    assert_eq!(b.cmp(&a), Ordering::Greater);
    assert_eq!(b.cmp(&c), Ordering::Less);
    assert_eq!(a.cmp(&a), Ordering::Equal);
    assert_eq!(a.cmp(&range("bad", "1.1.1.1")), Ordering::Equal);
    assert_eq!(a.partial_cmp(&b), Some(Ordering::Less));
}

#[test]
fn range_max_min_clamp() {
    let a = range("1.1.1.1", "1.1.1.5");
    let b = range("1.1.1.2", "1.1.1.5");
    let c = range("1.1.1.3", "1.1.1.5");
    assert!(a.clone().max(b.clone()) == b);
    assert!(a.clone().min(b.clone()) == a);
    assert!(c.clone().clamp(a.clone(), b.clone()) == b);
    assert!(a.clone().clamp(b.clone(), c.clone()) == b);
}

#[test]
fn input_group_validity_and_strings() {
    let mut g = InputHostNetworkGroup::new();
    assert!(g.is_empty());
    g.hosts.push("1.1.1.1".to_string());
    g.networks.push("10.0.0.0/8".to_string());
    g.ranges.push(range("2.2.2.2", "2.2.2.3"));
    assert!(!g.is_empty());
    assert!(g.is_valid());
    assert_eq!(g.to_string_vec(), vec!["1.1.1.1", "10.0.0.0/8", "2.2.2.2 - 2.2.2.3"]);
    g.hosts.push("nope".to_string());
    assert!(!g.is_valid());
    g.clear();
    assert!(g.is_empty());
}

#[test]
fn network_group_validity() {
    let g = NetworkGroup {
        hosts: vec!["1.1.1.1".to_string()],
        networks: vec![],
        ranges: vec![range("3.3.3.3", "3.3.3.1")],
    };
    assert!(!g.is_valid());
    assert_eq!(g.to_string_vec(), vec!["1.1.1.1", "3.3.3.3 - 3.3.3.1"]);
}

#[test]
fn check_input_reads_a_range() {
    let r = check_input("1.1.1.1 ~ 1.1.1.4").expect("a range");
    assert_eq!(r.start, "1.1.1.1");
    assert_eq!(r.end, "1.1.1.4");
    assert!(check_input("1.1.1.1 - 1.1.1.4").is_none());
    assert!(check_input("1.1.1.1 ~ x").is_none());
}

#[test]
fn check_input_reads_a_single_address() {
    let r = check_input("  1.1.1.1 ").expect("an address");
    assert_eq!(r.start, "1.1.1.1");
    assert_eq!(r.end, "");
}

#[test]
fn sort_hosts_drops_repeats_that_are_not_neighbours() {
    let mut hosts = vec!["x".to_string(), "y".to_string(), "x".to_string(), "y".to_string()];
    sort_hosts(&mut hosts);
    assert_eq!(hosts.len(), 2);
    assert!(hosts.contains(&"x".to_string()) && hosts.contains(&"y".to_string()));
}

#[test]
fn a_parsed_range_validates_to_its_written_form() {
    let text = " 10.0.0.1 -10.0.0.5";
    match parse_host_network(text) {
        Some(HostNetwork::Range(r)) => {
            assert_eq!(validate_host_network(text), (true, Some(r.to_string())));
            assert_eq!(r.to_string(), "10.0.0.1 - 10.0.0.5");
        }
        _ => panic!("the text is a range"),
    }
}
