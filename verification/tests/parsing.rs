use nss_innernet::addr::{parse_ipv4, Ipv4Address};
use nss_innernet::names::{make_host_name, network_name, parse_query_name};

fn v4(a: u8, b: u8, c: u8, d: u8) -> Ipv4Address {
    Ipv4Address { o0: a, o1: b, o2: c, o3: d }
}

#[test]
fn ipv4_literals_parse_to_their_octets() {
    assert_eq!(parse_ipv4("10.0.0.2"), Some(v4(10, 0, 0, 2)));
    assert_eq!(parse_ipv4("0.0.0.0"), Some(v4(0, 0, 0, 0)));
    assert_eq!(parse_ipv4("255.255.255.255"), Some(v4(255, 255, 255, 255)));
    assert_eq!(parse_ipv4("192.168.1.10"), Some(v4(192, 168, 1, 10)));
}

#[test]
fn ipv4_rejects_out_of_range_octets() {
    assert_eq!(parse_ipv4("256.0.0.1"), None);
    assert_eq!(parse_ipv4("1.2.3.999"), None);
    assert_eq!(parse_ipv4("1.2.3.1000"), None);
}

#[test]
fn ipv4_rejects_leading_zeros() {
    assert_eq!(parse_ipv4("01.2.3.4"), None);
    assert_eq!(parse_ipv4("1.2.3.00"), None);
    assert_eq!(parse_ipv4("010.0.0.1"), None);
}

#[test]
fn ipv4_rejects_wrong_shapes() {
    assert_eq!(parse_ipv4(""), None);
    assert_eq!(parse_ipv4("bad"), None);
    assert_eq!(parse_ipv4("1.2.3"), None);
    assert_eq!(parse_ipv4("1.2.3.4.5"), None);
    assert_eq!(parse_ipv4("1..2.3"), None);
    assert_eq!(parse_ipv4("1.2.3."), None);
    assert_eq!(parse_ipv4(".1.2.3"), None);
    assert_eq!(parse_ipv4(" 1.2.3.4"), None);
    assert_eq!(parse_ipv4("1.2.3.4 "), None);
    assert_eq!(parse_ipv4("::1"), None);
    assert_eq!(parse_ipv4("fe80::1"), None);
}

#[test]
fn host_names_are_peer_network_wg() {
    assert_eq!(make_host_name("alice", "office"), "alice.office.wg");
    assert_eq!(make_host_name("", "office"), ".office.wg");
    assert_eq!(make_host_name("", ""), "..wg");
}

#[test]
fn query_names_split_into_their_labels() {
    assert_eq!(
        parse_query_name("alice.office.wg"),
        Some(("alice".to_string(), "office".to_string()))
    );
    assert_eq!(parse_query_name("..wg"), Some((String::new(), String::new())));
}

#[test]
fn query_names_with_wrong_label_count_are_rejected() {
    assert_eq!(parse_query_name("alice"), None);
    assert_eq!(parse_query_name("alice.office"), None);
    assert_eq!(parse_query_name("alice.office.wg.extra"), None);
    assert_eq!(parse_query_name("alice.office.wg."), None);
    assert_eq!(parse_query_name(""), None);
}

#[test]
fn query_names_with_wrong_suffix_are_rejected() {
    assert_eq!(parse_query_name("alice.office.zz"), None);
    assert_eq!(parse_query_name("alice.office.wgx"), None);
    assert_eq!(parse_query_name("alice.office.w"), None);
}

#[test]
fn built_names_parse_back() {
    let name = make_host_name("alice", "office");
    assert_eq!(
        parse_query_name(&name),
        Some(("alice".to_string(), "office".to_string()))
    );
}

#[test]
fn network_names_drop_conf_suffixes() {
    assert_eq!(network_name("office.conf"), "office");
    assert_eq!(network_name("office"), "office");
    assert_eq!(network_name("a.conf.conf"), "a");
    assert_eq!(network_name("office.json"), "office.json");
    assert_eq!(network_name(".conf"), "");
    assert_eq!(network_name("conf"), "conf");
}
