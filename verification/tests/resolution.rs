use nss_innernet::addr::{IpAddress, Ipv4Address};
use nss_innernet::config::{load_peers, PeerRecord};
use nss_innernet::dispatch::{
    get_all_entries, get_host_by_addr, networks_from_filenames, plan_host_by_name, NamePlan,
    NetworkSnapshot,
};
use nss_innernet::hosts::Host;
use nss_innernet::network::Network;
use nss_innernet::{AddressFamily, ConfigError, Response};

fn v4(a: u8, b: u8, c: u8, d: u8) -> IpAddress {
    IpAddress::V4(Ipv4Address { o0: a, o1: b, o2: c, o3: d })
}

fn office_json() -> String {
    "{\"peers\":[{\"name\":\"alice\",\"ip\":\"10.0.0.2\"},{\"name\":\"bob\",\"ip\":\"bad\"}]}"
        .to_string()
}

fn snapshot(name: &str, config: Option<String>) -> NetworkSnapshot {
    NetworkSnapshot { network: Network { name: name.to_string() }, config }
}

fn alice_host() -> Host {
    Host {
        name: "alice.office.wg".to_string(),
        addresses: vec![Ipv4Address { o0: 10, o1: 0, o2: 0, o3: 2 }],
        aliases: vec![],
    }
}

#[test]
fn load_peers_reads_names_and_ips() {
    let peers = load_peers(&Some(office_json())).unwrap();
    assert_eq!(peers.len(), 2);
    assert_eq!(peers[0].name.as_deref(), Some("alice"));
    assert_eq!(peers[0].ip.as_deref(), Some("10.0.0.2"));
    assert_eq!(peers[1].name.as_deref(), Some("bob"));
    assert_eq!(peers[1].ip.as_deref(), Some("bad"));
}

#[test]
fn load_peers_distinguishes_the_two_errors() {
    assert_eq!(load_peers(&None).unwrap_err(), ConfigError::Unreadable);
    assert_eq!(
        load_peers(&Some("not json".to_string())).unwrap_err(),
        ConfigError::Malformed
    );
}

#[test]
fn missing_or_non_array_peers_means_zero_peers() {
    assert_eq!(load_peers(&Some("{}".to_string())).unwrap(), vec![]);
    assert_eq!(
        load_peers(&Some("{\"peers\": 5}".to_string())).unwrap(),
        vec![]
    );
}

#[test]
fn non_string_fields_are_treated_as_absent() {
    let peers =
        load_peers(&Some("{\"peers\":[{\"name\":3,\"ip\":[]},{}]}".to_string())).unwrap();
    assert_eq!(peers.len(), 2);
    assert!(peers[0].name.is_none() && peers[0].ip.is_none());
    assert!(peers[1].name.is_none() && peers[1].ip.is_none());
}

#[test]
fn valid_peer_synthesizes_host() {
    let net = Network { name: "office".to_string() };
    let peer = PeerRecord {
        name: Some("alice".to_string()),
        ip: Some("10.0.0.2".to_string()),
    };
    assert_eq!(net.host_from_peer(&peer), Some(alice_host()));
}

#[test]
fn nameless_peer_gets_empty_label() {
    let net = Network { name: "office".to_string() };
    let peer = PeerRecord { name: None, ip: Some("10.0.0.2".to_string()) };
    let host = net.host_from_peer(&peer).unwrap();
    assert_eq!(host.name, ".office.wg");
}

#[test]
fn unusable_address_synthesizes_nothing() {
    let net = Network { name: "office".to_string() };
    for ip in [None, Some("bad".to_string()), Some("::1".to_string()), Some("10.0.0".to_string())]
    {
        let peer = PeerRecord { name: Some("alice".to_string()), ip };
        assert_eq!(net.host_from_peer(&peer), None);
    }
}

#[test]
fn bulk_listing_collects_in_order_and_skips_invalid_peers() {
    let json = "{\"peers\":[{\"name\":\"a\",\"ip\":\"10.0.0.1\"},{\"name\":\"x\",\"ip\":\"bad\"},{\"name\":\"b\",\"ip\":\"10.0.0.2\"}]}";
    let scan = Some(vec![snapshot("one", Some(json.to_string()))]);
    match get_all_entries(&scan) {
        Response::Success(hosts) => {
            let names: Vec<&str> = hosts.iter().map(|h| h.name.as_str()).collect();
            assert_eq!(names, vec!["a.one.wg", "b.one.wg"]);
        }
        other => panic!("expected success, got {:?}", other),
    }
}

#[test]
fn bulk_listing_survives_one_unreadable_network() {
    let scan = Some(vec![
        snapshot("office", Some(office_json())),
        snapshot("broken", None),
    ]);
    assert_eq!(get_all_entries(&scan), Response::Success(vec![alice_host()]));
    let scan_rev = Some(vec![
        snapshot("broken", None),
        snapshot("office", Some(office_json())),
    ]);
    assert_eq!(
        get_all_entries(&scan_rev),
        Response::Success(vec![alice_host()])
    );
}

#[test]
fn bulk_listing_fails_only_when_the_scan_does() {
    assert_eq!(get_all_entries(&None), Response::Unavail);
    let empty = Some(vec![]);
    assert_eq!(get_all_entries(&empty), Response::Success(vec![]));
}

#[test]
fn by_addr_finds_the_owning_host() {
    let scan = Some(vec![snapshot("office", Some(office_json()))]);
    assert_eq!(
        get_host_by_addr(&scan, &v4(10, 0, 0, 2)),
        Response::Success(alice_host())
    );
    assert_eq!(get_host_by_addr(&scan, &v4(10, 0, 0, 3)), Response::NotFound);
}

#[test]
fn by_addr_first_match_wins_within_a_network() {
    let json = "{\"peers\":[{\"name\":\"first\",\"ip\":\"10.0.0.9\"},{\"name\":\"second\",\"ip\":\"10.0.0.9\"}]}";
    let scan = Some(vec![snapshot("one", Some(json.to_string()))]);
    match get_host_by_addr(&scan, &v4(10, 0, 0, 9)) {
        Response::Success(host) => assert_eq!(host.name, "first.one.wg"),
        other => panic!("expected success, got {:?}", other),
    }
}

#[test]
fn by_addr_first_network_wins_across_networks() {
    let json = "{\"peers\":[{\"name\":\"dup\",\"ip\":\"10.0.0.9\"}]}";
    let scan = Some(vec![
        snapshot("one", Some(json.to_string())),
        snapshot("two", Some(json.to_string())),
    ]);
    match get_host_by_addr(&scan, &v4(10, 0, 0, 9)) {
        Response::Success(host) => assert_eq!(host.name, "dup.one.wg"),
        other => panic!("expected success, got {:?}", other),
    }
}

#[test]
fn by_addr_match_short_circuits_a_later_broken_network() {
    let scan = Some(vec![
        snapshot("office", Some(office_json())),
        snapshot("broken", None),
    ]);
    assert_eq!(
        get_host_by_addr(&scan, &v4(10, 0, 0, 2)),
        Response::Success(alice_host())
    );
}

#[test]
fn by_addr_unreadable_network_is_unavail_not_notfound() {
    let scan = Some(vec![
        snapshot("broken", None),
        snapshot("office", Some(office_json())),
    ]);
    assert_eq!(get_host_by_addr(&scan, &v4(10, 0, 0, 2)), Response::Unavail);
    let scan2 = Some(vec![snapshot("bad", Some("not json".to_string()))]);
    assert_eq!(get_host_by_addr(&scan2, &v4(10, 0, 0, 2)), Response::Unavail);
    assert_eq!(get_host_by_addr(&None, &v4(10, 0, 0, 2)), Response::Unavail);
}

#[test]
fn by_addr_never_serves_ipv6_targets() {
    let json = "{\"peers\":[{\"name\":\"six\",\"ip\":\"::1\"}]}";
    let scan = Some(vec![snapshot("one", Some(json.to_string()))]);
    let mut sixteen = [0u8; 16];
    sixteen[15] = 1;
    assert_eq!(
        get_host_by_addr(&scan, &IpAddress::V6(sixteen)),
        Response::NotFound
    );
}

#[test]
fn by_name_plans_a_lookup_for_wellformed_ipv4_queries() {
    match plan_host_by_name("alice.office.wg", AddressFamily::Ipv4) {
        NamePlan::Lookup(net, peer) => {
            assert_eq!(net.name, "office");
            assert_eq!(peer, "alice");
        }
        _ => panic!("expected a lookup plan"),
    }
}

#[test]
fn by_name_rejects_malformed_names_as_unavail() {
    for name in ["alice.office", "alice", "alice.office.wg.extra", "alice.office.zz", ""] {
        assert!(matches!(
            plan_host_by_name(name, AddressFamily::Ipv4),
            NamePlan::Unavail
        ));
        assert!(matches!(
            plan_host_by_name(name, AddressFamily::Ipv6),
            NamePlan::Unavail
        ));
    }
}

#[test]
fn by_name_non_ipv4_family_is_notfound() {
    assert!(matches!(
        plan_host_by_name("alice.office.wg", AddressFamily::Ipv6),
        NamePlan::NotFound
    ));
    assert!(matches!(
        plan_host_by_name("alice.office.wg", AddressFamily::Unspecified),
        NamePlan::NotFound
    ));
}

#[test]
fn by_name_resolves_a_known_peer() {
    let net = Network { name: "office".to_string() };
    assert_eq!(
        net.resolve_host_by_name(&Some(office_json()), "alice"),
        Response::Success(alice_host())
    );
}

#[test]
fn by_name_unknown_peer_is_notfound() {
    let net = Network { name: "office".to_string() };
    assert_eq!(
        net.resolve_host_by_name(&Some(office_json()), "carol"),
        Response::NotFound
    );
}

#[test]
fn by_name_invalid_address_collapses_to_notfound() {
    let net = Network { name: "office".to_string() };
    assert_eq!(
        net.resolve_host_by_name(&Some(office_json()), "bob"),
        Response::NotFound
    );
}

#[test]
fn by_name_first_name_match_decides_even_if_unusable() {
    let json = "{\"peers\":[{\"name\":\"dup\",\"ip\":\"bad\"},{\"name\":\"dup\",\"ip\":\"10.0.0.5\"}]}";
    let net = Network { name: "one".to_string() };
    assert_eq!(
        net.resolve_host_by_name(&Some(json.to_string()), "dup"),
        Response::NotFound
    );
}

#[test]
fn by_name_unreadable_config_is_unavail_not_notfound() {
    let net = Network { name: "office".to_string() };
    assert_eq!(net.resolve_host_by_name(&None, "alice"), Response::Unavail);
    assert_eq!(
        net.resolve_host_by_name(&Some("not json".to_string()), "alice"),
        Response::Unavail
    );
}

#[test]
fn by_name_readable_but_peerless_config_is_notfound() {
    let net = Network { name: "office".to_string() };
    assert_eq!(
        net.resolve_host_by_name(&Some("{}".to_string()), "alice"),
        Response::NotFound
    );
}

#[test]
fn networks_derive_from_scanned_file_names() {
    let names = vec!["office.conf".to_string(), "home".to_string()];
    let nets = networks_from_filenames(&names);
    assert_eq!(nets.len(), 2);
    assert_eq!(nets[0].name, "office");
    assert_eq!(nets[1].name, "home");
}
