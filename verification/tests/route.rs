use network_discover::hosts::Host;
use network_discover::route::{
    add_hops, arrive, gateway, list_routes, needs_trace, routes, trace_route, traced_hops,
    valid_addresses, MAX_TRACEROUTE_HOPS,
};

fn pair(a: &str, b: &str) -> (String, String) {
    (a.to_string(), b.to_string())
}

fn host_at(ip: &str) -> Host {
    let mut host = Host::default();
    host.ip = Some(ip.to_string());
    host
}

#[test]
fn routing_commands() {
    let command = list_routes("10.0.0.7");
    assert_eq!(command.program, "ip");
    assert_eq!(command.args, vec!["route", "list", "match", "10.0.0.7"]);
    let command = trace_route("10.0.0.7", None);
    assert_eq!(command.program, "traceroute");
    assert_eq!(command.args, vec!["-n", "-q 1", "-m", "15", "10.0.0.7"]);
    let command = trace_route("::1", Some(3));
    assert_eq!(command.args, vec!["-n", "-q 1", "-m", "3", "::1"]);
    assert_eq!(MAX_TRACEROUTE_HOPS, 15);
}

#[test]
fn routing_table_is_read() {
    let table = "default via 192.168.1.1 dev eth0 proto dhcp metric 100\n\
                 default via 10.8.0.1 dev tun0\n\
                 10.8.0.0/24 dev tun0 proto kernel scope link src 10.8.0.2\n";
    let found = routes(table);
    assert_eq!(found.gateways, vec![pair("192.168.1.1", "eth0"), pair("10.8.0.1", "tun0")]);
    assert_eq!(found.device, Some(pair("tun0", "10.8.0.0/24")));
    assert_eq!(gateway(&found), ("10.8.0.1".to_string(), Some("10.8.0.0/24".to_string())));
}

#[test]
fn short_lines_of_a_routing_table() {
    let found = routes("default\n\n");
    assert_eq!(found.gateways, vec![pair("", "")]);
    assert_eq!(found.device, Some(pair("", "")));
    assert_eq!(gateway(&found), (String::new(), Some(String::new())));
    let found = routes("default via 1.2.3.4\nlocal\n");
    assert_eq!(found.gateways, vec![pair("1.2.3.4", "")]);
    assert_eq!(found.device, Some(pair("", "local")));
}

#[test]
fn last_direct_route_counts() {
    let found = routes("10.0.0.0/8 dev a\n10.1.0.0/16 dev b\n");
    assert_eq!(found.device, Some(pair("b", "10.1.0.0/16")));
}

#[test]
fn gateway_without_direct_route() {
    let found = routes("default via 192.168.1.1 dev eth0\ndefault via 192.168.2.1 dev eth1\n");
    assert_eq!(found.device, None);
    assert_eq!(gateway(&found), ("192.168.1.1".to_string(), None));
}

#[test]
fn gateway_with_another_device() {
    let found = routes("default via 192.168.1.1 dev eth0\n10.9.0.0/16 dev wg0 scope link\n");
    assert_eq!(gateway(&found), ("192.168.1.1".to_string(), None));
}

#[test]
fn no_gateway() {
    assert_eq!(gateway(&routes("")), (String::new(), None));
    assert_eq!(gateway(&routes("10.9.0.0/16 dev wg0\n")), (String::new(), None));
}

#[test]
fn hops_are_read() {
    let trace = "traceroute to 10.0.0.7 (10.0.0.7), 15 hops max, 60 byte packets\n \
                 1  192.168.1.1  0.421 ms\n \
                 2  *\n \
                 3  10.0.0.7  4.242 ms !H\n \
                 4  fe80::1  1.5 ms\n\n \
                 5  host\n";
    assert_eq!(traced_hops(trace), vec!["192.168.1.1", "fe80::1"]);
    assert_eq!(traced_hops("3  10.0.0.7  4.242 ms\n"), vec!["10.0.0.7"]);
    assert_eq!(traced_hops("70000  10.0.0.7  4.242 ms\n"), Vec::<String>::new());
    assert_eq!(traced_hops(""), Vec::<String>::new());
}

#[test]
fn only_addresses_become_hops() {
    let candidates = vec![Some("10.0.0.1".to_string()), None, Some("::1".to_string())];
    assert_eq!(valid_addresses(candidates), vec!["10.0.0.1", "::1"]);
}

#[test]
fn a_host_is_traced_once() {
    let mut host = host_at("10.0.0.7");
    assert!(needs_trace(&host));
    add_hops(&mut host, vec!["192.168.1.1".to_string()]);
    assert!(needs_trace(&host));
    arrive(&mut host);
    assert_eq!(host.hops, vec!["192.168.1.1", "10.0.0.7"]);
    assert!(!needs_trace(&host));
    arrive(&mut host);
    assert_eq!(host.hops, vec!["192.168.1.1", "10.0.0.7"]);
    assert!(!needs_trace(&Host::default()));
}

#[test]
fn a_host_without_address_arrives_nowhere() {
    let mut host = Host::default();
    arrive(&mut host);
    assert!(host.hops.is_empty());
}
