use network_discover::config::DiscoverStruct;
use network_discover::discover::{
    addresses, found_hosts, list_hosts, reported_addresses, scan_network, HostSearch,
};
use network_discover::hosts::Protocol;
use network_discover::report::Event;
use network_discover::task::{Action, Answer};

fn target(network: Option<&str>, extended: Option<bool>, version_check: Option<bool>) -> DiscoverStruct {
    DiscoverStruct {
        network: network.map(|n| n.to_string()),
        extended,
        version_check,
        max_hops: Some(3),
        port: None,
        protocol: None,
        windows: None,
    }
}

fn start(name: &str, attributes: &[(&str, &str)]) -> Event {
    Event::StartElement {
        name: name.to_string(),
        attributes: attributes.iter().map(|(n, v)| (n.to_string(), v.to_string())).collect(),
    }
}

const REPORT: &str = r#"<?xml version="1.0"?>
<nmaprun>
<host><status state="up"/>
<address addr="192.168.1.1" addrtype="ipv4"/>
<address addr="AA:BB:CC:DD:EE:FF" addrtype="mac"/>
</host>
<host><address addr="fe80::1" addrtype="ipv6"/></host>
<host><address addrtype="ipv4"/></host>
</nmaprun>"#;

#[test]
fn discovery_command_line() {
    let command = list_hosts("192.168.1.0/24", "/tmp/r.xml", &target(None, None, None));
    assert_eq!(command.program, "sudo");
    assert_eq!(command.args, vec!["nmap", "-sn", "-oX", "/tmp/r.xml", "192.168.1.0/24"]);
}

#[test]
fn the_port_of_a_target_is_asked() {
    let alive = |port: Option<u16>, protocol: Option<Protocol>| {
        let mut target = target(None, None, None);
        target.port = port;
        target.protocol = protocol;
        list_hosts("n", "r", &target).args
    };
    let plain = vec!["nmap", "-sn", "-oX", "r", "n"];
    let tcp = vec!["nmap", "-sn", "-PS53", "-oX", "r", "n"];
    let udp = vec!["nmap", "-sn", "-PU65535", "-oX", "r", "n"];
    assert_eq!(alive(Some(53), Some(Protocol::TCP)), tcp);
    assert_eq!(alive(Some(65535), Some(Protocol::UDP)), udp);
    assert_eq!(alive(Some(53), Some(Protocol::UNKNOWN)), plain);
    assert_eq!(alive(Some(53), None), plain);
    assert_eq!(alive(None, Some(Protocol::TCP)), plain);
    let mut target = target(Some("n"), None, None);
    target.port = Some(53);
    target.protocol = Some(Protocol::UDP);
    match HostSearch::new(&target, "x", "", "r").action() {
        Action::Report(command, _) => assert_eq!(command.args[2], "-PU53"),
        _ => panic!("the hosts are listed first"),
    }
}

#[test]
fn network_of_a_target() {
    let own = target(Some("10.0.0.0/8"), None, None);
    let none = target(None, None, None);
    assert_eq!(scan_network(&own, "192.168.1.0/24"), "10.0.0.0/8");
    assert_eq!(scan_network(&none, "192.168.1.0/24"), "192.168.1.0/24");
}

#[test]
fn addresses_of_a_report() {
    assert_eq!(reported_addresses(REPORT), vec!["192.168.1.1", "fe80::1", "127.0.0.1"]);
    assert_eq!(reported_addresses(""), Vec::<String>::new());
    assert_eq!(reported_addresses("no report"), Vec::<String>::new());
}

#[test]
fn addresses_before_an_error_count() {
    let report = r#"<a><address addr="10.0.0.1" addrtype="ipv4"/></b>"#;
    assert_eq!(reported_addresses(report), vec!["10.0.0.1"]);
}

#[test]
fn addresses_of_events() {
    let events = vec![
        start("address", &[("addrtype", "ipv4"), ("addr", "10.0.0.1"), ("addr", "10.0.0.2")]),
        start("address", &[("addr", "10.0.0.3")]),
        start("host", &[("addrtype", "ipv4"), ("addr", "10.0.0.4")]),
        start("address", &[("addrtype", "mac"), ("addrtype", "ipv6"), ("addr", "::2")]),
        Event::Characters("10.0.0.5".to_string()),
        Event::EndElement { name: "address".to_string() },
        Event::EndDocument,
    ];
    assert_eq!(addresses(&events), vec!["10.0.0.1", "::2"]);
}

#[test]
fn hosts_are_scanned_as_the_target_says() {
    let hosts = found_hosts(
        "10.0.0.0/8",
        &target(None, Some(false), None),
        "user=x",
        vec!["10.0.0.1".to_string(), "10.0.0.2".to_string()],
    );
    assert_eq!(hosts.len(), 2);
    assert_eq!(hosts[1].ip, Some("10.0.0.2".to_string()));
    assert_eq!(hosts[0].network, "10.0.0.0/8");
    assert_eq!(hosts[0].scan_arguments, "user=x");
    assert!(!hosts[0].extended_scan);
    assert!(hosts[0].version_check);
    assert_eq!(hosts[0].max_hops, Some(3));
    assert!(hosts[0].hops.is_empty() && hosts[0].services.is_empty());
    assert!(hosts[0].os.is_none() && hosts[0].windows.is_none());
    let hosts = found_hosts("n", &target(None, None, Some(false)), "", vec!["::1".to_string()]);
    assert!(hosts[0].extended_scan);
    assert!(!hosts[0].version_check);
}

#[test]
fn a_search_to_the_end() {
    let target = target(None, None, None);
    let search = HostSearch::new(&target, "192.168.1.0/24", "", "/tmp/r.xml");
    match search.action() {
        Action::Report(command, file) => {
            assert_eq!(command.args, vec!["nmap", "-sn", "-oX", "/tmp/r.xml", "192.168.1.0/24"]);
            assert_eq!(file, "/tmp/r.xml");
        }
        _ => panic!("the hosts are listed first"),
    }
    let search = search.advance(Answer::Output(Some(REPORT.to_string())));
    let texts = match search.action() {
        Action::Resolve(texts) => texts,
        _ => panic!("the addresses are read next"),
    };
    assert_eq!(texts, vec!["192.168.1.1", "fe80::1", "127.0.0.1"]);
    let search = search.advance(Answer::Addresses(texts));
    assert!(matches!(search.action(), Action::Finish));
    let hosts = search.into_hosts();
    assert_eq!(hosts.len(), 3);
    assert_eq!(hosts[1].ip, Some("fe80::1".to_string()));
    assert_eq!(hosts[2].network, "192.168.1.0/24");
}

#[test]
fn a_search_that_cannot_be_run() {
    let target = target(Some("10.0.0.0/8"), None, None);
    let search = HostSearch::new(&target, "x", "", "f");
    let search = search.advance(Answer::Addresses(vec!["10.0.0.1".to_string()]));
    assert!(matches!(search.action(), Action::Report(_, _)));
    let search = search.advance(Answer::Output(None));
    assert!(matches!(search.action(), Action::Finish));
    assert!(search.into_hosts().is_empty());
}

#[test]
fn parts_of_a_report_list_what_the_whole_lists() {
    let first = || start("address", &[("addr", "10.0.0.1"), ("addrtype", "ipv4")]);
    let second = || start("address", &[("addrtype", "ipv6"), ("addr", "::1")]);
    let mut parts = addresses(&vec![first()]);
    parts.extend(addresses(&vec![second(), first()]));
    assert_eq!(parts, addresses(&vec![first(), second(), first()]));
    assert_eq!(parts, vec!["10.0.0.1", "::1", "10.0.0.1"]);
}
