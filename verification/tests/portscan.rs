use network_discover::hosts::{Host, Protocol, Service, State};
use network_discover::portscan::{apply_events, apply_report, scan_ports, PortScan};
use network_discover::report::{attribute, Event};

fn start(name: &str, attributes: &[(&str, &str)]) -> Event {
    Event::StartElement {
        name: name.to_string(),
        attributes: attributes.iter().map(|(n, v)| (n.to_string(), v.to_string())).collect(),
    }
}

fn end(name: &str) -> Event {
    Event::EndElement { name: name.to_string() }
}

fn text(text: &str) -> Event {
    Event::Characters(text.to_string())
}

fn host_at(ip: &str) -> Host {
    let mut host = Host::default();
    host.ip = Some(ip.to_string());
    host
}

const REPORT: &str = r#"<?xml version="1.0"?>
<nmaprun><host>
<ports>
<port protocol="tcp" portid="22"><state state="open" reason="syn-ack"/>
<service name="ssh" product="OpenSSH" version="8.2"/>
<script id="vulners" output="..."><table key="cpe:/a:openbsd:openssh:8.2">
<table>
<elem key="id">CVE-2020-15778</elem>
<elem key="type">cve</elem>
<elem key="is_exploit">false</elem>
<elem key="cvss">6.8</elem>
</table>
<table>
<elem key="id">EXPLOIT-1</elem>
<elem key="is_exploit">true</elem>
</table>
</table></script>
</port>
<port protocol="udp" portid="53"><state state="filter"/><service name="domain"/>
<script id="dns-nsid" output="x"><elem key="bind.version">9 &amp; more</elem><elem>no key</elem></script>
</port>
</ports>
<os><osmatch name="Linux 5.4"/></os>
</host></nmaprun>"#;

#[test]
fn portscan_command_lines() {
    let mut host = host_at("10.0.0.7");
    let command = scan_ports(&host, "/tmp/r.xml");
    assert_eq!(command.program, "sudo");
    assert_eq!(
        command.args,
        vec!["nmap", "-O", "-sT", "--script=./scripts/", "-oX", "/tmp/r.xml", "10.0.0.7"]
    );
    host.version_check = true;
    host.scan_arguments = "user=x,pass=y".to_string();
    assert_eq!(
        scan_ports(&host, "f").args,
        vec![
            "nmap", "-O", "-sT", "-sV", "--script-args=user=x,pass=y", "--script=./scripts/", "-oX",
            "f", "10.0.0.7"
        ]
    );
    host.version_check = false;
    host.extended_scan = true;
    host.scan_arguments = String::new();
    assert_eq!(
        scan_ports(&host, "f").args,
        vec!["nmap", "-O", "-sT", "-sV", "--script=vulners", "-oX", "f", "10.0.0.7"]
    );
}

#[test]
fn a_report_is_read() {
    let host = apply_report(host_at("10.0.0.7"), REPORT);
    assert_eq!(host.ip, Some("10.0.0.7".to_string()));
    assert_eq!(host.os, Some("Linux 5.4".to_string()));
    assert_eq!(host.services.len(), 2);
    let ssh = &host.services[0];
    assert_eq!(ssh.port, 22);
    assert_eq!(ssh.protocol, Protocol::TCP);
    assert_eq!(ssh.state, State::OPEN);
    assert_eq!(ssh.name, "ssh");
    assert_eq!(ssh.product, "OpenSSH");
    assert_eq!(ssh.version, "8.2");
    assert_eq!(ssh.vulns.len(), 2);
    assert_eq!(ssh.vulns[0].id, "CVE-2020-15778");
    assert_eq!(ssh.vulns[0].database, "cve");
    assert!(!ssh.vulns[0].exploit);
    assert_eq!(ssh.vulns[0].cvss, "6.8");
    assert_eq!(ssh.vulns[1].id, "EXPLOIT-1");
    assert_eq!(ssh.vulns[1].database, "");
    assert!(ssh.vulns[1].exploit);
    assert_eq!(ssh.vulns[1].cvss, "");
    let dns = &host.services[1];
    assert_eq!(dns.port, 53);
    assert_eq!(dns.protocol, Protocol::UDP);
    assert_eq!(dns.state, State::FILTER);
    assert_eq!(dns.name, "domain");
    assert_eq!(dns.product, "");
    assert!(dns.vulns.is_empty());
    assert!(host.scripts.get("vulners").is_none());
    let nsid = host.scripts.get("dns-nsid").unwrap();
    assert_eq!(nsid.len(), 1);
    assert_eq!(nsid[0].key, "bind.version");
    assert_eq!(nsid[0].value, "9 & more");
}

#[test]
fn an_unreadable_report_says_nothing() {
    let host = apply_report(host_at("10.0.0.7"), "");
    assert!(host.services.is_empty() && host.os.is_none());
    assert!(host.scripts.outputs().is_empty());
}

#[test]
fn a_report_counts_up_to_its_error() {
    let report = r#"<a><port portid="80" protocol="sctp"></port><port portid="81"></b>"#;
    let host = apply_report(Host::default(), report);
    assert_eq!(host.services.len(), 1);
    assert_eq!(host.services[0].port, 80);
    assert_eq!(host.services[0].protocol, Protocol::UNKNOWN);
    assert_eq!(host.services[0].state, State::UNKNOWN);
}

#[test]
fn values_that_are_not_known() {
    let host = apply_events(
        Host::default(),
        vec![
            start("port", &[("portid", "70000"), ("protocol", "icmp")]),
            start("state", &[("state", "closed")]),
            end("port"),
            start("port", &[]),
            start("state", &[("state", "close")]),
            end("port"),
        ],
    );
    assert_eq!(host.services[0].port, 0);
    assert_eq!(host.services[0].protocol, Protocol::UNKNOWN);
    assert_eq!(host.services[0].state, State::UNKNOWN);
    assert_eq!(host.services[1].port, 0);
    assert_eq!(host.services[1].state, State::CLOSE);
}

#[test]
fn the_last_match_of_the_system_counts() {
    let host = apply_events(
        Host::default(),
        vec![start("osmatch", &[("name", "A")]), start("osmatch", &[("name", "B")])],
    );
    assert_eq!(host.os, Some("B".to_string()));
    let host = apply_events(host, vec![start("osmatch", &[("accuracy", "90")])]);
    assert_eq!(host.os, None);
}

#[test]
fn text_outside_of_scripts_is_ignored() {
    let host = apply_events(
        Host::default(),
        vec![
            start("elem", &[("key", "k")]),
            text("before"),
            start("script", &[("id", "s")]),
            text("inside"),
            end("script"),
            text("after"),
        ],
    );
    let output = host.scripts.get("s").unwrap();
    assert_eq!(output.len(), 1);
    assert_eq!(output[0].key, "k");
    assert_eq!(output[0].value, "inside");
}

#[test]
fn a_vulnerability_without_identifier_is_not_recorded() {
    let host = apply_events(
        Host::default(),
        vec![
            start("port", &[("portid", "1")]),
            start("script", &[("id", "vulners")]),
            start("elem", &[("key", "cvss")]),
            text("9.9"),
            end("table"),
            start("elem", &[("key", "id")]),
            text("X"),
            end("table"),
            end("script"),
            end("table"),
            end("port"),
        ],
    );
    assert_eq!(host.services[0].vulns.len(), 1);
    assert_eq!(host.services[0].vulns[0].id, "X");
    assert_eq!(host.services[0].vulns[0].cvss, "9.9");
}

#[test]
fn a_second_scan_adds_to_the_first() {
    let once = apply_report(host_at("10.0.0.7"), REPORT);
    let twice = apply_report(once, REPORT);
    assert_eq!(twice.services.len(), 4);
    assert_eq!(twice.services[0].port, 22);
    assert_eq!(twice.services[2].port, 22);
    assert_eq!(twice.scripts.get("dns-nsid").unwrap().len(), 2);
    assert_eq!(twice.scripts.outputs().len(), 1);
}

#[test]
fn a_report_is_read_event_by_event() {
    let mut scan = PortScan::new(Host::default());
    scan.event(start("script", &[("name", "x")]));
    assert!(scan.is_script);
    assert_eq!(scan.script_id, "");
    scan.event(start("elem", &[]));
    scan.event(text("no key"));
    scan.event(Event::Whitespace);
    scan.event(end("table"));
    scan.event(end("script"));
    assert!(!scan.is_script);
    assert!(scan.host.scripts.outputs().is_empty());
    let blank = Service::default();
    assert_eq!(scan.service.port, blank.port);
}

#[test]
fn the_first_attribute_of_a_name_counts() {
    let pairs = vec![
        ("a".to_string(), "1".to_string()),
        ("b".to_string(), "2".to_string()),
        ("b".to_string(), "3".to_string()),
    ];
    assert_eq!(attribute(&pairs, "b"), Some("2".to_string()));
    assert_eq!(attribute(&pairs, "c"), None);
}

fn port_events(port: &str) -> Vec<Event> {
    vec![
        start("port", &[("portid", port), ("protocol", "tcp")]),
        start("state", &[("state", "open")]),
        end("state"),
        end("port"),
    ]
}

#[test]
fn a_report_may_be_read_in_parts() {
    for cut in 0..=8 {
        let mut first = port_events("22");
        first.extend(port_events("80"));
        let second = first.split_off(cut);
        let mut scan = PortScan::new(Host::default());
        for event in first {
            scan.event(event);
        }
        assert_eq!(scan.host.services.len(), cut / 4);
        for event in second {
            scan.event(event);
        }
        let ports: Vec<u16> = scan.host.services.iter().map(|s| s.port).collect();
        assert_eq!(ports, vec![22, 80]);
    }
}

#[test]
fn a_scan_keeps_the_rest_of_a_host() {
    let mut host = host_at("10.0.0.7");
    host.network = "10.0.0.0/8".to_string();
    host.scan_arguments = "user=x".to_string();
    host.ipnet = "10.0.0.0/24".to_string();
    host.hops.push("10.0.0.1".to_string());
    host.extended_scan = true;
    let host = apply_report(host, REPORT);
    assert_eq!(host.ip, Some("10.0.0.7".to_string()));
    assert_eq!(host.network, "10.0.0.0/8");
    assert_eq!(host.scan_arguments, "user=x");
    assert_eq!(host.ipnet, "10.0.0.0/24");
    assert_eq!(host.hops, vec!["10.0.0.1"]);
    assert!(host.extended_scan && !host.version_check);
    assert!(host.windows.is_none() && host.max_hops.is_none());
}

#[test]
fn a_report_without_scripts_tells_of_no_vulnerability() {
    let mut events = port_events("22");
    events.push(start("elem", &[("key", "id")]));
    events.push(text("X"));
    events.push(end("table"));
    events.extend(port_events("80"));
    let host = apply_events(Host::default(), events);
    assert_eq!(host.services.len(), 2);
    assert!(host.services.iter().all(|s| s.vulns.is_empty()));
    assert!(host.scripts.outputs().is_empty());
}

#[test]
fn a_port_is_described_by_its_element_alone() {
    let inner = |text_of_id: &str| {
        vec![
            start("port", &[("portid", "80"), ("protocol", "tcp")]),
            start("state", &[("state", "close")]),
            start("state", &[("state", "open")]),
            start("service", &[("name", "http"), ("product", "p")]),
            start("script", &[("id", "vulners")]),
            start("elem", &[("key", "id")]),
            text(text_of_id),
            end("elem"),
            end("table"),
            end("script"),
            end("port"),
        ]
    };
    let alone = apply_events(Host::default(), inner("X"));
    let mut scan = PortScan::new(host_at("10.0.0.7"));
    for event in inner("W").into_iter().chain(inner("X")) {
        scan.event(event);
    }
    assert_eq!(scan.service.port, 0);
    assert!(scan.service.vulns.is_empty());
    for service in [&alone.services[0], &scan.host.services[1]] {
        assert_eq!(service.port, 80);
        assert_eq!(service.protocol, Protocol::TCP);
        assert_eq!(service.state, State::OPEN);
        assert_eq!(service.name, "http");
        assert_eq!(service.product, "p");
        assert_eq!(service.version, "");
        assert_eq!(service.vulns.len(), 1);
        assert_eq!(service.vulns[0].id, "X");
    }
    assert_eq!(scan.host.services[0].vulns[0].id, "W");
}

#[test]
fn text_without_a_key_of_its_own_is_taken_for_the_last_key() {
    let host = apply_events(
        Host::default(),
        vec![
            start("script", &[("id", "other")]),
            start("elem", &[("key", "id")]),
            end("elem"),
            end("script"),
            start("port", &[("portid", "80")]),
            start("script", &[("id", "vulners")]),
            text("stray"),
            end("table"),
            end("script"),
            end("port"),
        ],
    );
    assert_eq!(host.services[0].vulns[0].id, "stray");
}
