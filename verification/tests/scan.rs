use network_discover::hosts::Host;
use network_discover::scan::HostScan;
use network_discover::task::{Action, Answer};

fn host_at(ip: &str) -> Host {
    let mut host = Host::default();
    host.ip = Some(ip.to_string());
    host.network = "10.0.0.0/8".to_string();
    host.extended_scan = true;
    host
}

fn output(text: &str) -> Answer {
    Answer::Output(Some(text.to_string()))
}

fn args_of(action: Action) -> Vec<String> {
    match action {
        Action::Capture(command) => command.args,
        Action::Report(command, _) => command.args,
        _ => panic!("a command is to be run"),
    }
}

const TABLE: &str = "default via 192.168.1.1 dev eth0\n192.168.1.0/24 dev eth0 scope link\n";
const TRACE: &str = "traceroute to 10.0.0.7\n 1  192.168.1.1  0.4 ms\n 2  x!  1 ms\n 3  10.0.0.7  1 ms !H\n";
const REPORT: &str = "<a><port portid=\"80\" protocol=\"tcp\"><state state=\"open\"/></port></a>";

#[test]
fn a_scan_to_the_end() {
    let scan = HostScan::new(host_at("10.0.0.7"), "/tmp/r.xml".to_string());
    assert_eq!(args_of(scan.action()), vec!["route", "list", "match", "10.0.0.7"]);
    let scan = scan.advance(output(TABLE));
    match scan.action() {
        Action::Resolve(texts) => assert_eq!(texts, vec!["192.168.1.1"]),
        _ => panic!("the gateway is read"),
    }
    let scan = scan.advance(Answer::Addresses(vec!["192.168.1.1".to_string()]));
    assert_eq!(args_of(scan.action()), vec!["-n", "-q 1", "-m", "15", "10.0.0.7"]);
    let scan = scan.advance(output(TRACE));
    match scan.action() {
        Action::TryResolve(texts) => assert_eq!(texts, vec!["192.168.1.1", "x!"]),
        _ => panic!("the hops are read"),
    }
    let scan = scan.advance(Answer::Candidates(vec![Some("192.168.1.1".to_string()), None]));
    match scan.action() {
        Action::Report(command, file) => {
            assert_eq!(
                command.args,
                vec!["nmap", "-O", "-sT", "-sV", "--script=vulners", "-oX", "/tmp/r.xml", "10.0.0.7"]
            );
            assert_eq!(file, "/tmp/r.xml");
        }
        _ => panic!("the ports are scanned"),
    }
    let scan = scan.advance(output(REPORT));
    assert!(matches!(scan.action(), Action::Finish));
    let host = scan.into_host();
    assert_eq!(host.hops, vec!["192.168.1.1", "192.168.1.1", "10.0.0.7"]);
    assert_eq!(host.ipnet, "192.168.1.0/24");
    assert_eq!(host.services.len(), 1);
    assert_eq!(host.services[0].port, 80);
    assert_eq!(host.network, "10.0.0.0/8");
}

#[test]
fn a_limit_on_hops_is_kept() {
    let mut host = host_at("10.0.0.7");
    host.max_hops = Some(3);
    let scan = HostScan::new(host, String::new()).advance(Answer::Output(None));
    assert_eq!(args_of(scan.action()), vec!["-n", "-q 1", "-m", "3", "10.0.0.7"]);
    assert_eq!(scan.into_host().max_hops, Some(3));
}

#[test]
fn a_scan_whose_commands_cannot_be_run() {
    let scan = HostScan::new(host_at("10.0.0.7"), String::new());
    let scan = scan.advance(Answer::Output(None));
    assert_eq!(args_of(scan.action())[2], "-m");
    let scan = scan.advance(Answer::Output(None));
    assert_eq!(args_of(scan.action())[0], "nmap");
    let scan = scan.advance(Answer::Output(None));
    assert!(matches!(scan.action(), Action::Finish));
    let host = scan.into_host();
    assert_eq!(host.hops, vec!["10.0.0.7"]);
    assert_eq!(host.ipnet, "");
    assert!(host.services.is_empty());
}

#[test]
fn a_host_with_a_known_way_is_not_traced() {
    let mut host = host_at("10.0.0.7");
    host.hops.push("10.0.0.7".to_string());
    let scan = HostScan::new(host, String::new());
    assert!(matches!(scan.action(), Action::Report(_, _)));
    let scan = scan.advance(output(REPORT));
    assert!(matches!(scan.action(), Action::Finish));
    let host = scan.into_host();
    assert_eq!(host.hops, vec!["10.0.0.7"]);
    assert_eq!(host.services.len(), 1);
}

#[test]
fn the_file_of_the_report_does_not_matter() {
    for file in ["a", "b"] {
        let scan = HostScan::new(host_at("10.0.0.7"), file.to_string());
        let scan = scan.advance(Answer::Output(None)).advance(output(TRACE));
        let scan = scan.advance(Answer::Candidates(vec![Some("10.0.0.1".to_string())]));
        let host = scan.advance(output(REPORT)).into_host();
        assert_eq!(host.hops, vec!["10.0.0.1", "10.0.0.7"]);
        assert_eq!(host.services[0].port, 80);
    }
}

#[test]
fn a_host_without_address_is_not_scanned() {
    let scan = HostScan::new(Host::default(), String::new());
    assert!(matches!(scan.action(), Action::Finish));
    let scan = scan.advance(output(REPORT));
    assert!(matches!(scan.action(), Action::Finish));
    assert!(scan.into_host().services.is_empty());
}

#[test]
fn a_stray_answer_changes_nothing() {
    let scan = HostScan::new(host_at("10.0.0.7"), String::new());
    let scan = scan.advance(Answer::Addresses(vec!["10.0.0.1".to_string()]));
    let scan = scan.advance(Answer::Candidates(vec![Some("10.0.0.2".to_string())]));
    assert_eq!(args_of(scan.action()), vec!["route", "list", "match", "10.0.0.7"]);
    assert!(scan.into_host().hops.is_empty());
}
