use network_discover::config::{DiscoverStruct, WindowsCredentials};
use network_discover::hosts::Host;
use network_discover::json::{read_json, Json};
use network_discover::windows::{
    ask_windows, enumerate_host, enumerate_windows_information, read_windows, responsible_target,
    windows_report_file,
};

const REPORT: &str = r#"{
  "domain": "EXAMPLE",
  "os_info": {"OS": "Windows 10", "OS build": "", "OS version": 10, "Native OS": null,
    "Native LAN manager": "m", "OS release": "r", "Platform id": "500", "Server type": "0x1",
    "Server type string": "Wk Sv"},
  "smb_domain_info": {"DNS domain": "example.org", "FQDN": "pc.example.org", "Derived domain": "",
    "Derived membership": "domain member", "NetBIOS computer name": "PC",
    "NetBIOS domain name": "EXAMPLE"},
  "shares": {"IPC$": {"comment": "", "type": "IPC"}, "C$": {"type": 3}, "x": []},
  "printers": {"\\\\pc\\p": {"comment": "c", "description": "d", "flags": "f"}}
}"#;

fn host_at(ip: &str) -> Host {
    let mut host = Host::default();
    host.ip = Some(ip.to_string());
    host.network = "10.0.0.0/8".to_string();
    host
}

fn target(windows: Option<WindowsCredentials>) -> DiscoverStruct {
    DiscoverStruct {
        network: None,
        extended: None,
        version_check: None,
        max_hops: None,
        port: None,
        protocol: None,
        windows,
    }
}

fn some(text: &str) -> Option<String> {
    Some(text.to_string())
}

#[test]
fn documents_are_read() {
    let document = r#" {"b": {"t": "x\u00e4"}, "a": [1], "c": 1.5, "d": null, "e": true} "#;
    let json = read_json(document.as_bytes()).unwrap();
    assert_eq!(json.get("b").unwrap().text("t"), some("x\u{e4}"));
    assert!(matches!(json.get("a"), Some(Json::Array)));
    assert!(matches!(json.get("c"), Some(Json::Number)));
    assert!(matches!(json.get("d"), Some(Json::Null)));
    assert!(matches!(json.get("e"), Some(Json::Bool(true))));
    assert!(json.get("t").is_none());
    assert!(json.text("b").is_none());
    assert_eq!(json.object("b").unwrap().len(), 1);
    assert!(json.object("a").is_none());
    assert!(matches!(read_json(b"\"t\""), Some(Json::Text(_))));
    assert!(read_json(b"[]").unwrap().get("a").is_none());
}

#[test]
fn members_of_a_document_come_in_the_order_of_their_names() {
    let json = read_json(br#"{"o": {"b": 1, "a": 2, "b": "last"}}"#).unwrap();
    let members = json.object("o").unwrap();
    assert_eq!(members.len(), 2);
    assert_eq!(members[0].0, "a");
    assert_eq!(members[1].0, "b");
    assert_eq!(json.get("o").unwrap().text("b"), some("last"));
}

#[test]
fn documents_that_are_not_well_formed() {
    for document in ["", "{", "{} x", "{'a': 1}", "nothing"] {
        assert!(read_json(document.as_bytes()).is_none(), "{}", document);
    }
    assert!(read_json(&[0x22, 0xff, 0x22]).is_none());
}

#[test]
fn windows_command_lines() {
    let host = host_at("10.0.0.7");
    let plain = ["10.0.0.7", "-A", "-C", "-d", "-oJ", "/tmp/r"];
    let targets = vec![
        target(None),
        target(Some(WindowsCredentials {
            domain_user: some("u"),
            password: some("p"),
            domain: some("w"),
        })),
        target(Some(WindowsCredentials { domain_user: None, password: some("q"), domain: None })),
    ];
    let command = ask_windows(&host, &targets, &vec![false, false, false], "/tmp/r");
    assert_eq!(command.program, "enum4linux-ng");
    assert_eq!(command.args, plain);
    let command = ask_windows(&host, &targets, &vec![true, true, true], "/tmp/r");
    assert_eq!(command.args, plain);
    let command = ask_windows(&host, &targets, &vec![false, true, true], "/tmp/r");
    assert_eq!(&command.args[..6], plain);
    assert_eq!(&command.args[6..], ["-u", "u", "-p", "p", "-w", "w"]);
    let command = ask_windows(&host, &targets, &vec![false, false, true], "/tmp/r");
    assert_eq!(&command.args[6..], ["-p", "q"]);
    assert_eq!(windows_report_file("/tmp/r"), "/tmp/r.json");
}

#[test]
fn the_first_responsible_target_counts() {
    assert_eq!(responsible_target(&vec![]), None);
    assert_eq!(responsible_target(&vec![false, false]), None);
    assert_eq!(responsible_target(&vec![false, true, true]), Some(1));
}

#[test]
fn a_windows_host_tells_of_itself() {
    let host = enumerate_windows_information(host_at("10.0.0.7"), Some(REPORT.as_bytes().to_vec()));
    let host = host.unwrap();
    assert_eq!(host.ip, some("10.0.0.7"));
    assert_eq!(host.network, "10.0.0.0/8");
    let windows = host.windows.unwrap();
    let info = windows.info.unwrap();
    assert_eq!(info.os_name, some("Windows 10"));
    assert_eq!(info.os_build, None);
    assert_eq!(info.os_version, None);
    assert_eq!(info.native_os, None);
    assert_eq!(info.native_lan_manager, some("m"));
    assert_eq!(info.os_release, some("r"));
    assert_eq!(info.platform, some("500"));
    assert_eq!(info.server_type, some("0x1"));
    assert_eq!(info.server_string, some("Wk Sv"));
    let domain = windows.domain.unwrap();
    assert_eq!(domain.domain, some("EXAMPLE"));
    assert_eq!(domain.dns_domain, some("example.org"));
    assert_eq!(domain.derived_domain, None);
    assert_eq!(domain.derived_membership, some("domain member"));
    assert_eq!(domain.fqdn, some("pc.example.org"));
    assert_eq!(domain.netbios_name, some("PC"));
    assert_eq!(domain.netbios_domain, some("EXAMPLE"));
    assert_eq!(windows.shares.len(), 3);
    assert_eq!(windows.shares[0].name, some("C$"));
    assert_eq!(windows.shares[0].share_type, None);
    assert_eq!(windows.shares[1].name, some("IPC$"));
    assert_eq!(windows.shares[1].comment, some(""));
    assert_eq!(windows.shares[1].share_type, some("IPC"));
    assert!(windows.shares[1].access.is_empty());
    assert_eq!(windows.shares[2].comment, None);
    assert_eq!(windows.printers.len(), 1);
    assert_eq!(windows.printers[0].uri, some("\\\\pc\\p"));
    assert_eq!(windows.printers[0].comment, some("c"));
    assert_eq!(windows.printers[0].description, some("d"));
    assert_eq!(windows.printers[0].flags, some("f"));
}

#[test]
fn no_share_is_told_of_twice() {
    let report = r#"{"os_info": {}, "shares": {"a": {"type": "x"}, "b": {}, "a": {"type": "y"}}}"#;
    let host = enumerate_windows_information(Host::default(), Some(report.as_bytes().to_vec()));
    let shares = host.unwrap().windows.unwrap().shares;
    let names: Vec<Option<String>> = shares.iter().map(|s| s.name.clone()).collect();
    assert_eq!(names, vec![some("a"), some("b")]);
    assert_eq!(shares[0].share_type, some("y"));
}

#[test]
fn hosts_that_tell_nothing() {
    assert!(enumerate_windows_information(host_at("10.0.0.7"), None).is_none());
    for report in ["", "{", "{}", "[1]", r#"{"shares": {"a": {}}}"#] {
        let bytes = report.as_bytes().to_vec();
        assert!(enumerate_windows_information(host_at("10.0.0.7"), Some(bytes)).is_none(), "{}", report);
    }
}

#[test]
fn an_empty_system_is_told_of() {
    let document = Json::Object(vec![("os_info".to_string(), Json::Null)]);
    let windows = read_windows(&document).unwrap();
    assert!(windows.info.unwrap().os_name.is_none());
    assert!(windows.domain.is_none());
    assert!(windows.shares.is_empty() && windows.printers.is_empty());
    assert!(enumerate_host(Host::default(), &Json::Null).is_none());
}
