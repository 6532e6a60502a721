use network_discover::config::AppConfig;
use network_discover::hosts::Host;
use network_discover::run::{
    join, restarts, scan_hosts, start, workers, HostQueue, Phase, Run, ServerExit,
};

fn host_at(ip: &str) -> Host {
    let mut host = Host::default();
    host.ip = Some(ip.to_string());
    host
}

fn config(num_threads: u32, script_args: Option<&str>) -> AppConfig {
    AppConfig { num_threads, script_args: script_args.map(|a| a.to_string()), targets: vec![] }
}

fn addresses(hosts: &Vec<Host>) -> Vec<&str> {
    hosts.iter().map(|h| h.ip.as_ref().unwrap().as_str()).collect()
}

#[test]
fn workers_share_the_hosts() {
    assert_eq!(workers(10, 3), 3);
    assert_eq!(workers(2, 3), 2);
    assert_eq!(workers(3, 3), 3);
    assert_eq!(workers(0, 3), 0);
    assert_eq!(workers(5, 0), 0);
}

#[test]
fn batches_are_joined_in_order() {
    let joined = join(vec![vec![host_at("a"), host_at("b")], vec![], vec![host_at("c")]]);
    assert_eq!(addresses(&joined), vec!["a", "b", "c"]);
    assert!(join(vec![]).is_empty());
    let mut parts = join(vec![vec![host_at("a"), host_at("b")]]);
    parts.extend(join(vec![vec![], vec![host_at("c")]]));
    assert_eq!(addresses(&parts), vec!["a", "b", "c"]);
}

#[test]
fn a_run_to_the_end() {
    let run = start(&config(2, Some("user=x")));
    match &run.phase {
        Phase::Find { scan_arguments } => assert_eq!(scan_arguments, "user=x"),
        _ => panic!("the hosts are found first"),
    }
    let run = run.found(vec![vec![host_at("a")], vec![host_at("b"), host_at("c")]]);
    match &run.phase {
        Phase::Scan { hosts, workers } => {
            assert_eq!(addresses(hosts), vec!["a", "b", "c"]);
            assert_eq!(*workers, 2);
        }
        _ => panic!("the hosts are scanned next"),
    }
    let run = run.scanned(vec![vec![host_at("c"), host_at("a")], vec![host_at("b")]]);
    match &run.phase {
        Phase::Enumerate { hosts, workers } => {
            assert_eq!(addresses(hosts), vec!["c", "a", "b"]);
            assert_eq!(*workers, 2);
        }
        _ => panic!("the hosts are asked last"),
    }
    match run.enumerated().phase {
        Phase::Finished { hosts } => assert_eq!(addresses(&hosts), vec!["c", "a", "b"]),
        _ => panic!("all is done"),
    }
}

#[test]
fn a_run_without_script_arguments() {
    match start(&config(1, None)).phase {
        Phase::Find { scan_arguments } => assert_eq!(scan_arguments, ""),
        _ => panic!("the hosts are found first"),
    }
}

#[test]
fn a_run_with_known_hosts() {
    let run = scan_hosts(&config(1, None), vec![host_at("a"), host_at("b"), host_at("c")], 5);
    match &run.phase {
        Phase::Scan { hosts, workers } => {
            assert_eq!(hosts.len(), 3);
            assert_eq!(*workers, 3);
        }
        _ => panic!("the hosts are scanned"),
    }
    match run.scanned(vec![vec![host_at("a"), host_at("b")]]).phase {
        Phase::Enumerate { workers, .. } => assert_eq!(workers, 1),
        _ => panic!("the hosts are asked"),
    }
}

#[test]
fn phases_are_not_left_out() {
    let run = start(&config(1, None)).scanned(vec![vec![host_at("a")]]).enumerated();
    assert!(matches!(run.phase, Phase::Find { .. }));
    let run: Run = run.found(vec![]).found(vec![vec![host_at("a")]]);
    match run.phase {
        Phase::Scan { hosts, workers } => {
            assert!(hosts.is_empty());
            assert_eq!(workers, 0);
        }
        _ => panic!("the hosts are scanned"),
    }
}

#[test]
fn every_host_is_handed_out_once() {
    let mut queue = HostQueue::new(vec![host_at("a"), host_at("b"), host_at("c")]);
    let mut batches: Vec<Vec<Host>> = vec![vec![], vec![]];
    let mut turn = 0;
    while let Some(host) = queue.take() {
        batches[turn % 2].push(host);
        turn += 1;
    }
    assert!(queue.take().is_none());
    assert_eq!(addresses(&batches[0]), vec!["c", "a"]);
    assert_eq!(addresses(&batches[1]), vec!["b"]);
    let all = join(batches);
    let mut sorted = addresses(&all);
    sorted.sort();
    assert_eq!(sorted, vec!["a", "b", "c"]);
}

#[test]
fn threads_change_only_the_order() {
    let mut results: Vec<Vec<String>> = vec![];
    for threads in [1, 2, 3, 7] {
        let run = scan_hosts(&config(1, None), vec![host_at("a"), host_at("b"), host_at("c")], threads);
        let (hosts, workers) = match &run.phase {
            Phase::Scan { hosts, workers } => (hosts.clone(), *workers),
            _ => panic!("the hosts are scanned"),
        };
        let mut queue = HostQueue::new(hosts);
        let mut batches: Vec<Vec<Host>> = (0..workers).map(|_| vec![]).collect();
        let mut turn = 0;
        while let Some(mut host) = queue.take() {
            host.os = Some(format!("system of {}", host.ip.clone().unwrap()));
            batches[turn % workers].push(host);
            turn += 1;
        }
        match run.scanned(batches).phase {
            Phase::Enumerate { hosts, .. } => {
                let mut systems: Vec<String> = hosts.into_iter().map(|h| h.os.unwrap()).collect();
                systems.sort();
                results.push(systems);
            }
            _ => panic!("the hosts are asked"),
        }
    }
    for result in results {
        assert_eq!(result, vec!["system of a", "system of b", "system of c"]);
    }
}

#[test]
fn only_a_reset_connection_restarts() {
    assert!(restarts(ServerExit::ConnectionReset));
    assert!(!restarts(ServerExit::Stopped));
    assert!(!restarts(ServerExit::Failed));
}
