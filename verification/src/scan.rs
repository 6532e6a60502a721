//! The scan of one host: the way to it is traced, then its ports are scanned.

use crate::hosts::{Host, HostView};
use crate::portscan::{
    after_events, apply_report, law_scan_appends_services, law_scan_keeps_the_rest,
    portscan_command, scan_ports, scanned_host, unread,
};
use crate::report::xml_events;
use crate::route::{
    add_hops, arrive, arrived, gateway, gateway_of, hops_of, law_arrived, law_hops_added,
    law_last_hop, law_route_command, law_trace_command, law_untraced, list_routes, needs_trace,
    route_command, routes, routes_of, trace_command, trace_route, traced_hops, untraced, valid,
    valid_addresses, with_hops,
};
use crate::task::{copy_texts, Action, ActionView, Answer, AnswerView};
use crate::text::{digits_of, line_seq};
use vstd::prelude::*;

verus! {

/// How far the scan of a host has come.
#[derive(Debug)]
enum Step {
    /// The routes to the host are to be listed.
    ListRoutes,
    /// The gateway is to be read as an address.
    ResolveGateway(String),
    /// The way to the host is to be traced.
    TraceRoute,
    /// The hops of the trace are to be read as addresses.
    ResolveHops(Vec<String>),
    /// The ports of the host are to be scanned.
    ScanPorts,
    /// Nothing is left to do.
    Finished,
}

/// The contents of the state of a scan.
#[verifier::ext_equal]
pub enum StepView {
    ListRoutes,
    ResolveGateway(Seq<char>),
    TraceRoute,
    ResolveHops(Seq<Seq<char>>),
    ScanPorts,
    Finished,
}

impl View for Step {
    type V = StepView;

    closed spec fn view(&self) -> StepView {
        match self {
            Step::ListRoutes => StepView::ListRoutes,
            Step::ResolveGateway(text) => StepView::ResolveGateway(text@),
            Step::TraceRoute => StepView::TraceRoute,
            Step::ResolveHops(texts) => StepView::ResolveHops(texts.deep_view()),
            Step::ScanPorts => StepView::ScanPorts,
            Step::Finished => StepView::Finished,
        }
    }
}

/// The scan of one host.
#[derive(Debug)]
pub struct HostScan {
    host: Host,
    report: String,
    step: Step,
}

/// The contents of a [`HostScan`].
#[verifier::ext_equal]
pub struct HostScanView {
    pub host: HostView,
    /// The file that the port scan writes its report into.
    pub report: Seq<char>,
    pub step: StepView,
}

impl View for HostScan {
    type V = HostScanView;

    closed spec fn view(&self) -> HostScanView {
        HostScanView { host: self.host@, report: self.report@, step: self.step@ }
    }
}

/// The scan of a host before anything was done: a host without an address is not scanned, and
/// one with a known way is not traced.
pub open spec fn scan_of(host: HostView, report: Seq<char>) -> HostScanView {
    HostScanView {
        host,
        report,
        step: if untraced(host) {
            StepView::ListRoutes
        } else if host.ip is Some {
            StepView::ScanPorts
        } else {
            StepView::Finished
        },
    }
}

/// What a scan asks for next.
pub open spec fn scan_action(scan: HostScanView) -> ActionView {
    let ip = scan.host.ip->0;
    match scan.step {
        StepView::ListRoutes => ActionView::Capture(route_command(ip)),
        StepView::ResolveGateway(text) => ActionView::Resolve(seq![text]),
        StepView::TraceRoute => ActionView::Capture(
            trace_command(ip, scan.host.max_hops),
        ),
        StepView::ResolveHops(texts) => ActionView::TryResolve(texts),
        StepView::ScanPorts => ActionView::Report(
            portscan_command(scan.host, scan.report),
            scan.report,
        ),
        StepView::Finished => ActionView::Finish,
    }
}

/// `host` with the network that its route goes over, where it is known.
pub open spec fn with_network(host: HostView, network: Option<Seq<char>>) -> HostView {
    match network {
        Some(network) => HostView { ipnet: network, ..host },
        None => host,
    }
}

/// A scan after the answer to what it asked for. An answer to something else changes nothing.
pub open spec fn scan_after(scan: HostScanView, answer: AnswerView) -> HostScanView {
    match (scan.step, answer) {
        (StepView::ListRoutes, AnswerView::Output(output)) => match output {
            Some(table) => {
                let (gateway, network) = gateway_of(routes_of(line_seq(table)));
                HostScanView {
                    host: with_network(scan.host, network),
                    step: StepView::ResolveGateway(gateway),
                    ..scan
                }
            },
            None => HostScanView { step: StepView::TraceRoute, ..scan },
        },
        (StepView::ResolveGateway(_), AnswerView::Addresses(addresses)) => HostScanView {
            host: with_hops(scan.host, addresses),
            step: StepView::TraceRoute,
            ..scan
        },
        (StepView::TraceRoute, AnswerView::Output(output)) => match output {
            Some(trace) => HostScanView {
                step: StepView::ResolveHops(hops_of(line_seq(trace))),
                ..scan
            },
            None => HostScanView { host: arrived(scan.host), step: StepView::ScanPorts, ..scan },
        },
        (StepView::ResolveHops(_), AnswerView::Candidates(candidates)) => HostScanView {
            host: arrived(with_hops(scan.host, valid(candidates))),
            step: StepView::ScanPorts,
            ..scan
        },
        (StepView::ScanPorts, AnswerView::Output(output)) => match output {
            Some(report) => HostScanView {
                host: scanned_host(scan.host, xml_events(report)),
                step: StepView::Finished,
                ..scan
            },
            None => HostScanView { step: StepView::Finished, ..scan },
        },
        _ => scan,
    }
}

impl HostScan {
    #[verifier::type_invariant]
    spec fn well_formed(self) -> bool {
        self.step@ == StepView::Finished || self.host@.ip is Some
    }

    /// The scan of `host`, whose port scan reports into the file `report`.
    pub fn new(host: Host, report: String) -> (result: Self)
        ensures
            result@ == scan_of(host@, report@),
    {
        let step = if needs_trace(&host) {
            Step::ListRoutes
        } else if host.ip.is_some() {
            Step::ScanPorts
        } else {
            Step::Finished
        };
        HostScan { host, report, step }
    }

    /// What the scan asks for next.
    pub fn action(&self) -> (result: Action)
        ensures
            result@ == scan_action(self@),
    {
        proof {
            use_type_invariant(self);
        }
        match (&self.step, &self.host.ip) {
            (Step::ListRoutes, Some(ip)) => Action::Capture(list_routes(ip.as_str())),
            (Step::ResolveGateway(text), _) => {
                let mut texts: Vec<String> = Vec::new();
                texts.push(text.clone());
                assert(texts.deep_view() == seq![text@]);
                Action::Resolve(texts)
            },
            (Step::TraceRoute, Some(ip)) => Action::Capture(
                trace_route(ip.as_str(), self.host.max_hops),
            ),
            (Step::ResolveHops(texts), _) => Action::TryResolve(copy_texts(texts)),
            (Step::ScanPorts, Some(_)) => Action::Report(
                scan_ports(&self.host, self.report.as_str()),
                self.report.clone(),
            ),
            _ => Action::Finish,
        }
    }

    /// Goes on with the answer to what the scan asked for.
    pub fn advance(self, answer: Answer) -> (result: Self)
        ensures
            result@ == scan_after(self@, answer@),
    {
        proof {
            use_type_invariant(&self);
        }
        let HostScan { host, report, step } = self;
        let mut host = host;
        match (step, answer) {
            (Step::ListRoutes, Answer::Output(Some(table))) => {
                let (text, network) = gateway(&routes(table.as_str()));
                if let Some(network) = network {
                    host.ipnet = network;
                }
                HostScan { host, report, step: Step::ResolveGateway(text) }
            },
            (Step::ListRoutes, Answer::Output(None)) => {
                HostScan { host, report, step: Step::TraceRoute }
            },
            (Step::ResolveGateway(_), Answer::Addresses(addresses)) => {
                add_hops(&mut host, addresses);
                HostScan { host, report, step: Step::TraceRoute }
            },
            (Step::TraceRoute, Answer::Output(Some(trace))) => {
                let texts = traced_hops(trace.as_str());
                HostScan { host, report, step: Step::ResolveHops(texts) }
            },
            (Step::TraceRoute, Answer::Output(None)) => {
                arrive(&mut host);
                HostScan { host, report, step: Step::ScanPorts }
            },
            (Step::ResolveHops(_), Answer::Candidates(candidates)) => {
                add_hops(&mut host, valid_addresses(candidates));
                arrive(&mut host);
                HostScan { host, report, step: Step::ScanPorts }
            },
            (Step::ScanPorts, Answer::Output(Some(text))) => {
                let host = apply_report(host, text.as_str());
                HostScan { host, report, step: Step::Finished }
            },
            (Step::ScanPorts, Answer::Output(None)) => {
                HostScan { host, report, step: Step::Finished }
            },
            (step, _) => HostScan { host, report, step },
        }
    }

    /// The host, with what the scan found out so far.
    pub fn into_host(self) -> (result: Host)
        ensures
            result@ == self@.host,
    {
        self.host
    }
}

/// A scan after some answers, one after the other.
pub open spec fn scan_after_all(scan: HostScanView, answers: Seq<AnswerView>) -> HostScanView
    decreases answers.len(),
{
    if answers.len() == 0 {
        scan
    } else {
        scan_after(scan_after_all(scan, answers.drop_last()), answers.last())
    }
}

/// Whether `answer` answers `action`.
pub open spec fn answers(action: ActionView, answer: AnswerView) -> bool {
    match action {
        ActionView::Capture(_) => answer is Output,
        ActionView::Report(_, _) => answer is Output,
        ActionView::Resolve(_) => answer is Addresses,
        ActionView::TryResolve(_) => answer is Candidates,
        ActionView::Finish => false,
    }
}

/// How many actions a scan may still ask for.
pub open spec fn steps_left(step: StepView) -> nat {
    match step {
        StepView::ListRoutes => 5,
        StepView::ResolveGateway(_) => 4,
        StepView::TraceRoute => 3,
        StepView::ResolveHops(_) => 2,
        StepView::ScanPorts => 1,
        StepView::Finished => 0,
    }
}

/// A scan ends: each answer to what it asked for brings it closer to the end, and once it has
/// ended it asks for nothing and nothing changes it.
pub proof fn law_scan_ends(scan: HostScanView, answer: AnswerView)
    ensures
        answers(scan_action(scan), answer) ==> steps_left(scan_after(scan, answer).step)
            < steps_left(scan.step),
        scan_action(scan) == ActionView::Finish <==> steps_left(scan.step) == 0,
        steps_left(scan.step) == 0 ==> scan_after(scan, answer) == scan,
{
}

/// An answer to something that the scan did not ask for changes nothing.
pub proof fn law_stray_answer(scan: HostScanView, answer: AnswerView)
    requires
        !answers(scan_action(scan), answer),
    ensures
        scan_after(scan, answer) == scan,
{
}

/// A host after its routes were asked for: where they could be listed, the gateway is the next
/// hop, and the network may be known.
pub open spec fn routed_host(
    host: HostView,
    table: Option<Seq<char>>,
    gateway: Seq<char>,
) -> HostView {
    match table {
        Some(table) => with_hops(
            with_network(host, gateway_of(routes_of(line_seq(table))).1),
            seq![gateway],
        ),
        None => host,
    }
}

/// The way to a host after its trace: the gateway where the routing table could be listed, the
/// hops that answered where the trace could be run, and at last the host itself.
pub open spec fn traced_host(
    host: HostView,
    table: Option<Seq<char>>,
    gateway: Seq<char>,
    trace: Option<Seq<char>>,
    candidates: Seq<Option<Seq<char>>>,
) -> HostView {
    let routed = routed_host(host, table, gateway);
    arrived(
        match trace {
            Some(_) => with_hops(routed, valid(candidates)),
            None => routed,
        },
    )
}

/// The answers to what a scan asks of the routes to a host.
pub open spec fn routing_answers(table: Option<Seq<char>>, gateway: Seq<char>) -> Seq<AnswerView> {
    match table {
        Some(_) => seq![AnswerView::Output(table), AnswerView::Addresses(seq![gateway])],
        None => seq![AnswerView::Output(table)],
    }
}

/// The answers to what a scan asks of the way to a host.
pub open spec fn tracing_answers(
    trace: Option<Seq<char>>,
    candidates: Seq<Option<Seq<char>>>,
) -> Seq<AnswerView> {
    match trace {
        Some(_) => seq![AnswerView::Output(trace), AnswerView::Candidates(candidates)],
        None => seq![AnswerView::Output(trace)],
    }
}

/// The answers to all that the scan of an untraced host asks for.
pub open spec fn scan_answers(
    table: Option<Seq<char>>,
    gateway: Seq<char>,
    trace: Option<Seq<char>>,
    candidates: Seq<Option<Seq<char>>>,
    report: Option<Seq<char>>,
) -> Seq<AnswerView> {
    routing_answers(table, gateway) + tracing_answers(trace, candidates) + seq![
        AnswerView::Output(report),
    ]
}

/// A scan that is answered to the end traces the way to the host and then adds what the port
/// scan reported.
pub proof fn law_whole_scan(
    host: HostView,
    file: Seq<char>,
    table: Option<Seq<char>>,
    gateway: Seq<char>,
    trace: Option<Seq<char>>,
    candidates: Seq<Option<Seq<char>>>,
    report: Option<Seq<char>>,
)
    requires
        untraced(host),
    ensures
        ({
            let traced = traced_host(host, table, gateway, trace, candidates);
            scan_after_all(
                scan_of(host, file),
                scan_answers(table, gateway, trace, candidates, report),
            ) == HostScanView {
                host: match report {
                    Some(report) => scanned_host(traced, xml_events(report)),
                    None => traced,
                },
                report: file,
                step: StepView::Finished,
            }
        }),
{
    let begin = scan_of(host, file);
    let routing = routing_answers(table, gateway);
    let tracing = tracing_answers(trace, candidates);
    match table {
        Some(table) => lemma_routed(begin, table, gateway),
        None => lemma_not_routed(begin, gateway),
    }
    let routed = scan_after_all(begin, routing);
    law_answers_in_parts(begin, routing, tracing);
    match trace {
        Some(trace) => lemma_traced(routed, trace, candidates),
        None => lemma_not_traced(routed, candidates),
    }
    let traced = scan_after_all(routed, tracing);
    lemma_one_answer(traced, AnswerView::Output(report));
    law_answers_in_parts(begin, routing + tracing, seq![AnswerView::Output(report)]);
}

/// Answers may be given in two parts.
pub proof fn law_answers_in_parts(
    scan: HostScanView,
    first: Seq<AnswerView>,
    second: Seq<AnswerView>,
)
    ensures
        scan_after_all(scan, first + second) == scan_after_all(
            scan_after_all(scan, first),
            second,
        ),
    decreases second.len(),
{
    if second.len() == 0 {
        assert(first + second == first);
    } else {
        law_answers_in_parts(scan, first, second.drop_last());
        assert((first + second).drop_last() == first + second.drop_last());
        assert((first + second).last() == second.last());
    }
}

/// One answer is one step.
proof fn lemma_one_answer(scan: HostScanView, answer: AnswerView)
    ensures
        scan_after_all(scan, seq![answer]) == scan_after(scan, answer),
{
    let one = seq![answer];
    assert(one.drop_last() == Seq::<AnswerView>::empty());
    assert(scan_after_all(scan, one.drop_last()) == scan);
}

/// Two answers are two steps.
proof fn lemma_two_answers(scan: HostScanView, first: AnswerView, second: AnswerView)
    ensures
        scan_after_all(scan, seq![first, second]) == scan_after(scan_after(scan, first), second),
{
    lemma_one_answer(scan, first);
    assert(seq![first, second].drop_last() == seq![first]);
}

/// Where the routes could be listed, the gateway is the next hop.
proof fn lemma_routed(scan: HostScanView, table: Seq<char>, gateway: Seq<char>)
    requires
        scan.step is ListRoutes,
    ensures
        scan_after_all(scan, routing_answers(Some(table), gateway)) == (HostScanView {
            host: routed_host(scan.host, Some(table), gateway),
            step: StepView::TraceRoute,
            ..scan
        }),
{
    lemma_two_answers(
        scan,
        AnswerView::Output(Some(table)),
        AnswerView::Addresses(seq![gateway]),
    );
}

/// Where the routes could not be listed, no hop is added.
proof fn lemma_not_routed(scan: HostScanView, gateway: Seq<char>)
    requires
        scan.step is ListRoutes,
    ensures
        scan_after_all(scan, routing_answers(None, gateway)) == (HostScanView {
            host: routed_host(scan.host, None, gateway),
            step: StepView::TraceRoute,
            ..scan
        }),
{
    lemma_one_answer(scan, AnswerView::Output(None));
}

/// Where the way could be traced, the hops that answered come next, and at last the host.
proof fn lemma_traced(scan: HostScanView, trace: Seq<char>, candidates: Seq<Option<Seq<char>>>)
    requires
        scan.step is TraceRoute,
    ensures
        scan_after_all(scan, tracing_answers(Some(trace), candidates)) == (HostScanView {
            host: arrived(with_hops(scan.host, valid(candidates))),
            step: StepView::ScanPorts,
            ..scan
        }),
{
    lemma_two_answers(
        scan,
        AnswerView::Output(Some(trace)),
        AnswerView::Candidates(candidates),
    );
}

/// Where the way could not be traced, the host comes next.
proof fn lemma_not_traced(scan: HostScanView, candidates: Seq<Option<Seq<char>>>)
    requires
        scan.step is TraceRoute,
    ensures
        scan_after_all(scan, tracing_answers(None, candidates)) == (HostScanView {
            host: arrived(scan.host),
            step: StepView::ScanPorts,
            ..scan
        }),
{
    lemma_one_answer(scan, AnswerView::Output(None));
}

/// The scan of a host whose way is known begins with its ports, and ends with what their scan
/// reported.
pub proof fn law_scan_of_known_way(host: HostView, file: Seq<char>, report: Option<Seq<char>>)
    requires
        !untraced(host),
        host.ip is Some,
    ensures
        scan_action(scan_of(host, file)) == ActionView::Report(portscan_command(host, file), file),
        scan_after(scan_of(host, file), AnswerView::Output(report)) == (HostScanView {
            host: match report {
                Some(report) => scanned_host(host, xml_events(report)),
                None => host,
            },
            report: file,
            step: StepView::Finished,
        }),
{
}

/// The scan of a host without an address has ended before it began, and nothing changes the host.
pub proof fn law_scan_without_address(host: HostView, file: Seq<char>, all: Seq<AnswerView>)
    requires
        host.ip is None,
    ensures
        scan_action(scan_of(host, file)) == ActionView::Finish,
        scan_after_all(scan_of(host, file), all) == scan_of(host, file),
    decreases all.len(),
{
    if all.len() > 0 {
        law_scan_without_address(host, file, all.drop_last());
    }
}

/// What a scan makes of a host depends on the host and the answers, not on the file that the
/// report is written into.
pub proof fn law_file_does_not_matter(
    host: HostView,
    first: Seq<char>,
    second: Seq<char>,
    all: Seq<AnswerView>,
)
    ensures
        scan_after_all(scan_of(host, first), all).host == scan_after_all(
            scan_of(host, second),
            all,
        ).host,
        scan_after_all(scan_of(host, first), all).step == scan_after_all(
            scan_of(host, second),
            all,
        ).step,
    decreases all.len(),
{
    if all.len() > 0 {
        law_file_does_not_matter(host, first, second, all.drop_last());
    }
}

/// Whatever is answered, a scan keeps what identifies the host and how it is to be scanned, and
/// the hops, services and vulnerabilities that were known; it only adds to them.
pub proof fn law_scan_only_adds(host: HostView, file: Seq<char>, all: Seq<AnswerView>)
    ensures
        ({
            let after = scan_after_all(scan_of(host, file), all).host;
            &&& after.network == host.network
            &&& after.ip == host.ip
            &&& after.extended_scan == host.extended_scan
            &&& after.version_check == host.version_check
            &&& after.scan_arguments == host.scan_arguments
            &&& after.max_hops == host.max_hops
            &&& after.windows == host.windows
            &&& host.hops.is_prefix_of(after.hops)
            &&& host.services.is_prefix_of(after.services)
        }),
    decreases all.len(),
{
    if all.len() > 0 {
        law_scan_only_adds(host, file, all.drop_last());
        let before = scan_after_all(scan_of(host, file), all.drop_last());
        let after = scan_after_all(scan_of(host, file), all);
        if let AnswerView::Output(Some(report)) = all.last() {
            law_scan_keeps_the_rest(before.host, xml_events(report));
            law_scan_appends_services(before.host, xml_events(report));
        }
        assert(before.host.hops.is_prefix_of(after.host.hops));
        assert(before.host.services.is_prefix_of(after.host.services));
        let hops = host.hops.len() as int;
        let services = host.services.len() as int;
        assert(after.host.hops.take(hops) == before.host.hops.take(hops));
        assert(after.host.services.take(services) == before.host.services.take(services));
    }
}

/// The ports of a host are scanned only once the way to it is known, and it stays known: some hop
/// of a host whose scan has ended is the host itself.
pub proof fn law_traced_before_ports(host: HostView, file: Seq<char>, all: Seq<AnswerView>)
    ensures
        ({
            let scan = scan_after_all(scan_of(host, file), all);
            scan.step is ScanPorts || scan.step is Finished ==> !untraced(scan.host)
        }),
    decreases all.len(),
{
    if all.len() > 0 {
        law_traced_before_ports(host, file, all.drop_last());
        let before = scan_after_all(scan_of(host, file), all.drop_last());
        match all.last() {
            AnswerView::Output(Some(report)) => {
                law_scan_keeps_the_rest(before.host, xml_events(report));
            },
            AnswerView::Output(None) => {
                law_arrived(before.host);
            },
            AnswerView::Candidates(candidates) => {
                law_arrived(with_hops(before.host, valid(candidates)));
            },
            _ => {},
        }
    }
}

/// A scan of a host begins with the host as it is: it first lists the routes if no hop is the host
/// itself, else it begins with the ports, and it has ended if there is no address.
pub proof fn law_scan_begins(host: HostView, file: Seq<char>)
    ensures
        scan_of(host, file).host == host,
        scan_of(host, file).report == file,
        host.ip is None ==> scan_of(host, file).step is Finished,
        host.ip matches Some(ip) ==> (scan_of(host, file).step is ListRoutes <==> forall|i: int|
            0 <= i < host.hops.len() ==> #[trigger] host.hops[i] != ip),
        host.ip matches Some(ip) ==> (scan_of(host, file).step is ScanPorts <==> exists|i: int|
            0 <= i < host.hops.len() && #[trigger] host.hops[i] == ip),
{
    law_untraced(host);
}

/// A scan asks about the address of its host: for the routes to it, for the way to it within the
/// limit of the host, and for its ports into the file of the scan. Texts are handed out to be read
/// as addresses, all of them and in order: the gateway has to be one, a hop need not be.
pub proof fn law_scan_asks(scan: HostScanView, ip: Seq<char>)
    requires
        scan.host.ip == Some(ip),
    ensures
        scan.step is ListRoutes ==> {
            &&& scan_action(scan) matches ActionView::Capture(command)
            &&& command.program == "ip"@
            &&& command.args == seq!["route"@, "list"@, "match"@, ip]
        },
        scan.step matches StepView::ResolveGateway(text) ==> {
            &&& scan_action(scan) matches ActionView::Resolve(texts)
            &&& texts == seq![text]
        },
        scan.step is TraceRoute ==> {
            &&& scan_action(scan) matches ActionView::Capture(command)
            &&& command.program == "traceroute"@
            &&& command.args.len() == 5
            &&& command.args.last() == ip
            &&& command.args.take(3) == seq!["-n"@, "-q 1"@, "-m"@]
            &&& scan.host.max_hops matches Some(limit) ==> command.args[3] == digits_of(
                limit as nat,
            )
            &&& scan.host.max_hops is None ==> command.args[3] == "15"@
        },
        scan.step matches StepView::ResolveHops(hops) ==> {
            &&& scan_action(scan) matches ActionView::TryResolve(texts)
            &&& texts == hops
        },
        scan.step is ScanPorts ==> {
            &&& scan_action(scan) matches ActionView::Report(command, file)
            &&& file == scan.report
            &&& command == portscan_command(scan.host, scan.report)
        },
        scan.step is Finished ==> scan_action(scan) is Finish,
{
    let limit = match scan.host.max_hops {
        Some(limit) => limit,
        None => 0u16,
    };
    law_trace_command(ip, limit);
    law_route_command(ip);
    assert(route_command(ip).args =~= route_command(ip).args.take(3).push(ip));
    assert(route_command(ip).args =~= seq!["route"@, "list"@, "match"@, ip]);
    if scan.step is TraceRoute {
        let command = trace_command(ip, scan.host.max_hops);
        assert(scan_action(scan) == ActionView::Capture(command));
        assert(command.args.take(3) == seq!["-n"@, "-q 1"@, "-m"@]);
    }
}

/// A scan learns from the routing table which gateway to take as an address, and the network of
/// the host if the table tells it. Without a table it goes on with the trace.
pub proof fn law_table_taken(scan: HostScanView, table: Seq<char>)
    requires
        scan.step is ListRoutes,
    ensures
        ({
            let after = scan_after(scan, AnswerView::Output(Some(table)));
            let told = gateway_of(routes_of(line_seq(table)));
            &&& after.step == StepView::ResolveGateway(told.0)
            &&& told.1 matches Some(network) ==> after.host.ipnet == network
            &&& told.1 is None ==> after.host.ipnet == scan.host.ipnet
            &&& after.host == (HostView { ipnet: after.host.ipnet, ..scan.host })
            &&& after.report == scan.report
        }),
        scan_after(scan, AnswerView::Output(None)) == (HostScanView {
            step: StepView::TraceRoute,
            ..scan
        }),
{
}

/// The gateway is the next hop.
pub proof fn law_gateway_taken(scan: HostScanView, gateway: Seq<char>)
    requires
        scan.step is ResolveGateway,
    ensures
        ({
            let after = scan_after(scan, AnswerView::Addresses(seq![gateway]));
            &&& after.step == StepView::TraceRoute
            &&& after.host.hops == scan.host.hops.push(gateway)
            &&& after.host == (HostView { hops: after.host.hops, ..scan.host })
            &&& after.report == scan.report
        }),
{
    assert(scan.host.hops + seq![gateway] =~= scan.host.hops.push(gateway));
}

/// The hops that the trace gives are to be read as addresses. Without a trace the host itself is
/// the next hop, if it is none yet.
pub proof fn law_trace_taken(scan: HostScanView, trace: Seq<char>, ip: Seq<char>)
    requires
        scan.step is TraceRoute,
        scan.host.ip == Some(ip),
    ensures
        scan_after(scan, AnswerView::Output(Some(trace))) == (HostScanView {
            step: StepView::ResolveHops(hops_of(line_seq(trace))),
            ..scan
        }),
        ({
            let after = scan_after(scan, AnswerView::Output(None));
            &&& after.step == StepView::ScanPorts
            &&& after.host.hops == if scan.host.hops.contains(ip) {
                scan.host.hops
            } else {
                scan.host.hops.push(ip)
            }
            &&& after.host == (HostView { hops: after.host.hops, ..scan.host })
            &&& after.report == scan.report
        }),
{
    law_last_hop(scan.host);
    assert(scan.host.hops.contains(ip) <==> exists|i: int|
        0 <= i < scan.host.hops.len() && #[trigger] scan.host.hops[i] == ip);
}

/// The hops that are addresses come next, all of them and in order, and the host itself is the
/// last, if no hop is.
pub proof fn law_hops_taken(
    scan: HostScanView,
    candidates: Seq<Option<Seq<char>>>,
    ip: Seq<char>,
)
    requires
        scan.step is ResolveHops,
        scan.host.ip == Some(ip),
    ensures
        ({
            let after = scan_after(scan, AnswerView::Candidates(candidates));
            let way = scan.host.hops + valid(candidates);
            &&& after.step == StepView::ScanPorts
            &&& after.host.hops == if way.contains(ip) {
                way
            } else {
                way.push(ip)
            }
            &&& after.host == (HostView { hops: after.host.hops, ..scan.host })
            &&& after.report == scan.report
        }),
{
    let way = scan.host.hops + valid(candidates);
    let host = with_hops(scan.host, valid(candidates));
    law_hops_added(scan.host, valid(candidates));
    law_last_hop(host);
    assert(way.contains(ip) <==> exists|i: int|
        0 <= i < host.hops.len() && #[trigger] host.hops[i] == ip);
}

/// The report of the port scan is read into the host, and the scan has ended. Without a report it
/// has ended too.
pub proof fn law_report_taken(scan: HostScanView, report: Seq<char>)
    requires
        scan.step is ScanPorts,
    ensures
        scan_after(scan, AnswerView::Output(Some(report))) == (HostScanView {
            host: after_events(unread(scan.host), xml_events(report)).host,
            step: StepView::Finished,
            ..scan
        }),
        scan_after(scan, AnswerView::Output(None)) == (HostScanView {
            step: StepView::Finished,
            ..scan
        }),
{
}

/// The hops of a host whose scan is answered to the end: those that were known, the gateway, those
/// of the trace that are addresses, and the host itself if it is none of them.
pub proof fn law_way_recorded(
    host: HostView,
    file: Seq<char>,
    table: Seq<char>,
    gateway: Seq<char>,
    trace: Seq<char>,
    candidates: Seq<Option<Seq<char>>>,
    report: Seq<char>,
    ip: Seq<char>,
)
    requires
        host.ip == Some(ip),
        !host.hops.contains(ip),
    ensures
        ({
            let after = scan_after_all(
                scan_of(host, file),
                seq![
                    AnswerView::Output(Some(table)),
                    AnswerView::Addresses(seq![gateway]),
                    AnswerView::Output(Some(trace)),
                    AnswerView::Candidates(candidates),
                    AnswerView::Output(Some(report)),
                ],
            );
            let way = host.hops.push(gateway) + valid(candidates);
            &&& after.step is Finished
            &&& after.host.hops == if way.contains(ip) {
                way
            } else {
                way.push(ip)
            }
        }),
{
    let all = seq![
        AnswerView::Output(Some(table)),
        AnswerView::Addresses(seq![gateway]),
        AnswerView::Output(Some(trace)),
        AnswerView::Candidates(candidates),
        AnswerView::Output(Some(report)),
    ];
    assert(all =~= scan_answers(Some(table), gateway, Some(trace), candidates, Some(report)));
    law_whole_scan(host, file, Some(table), gateway, Some(trace), candidates, Some(report));
    let traced = traced_host(host, Some(table), gateway, Some(trace), candidates);
    law_scan_keeps_the_rest(traced, xml_events(report));
    let routed = routed_host(host, Some(table), gateway);
    assert(routed.hops =~= host.hops.push(gateway));
    let before = with_hops(routed, valid(candidates));
    law_last_hop(before);
    let way = host.hops.push(gateway) + valid(candidates);
    assert(before.hops =~= way);
    assert(way.contains(ip) <==> exists|i: int|
        0 <= i < before.hops.len() && #[trigger] before.hops[i] == ip);
}

} // verus!
