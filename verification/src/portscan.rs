//! Scanning a host for open ports, services and vulnerabilities.

use crate::command::{CommandLine, CommandLineView};
use crate::hosts::{
    blank_host, blank_service, blank_vulnerability, Host, HostView, Protocol, Service, ServiceView,
    State, Vulnerability, VulnerabilityView,
};
use crate::report::{attribute, attribute_value, read_events, xml_events, Event, EventView};
use crate::scripts::{
    elements_of, law_element_added, with_element, ScriptElement, ScriptElementView,
};
use crate::text::{digits_of, law_decimal_text, law_number_single, parse_u16, same, u16_of};
use vstd::prelude::*;

verus! {

/// The command that scans `host` as it is to be scanned, into the file `report`.
pub open spec fn portscan_command(host: HostView, report: Seq<char>) -> CommandLineView {
    CommandLineView {
        program: "sudo"@,
        args: seq!["nmap"@, "-O"@, "-sT"@] + (if host.version_check || host.extended_scan {
            seq!["-sV"@]
        } else {
            seq![]
        }) + (if host.scan_arguments.len() > 0 {
            seq!["--script-args="@ + host.scan_arguments]
        } else {
            seq![]
        }) + (if host.extended_scan {
            seq!["--script=vulners"@]
        } else {
            seq!["--script=./scripts/"@]
        }) + seq!["-oX"@, report, host.ip->0],
    }
}

/// The command that scans `host` as it is to be scanned, into the file `report`.
pub fn scan_ports(host: &Host, report: &str) -> (result: CommandLine)
    requires
        host@.ip is Some,
    ensures
        result@ == portscan_command(host@, report@),
{
    let mut command = CommandLine::new("sudo");
    command.arg("nmap");
    command.arg("-O");
    command.arg("-sT");
    if host.version_check || host.extended_scan {
        command.arg("-sV");
    }
    if !host.scan_arguments.as_str().is_empty() {
        let mut arguments = "--script-args=".to_owned();
        arguments.append(host.scan_arguments.as_str());
        command.arg(arguments.as_str());
    }
    if host.extended_scan {
        command.arg("--script=vulners");
    } else {
        command.arg("--script=./scripts/");
    }
    command.arg("-oX");
    command.arg(report);
    if let Some(ip) = &host.ip {
        command.arg(ip.as_str());
    }
    assert(command@.args =~= portscan_command(host@, report@).args);
    command
}

/// A scan report that is being read: what is known of the host, and what the element that the
/// reader is inside of has said so far.
#[derive(Debug)]
pub struct PortScan {
    pub host: Host,
    /// The service of the port that is being read.
    pub service: Service,
    /// The vulnerability that is being read.
    pub vulners: Vulnerability,
    /// Whether the reader is inside the output of a script.
    pub is_script: bool,
    /// The script whose output was begun last.
    pub script_id: String,
    /// The key of the script element that was begun last.
    pub script_elem_key: String,
}

/// The contents of a [`PortScan`].
#[verifier::ext_equal]
pub struct PortScanView {
    pub host: HostView,
    pub service: ServiceView,
    pub vulners: VulnerabilityView,
    pub is_script: bool,
    pub script_id: Seq<char>,
    pub script_elem_key: Seq<char>,
}

impl View for PortScan {
    type V = PortScanView;

    open spec fn view(&self) -> PortScanView {
        PortScanView {
            host: self.host@,
            service: self.service@,
            vulners: self.vulners@,
            is_script: self.is_script,
            script_id: self.script_id@,
            script_elem_key: self.script_elem_key@,
        }
    }
}

/// A report on `host` of which nothing has been read.
pub open spec fn unread(host: HostView) -> PortScanView {
    PortScanView {
        host,
        service: blank_service(),
        vulners: blank_vulnerability(),
        is_script: false,
        script_id: seq![],
        script_elem_key: seq![],
    }
}

/// A text that may be missing, the empty one if it is.
pub open spec fn text_or_empty(text: Option<Seq<char>>) -> Seq<char> {
    match text {
        Some(text) => text,
        None => seq![],
    }
}

/// The port number that an attribute gives, zero if it gives none.
pub open spec fn port_of(text: Option<Seq<char>>) -> u16 {
    match u16_of(text_or_empty(text)) {
        Some(port) => port,
        None => 0,
    }
}

/// The protocol that an attribute names.
pub open spec fn protocol_of(text: Option<Seq<char>>) -> Protocol {
    if text == Some("tcp"@) {
        Protocol::TCP
    } else if text == Some("udp"@) {
        Protocol::UDP
    } else {
        Protocol::UNKNOWN
    }
}

/// The port state that an attribute names.
pub open spec fn state_of(text: Option<Seq<char>>) -> State {
    if text == Some("open"@) {
        State::OPEN
    } else if text == Some("filter"@) {
        State::FILTER
    } else if text == Some("close"@) {
        State::CLOSE
    } else {
        State::UNKNOWN
    }
}

/// `scan` after the start of an element.
pub open spec fn after_start(
    scan: PortScanView,
    name: Seq<char>,
    attributes: Seq<(Seq<char>, Seq<char>)>,
) -> PortScanView {
    if name == "port"@ {
        PortScanView {
            service: ServiceView {
                port: port_of(attribute_value(attributes, "portid"@)),
                protocol: protocol_of(attribute_value(attributes, "protocol"@)),
                ..scan.service
            },
            ..scan
        }
    } else if name == "state"@ {
        PortScanView {
            service: ServiceView {
                state: state_of(attribute_value(attributes, "state"@)),
                ..scan.service
            },
            ..scan
        }
    } else if name == "service"@ {
        PortScanView {
            service: ServiceView {
                name: text_or_empty(attribute_value(attributes, "name"@)),
                product: text_or_empty(attribute_value(attributes, "product"@)),
                version: text_or_empty(attribute_value(attributes, "version"@)),
                ..scan.service
            },
            ..scan
        }
    } else if name == "osmatch"@ {
        PortScanView {
            host: HostView { os: attribute_value(attributes, "name"@), ..scan.host },
            ..scan
        }
    } else if name == "script"@ {
        PortScanView {
            is_script: true,
            script_id: text_or_empty(attribute_value(attributes, "id"@)),
            ..scan
        }
    } else if name == "elem"@ {
        PortScanView {
            script_elem_key: if attributes.len() > 0 {
                attributes[0].1
            } else {
                seq![]
            },
            ..scan
        }
    } else {
        scan
    }
}

/// What is known of a vulnerability after the script gave `text` for `key`.
pub open spec fn after_vulners(
    vulners: VulnerabilityView,
    key: Seq<char>,
    text: Seq<char>,
) -> VulnerabilityView {
    if key == "id"@ {
        VulnerabilityView { id: text, ..vulners }
    } else if key == "type"@ {
        VulnerabilityView { database: text, ..vulners }
    } else if key == "is_exploit"@ {
        VulnerabilityView { exploit: text == "true"@, ..vulners }
    } else if key == "cvss"@ {
        VulnerabilityView { cvss: text, ..vulners }
    } else {
        vulners
    }
}

/// `scan` after character data.
pub open spec fn after_text(scan: PortScanView, text: Seq<char>) -> PortScanView {
    if !scan.is_script {
        scan
    } else if scan.script_id == "vulners"@ {
        PortScanView {
            vulners: after_vulners(scan.vulners, scan.script_elem_key, text),
            ..scan
        }
    } else if scan.script_elem_key.len() > 0 {
        PortScanView {
            host: HostView {
                scripts: with_element(
                    scan.host.scripts,
                    scan.script_id,
                    ScriptElementView { key: scan.script_elem_key, value: text },
                ),
                ..scan.host
            },
            ..scan
        }
    } else {
        scan
    }
}

/// `scan` after the end of an element.
pub open spec fn after_end(scan: PortScanView, name: Seq<char>) -> PortScanView {
    if name == "port"@ {
        PortScanView {
            host: HostView {
                services: scan.host.services.push(scan.service),
                ..scan.host
            },
            service: blank_service(),
            ..scan
        }
    } else if scan.is_script && name == "table"@ && scan.vulners.id.len() > 0 {
        PortScanView {
            service: ServiceView {
                vulns: scan.service.vulns.push(scan.vulners),
                ..scan.service
            },
            vulners: blank_vulnerability(),
            ..scan
        }
    } else if scan.is_script && name == "script"@ {
        PortScanView { is_script: false, ..scan }
    } else {
        scan
    }
}

/// `scan` after one event of the report.
pub open spec fn after_event(scan: PortScanView, event: EventView) -> PortScanView {
    match event {
        EventView::Start { name, attributes } => after_start(scan, name, attributes),
        EventView::Text { text } => after_text(scan, text),
        EventView::End { name } => after_end(scan, name),
        EventView::Other => scan,
    }
}

/// `scan` after some events of the report, one after the other.
pub open spec fn after_events(scan: PortScanView, events: Seq<EventView>) -> PortScanView
    decreases events.len(),
{
    if events.len() == 0 {
        scan
    } else {
        after_event(after_events(scan, events.drop_last()), events.last())
    }
}

/// What is known of `host` after a scan that reported `events`.
pub open spec fn scanned_host(host: HostView, events: Seq<EventView>) -> HostView {
    after_events(unread(host), events).host
}

/// A text that may be missing, the empty one if it is.
fn or_empty(text: Option<String>) -> (result: String)
    ensures
        result@ == text_or_empty(text.deep_view()),
{
    match text {
        Some(text) => text,
        None => String::new(),
    }
}

/// Whether an attribute has the value `expected`.
fn has_value(text: &Option<String>, expected: &str) -> (result: bool)
    ensures
        result == (text.deep_view() == Some(expected@)),
{
    match text {
        Some(text) => same(text.as_str(), expected),
        None => false,
    }
}

/// The port number that an attribute gives, zero if it gives none.
fn port(text: Option<String>) -> (result: u16)
    ensures
        result == port_of(text.deep_view()),
{
    match parse_u16(or_empty(text).as_str()) {
        Some(port) => port,
        None => 0,
    }
}

/// The protocol that an attribute names.
fn protocol(text: Option<String>) -> (result: Protocol)
    ensures
        result == protocol_of(text.deep_view()),
{
    if has_value(&text, "tcp") {
        Protocol::TCP
    } else if has_value(&text, "udp") {
        Protocol::UDP
    } else {
        Protocol::UNKNOWN
    }
}

/// The port state that an attribute names.
fn state(text: Option<String>) -> (result: State)
    ensures
        result == state_of(text.deep_view()),
{
    if has_value(&text, "open") {
        State::OPEN
    } else if has_value(&text, "filter") {
        State::FILTER
    } else if has_value(&text, "close") {
        State::CLOSE
    } else {
        State::UNKNOWN
    }
}

impl PortScan {
    /// A report on `host` of which nothing has been read.
    pub fn new(host: Host) -> (result: Self)
        ensures
            result@ == unread(host@),
    {
        PortScan {
            host,
            service: Service::default(),
            vulners: Vulnerability::default(),
            is_script: false,
            script_id: String::new(),
            script_elem_key: String::new(),
        }
    }

    /// Reads the start of an element.
    pub fn start(&mut self, name: &str, attributes: &Vec<(String, String)>)
        ensures
            final(self)@ == after_start(old(self)@, name@, attributes.deep_view()),
    {
        if same(name, "port") {
            self.service.port = port(attribute(attributes, "portid"));
            self.service.protocol = protocol(attribute(attributes, "protocol"));
        } else if same(name, "state") {
            self.service.state = state(attribute(attributes, "state"));
        } else if same(name, "service") {
            self.service.name = or_empty(attribute(attributes, "name"));
            self.service.product = or_empty(attribute(attributes, "product"));
            self.service.version = or_empty(attribute(attributes, "version"));
        } else if same(name, "osmatch") {
            self.host.os = attribute(attributes, "name");
        } else if same(name, "script") {
            self.is_script = true;
            self.script_id = or_empty(attribute(attributes, "id"));
        } else if same(name, "elem") {
            self.script_elem_key = if attributes.len() > 0 {
                attributes[0].1.clone()
            } else {
                String::new()
            };
        }
    }

    /// Reads character data.
    pub fn text(&mut self, text: String)
        ensures
            final(self)@ == after_text(old(self)@, text@),
    {
        if !self.is_script {
            return ;
        }
        let key = self.script_elem_key.as_str();
        if same(self.script_id.as_str(), "vulners") {
            if same(key, "id") {
                self.vulners.id = text;
            } else if same(key, "type") {
                self.vulners.database = text;
            } else if same(key, "is_exploit") {
                self.vulners.exploit = same(text.as_str(), "true");
            } else if same(key, "cvss") {
                self.vulners.cvss = text;
            }
        } else if !key.is_empty() {
            let element = ScriptElement { key: self.script_elem_key.clone(), value: text };
            self.host.scripts.add(self.script_id.as_str(), element);
        }
    }

    /// Reads the end of an element.
    pub fn end(&mut self, name: &str)
        ensures
            final(self)@ == after_end(old(self)@, name@),
    {
        if same(name, "port") {
            let mut service = Service::default();
            std::mem::swap(&mut service, &mut self.service);
            let ghost before = self.host.services.deep_view();
            let ghost added = service@;
            self.host.services.push(service);
            assert(self.host.services.deep_view() == before.push(added));
        } else if self.is_script && same(name, "table") && !self.vulners.id.as_str().is_empty() {
            let mut vulners = Vulnerability::default();
            std::mem::swap(&mut vulners, &mut self.vulners);
            let ghost before = self.service.vulns.deep_view();
            let ghost added = vulners@;
            self.service.vulns.push(vulners);
            assert(self.service.vulns.deep_view() == before.push(added));
        } else if self.is_script && same(name, "script") {
            self.is_script = false;
        }
    }

    /// Reads one event of the report.
    pub fn event(&mut self, event: Event)
        ensures
            final(self)@ == after_event(old(self)@, event@),
    {
        match event {
            Event::StartElement { name, attributes } => self.start(name.as_str(), &attributes),
            Event::Characters(text) => self.text(text),
            Event::EndElement { name } => self.end(name.as_str()),
            _ => {},
        }
    }
}

/// Adds to `host` what the events of a scan report say.
pub fn apply_events(host: Host, events: Vec<Event>) -> (result: Host)
    ensures
        result@ == scanned_host(host@, events.deep_view()),
{
    let ghost all = events.deep_view();
    let mut scan = PortScan::new(host);
    assert(scan@ == after_events(unread(host@), all.take(0)));
    for event in iter: events
        invariant
            iter.seq() == events@,
            all == events.deep_view(),
            scan@ == after_events(unread(host@), all.take(iter.index() as int)),
    {
        assert(all.take(iter.index() + 1).drop_last() == all.take(iter.index() as int));
        assert(all.take(iter.index() + 1).last() == event@);
        scan.event(event);
    }
    assert(all.take(all.len() as int) == all);
    scan.host
}

/// Adds to `host` what a scan report says.
pub fn apply_report(host: Host, report: &str) -> (result: Host)
    ensures
        result@ == scanned_host(host@, xml_events(report@)),
{
    apply_events(host, read_events(report))
}

/// How many of `events` end an element called `name`.
pub open spec fn count_ends(events: Seq<EventView>, name: Seq<char>) -> nat
    decreases events.len(),
{
    if events.len() == 0 {
        0
    } else {
        count_ends(events.drop_last(), name) + (if events.last() == (EventView::End { name }) {
            1nat
        } else {
            0nat
        })
    }
}

/// Whether `event` starts an element called `name`.
pub open spec fn starts(event: EventView, name: Seq<char>) -> bool {
    event matches EventView::Start { name: n, .. } && n == name
}

/// Reading a report in two parts is reading it at once.
pub proof fn law_read_in_parts(scan: PortScanView, first: Seq<EventView>, second: Seq<EventView>)
    ensures
        after_events(scan, first + second) == after_events(after_events(scan, first), second),
    decreases second.len(),
{
    if second.len() == 0 {
        assert(first + second == first);
    } else {
        law_read_in_parts(scan, first, second.drop_last());
        assert((first + second).drop_last() == first + second.drop_last());
        assert((first + second).last() == second.last());
    }
}

/// A scan changes nothing of a host but its operating system, its services and what scripts
/// reported of it.
pub proof fn law_scan_keeps_the_rest(host: HostView, events: Seq<EventView>)
    ensures
        scanned_host(host, events) == (HostView {
            os: scanned_host(host, events).os,
            services: scanned_host(host, events).services,
            scripts: scanned_host(host, events).scripts,
            ..host
        }),
    decreases events.len(),
{
    if events.len() > 0 {
        law_scan_keeps_the_rest(host, events.drop_last());
    }
}

/// A scan adds one service for each port element of the report, after those that are known.
pub proof fn law_scan_appends_services(host: HostView, events: Seq<EventView>)
    ensures
        scanned_host(host, events).services.len() == host.services.len() + count_ends(
            events,
            "port"@,
        ),
        host.services.is_prefix_of(scanned_host(host, events).services),
    decreases events.len(),
{
    if events.len() > 0 {
        law_scan_appends_services(host, events.drop_last());
        let before = scanned_host(host, events.drop_last()).services;
        let after = scanned_host(host, events).services;
        assert(before.is_prefix_of(after));
        assert(after.take(host.services.len() as int) == before.take(host.services.len() as int));
    }
}

/// The attributes of the last of `events` that starts an element called `name`.
pub open spec fn last_start(events: Seq<EventView>, name: Seq<char>) -> Option<
    Seq<(Seq<char>, Seq<char>)>,
>
    decreases events.len(),
{
    if events.len() == 0 {
        None
    } else {
        match events.last() {
            EventView::Start { name: n, attributes } if n == name => Some(attributes),
            _ => last_start(events.drop_last(), name),
        }
    }
}

/// `service` with the state, the name, the product and the version that the events inside a port
/// element give, of each the last that is given.
pub open spec fn described(service: ServiceView, inner: Seq<EventView>) -> ServiceView {
    let stated = match last_start(inner, "state"@) {
        Some(attributes) => ServiceView {
            state: state_of(attribute_value(attributes, "state"@)),
            ..service
        },
        None => service,
    };
    match last_start(inner, "service"@) {
        Some(attributes) => ServiceView {
            name: text_or_empty(attribute_value(attributes, "name"@)),
            product: text_or_empty(attribute_value(attributes, "product"@)),
            version: text_or_empty(attribute_value(attributes, "version"@)),
            ..stated
        },
        None => stated,
    }
}

/// Whether `inner` may stand inside a port element: port elements do not nest.
pub open spec fn inside_port(inner: Seq<EventView>) -> bool {
    forall|i: int|
        0 <= i < inner.len() ==> !starts(#[trigger] inner[i], "port"@) && inner[i] != (
        EventView::End { name: "port"@ })
}

/// The events of a port element.
pub open spec fn port_events(
    attributes: Seq<(Seq<char>, Seq<char>)>,
    inner: Seq<EventView>,
) -> Seq<EventView> {
    seq![EventView::Start { name: "port"@, attributes }] + inner + seq![
        EventView::End { name: "port"@ },
    ]
}

/// A scan records one service for a port element, after those that are recorded. It carries the
/// number and the protocol that the element states, and the state, the name, the product and the
/// version that are given inside it. What is not given is as it was before the element; after it,
/// nothing is known of the next service.
pub proof fn law_port_recorded(
    scan: PortScanView,
    attributes: Seq<(Seq<char>, Seq<char>)>,
    inner: Seq<EventView>,
)
    requires
        inside_port(inner),
    ensures
        ({
            let after = after_events(scan, port_events(attributes, inner));
            let services = after.host.services;
            &&& services.len() == scan.host.services.len() + 1
            &&& services.drop_last() == scan.host.services
            &&& services.last() == (ServiceView {
                port: port_of(attribute_value(attributes, "portid"@)),
                protocol: protocol_of(attribute_value(attributes, "protocol"@)),
                vulns: services.last().vulns,
                ..described(scan.service, inner)
            })
            &&& scan.service.vulns.is_prefix_of(services.last().vulns)
            &&& after.service == blank_service()
        }),
{
    let opened = after_event(scan, EventView::Start { name: "port"@, attributes });
    lemma_port_read(scan, attributes, inner);
    lemma_inside_port(opened, inner);
    let after = after_events(scan, port_events(attributes, inner));
    assert(after.host.services.drop_last() == scan.host.services);
}

/// Reading a port element is reading its start, what stands inside it and its end.
proof fn lemma_port_read(
    scan: PortScanView,
    attributes: Seq<(Seq<char>, Seq<char>)>,
    inner: Seq<EventView>,
)
    ensures
        after_events(scan, port_events(attributes, inner)) == after_end(
            after_events(after_start(scan, "port"@, attributes), inner),
            "port"@,
        ),
{
    let start = seq![EventView::Start { name: "port"@, attributes }];
    let end = seq![EventView::End { name: "port"@ }];
    assert(start.drop_last() == Seq::<EventView>::empty());
    assert(after_events(scan, start.drop_last()) == scan);
    assert(after_events(scan, start) == after_start(scan, "port"@, attributes));
    law_read_in_parts(scan, start, inner);
    assert((start + inner + end).drop_last() == start + inner);
    assert((start + inner + end).last() == end[0]);
}

/// What stands inside a port element records no service and only describes the one that is being
/// read.
proof fn lemma_inside_port(scan: PortScanView, inner: Seq<EventView>)
    requires
        inside_port(inner),
    ensures
        after_events(scan, inner).host.services == scan.host.services,
        after_events(scan, inner).service == (ServiceView {
            vulns: after_events(scan, inner).service.vulns,
            ..described(scan.service, inner)
        }),
        scan.service.vulns.is_prefix_of(after_events(scan, inner).service.vulns),
    decreases inner.len(),
{
    if inner.len() > 0 {
        let rest = inner.drop_last();
        assert forall|i: int| 0 <= i < rest.len() implies !starts(#[trigger] rest[i], "port"@)
            && rest[i] != (EventView::End { name: "port"@ }) by {
            assert(rest[i] == inner[i]);
        }
        lemma_inside_port(scan, rest);
        assert(inner.last() == inner[inner.len() - 1]);
        assert(!starts(inner.last(), "port"@));
        assert("state"@ != "service"@) by {
            reveal_strlit("state");
            reveal_strlit("service");
            assert("state"@.len() != "service"@.len());
        }
        let known = scan.service.vulns;
        let before = after_events(scan, rest).service.vulns;
        let after = after_events(scan, inner).service.vulns;
        assert(after.take(known.len() as int) == before.take(known.len() as int));
    }
}

/// The service that a port element tells of, read by itself.
pub open spec fn port_service(
    attributes: Seq<(Seq<char>, Seq<char>)>,
    inner: Seq<EventView>,
) -> ServiceView {
    after_events(unread(blank_host()), port_events(attributes, inner)).host.services.last()
}

/// Whether all text in `events` comes after an element of a script has begun.
pub open spec fn text_in_elements(events: Seq<EventView>) -> bool {
    forall|i: int|
        0 <= i < events.len() && (#[trigger] events[i]) is Text ==> exists|j: int|
            0 <= j < i && starts(#[trigger] events[j], "elem"@)
}

/// The service that a scan records for a port element, its vulnerabilities too, comes from this
/// element alone: whatever was read before and whatever host is scanned, it is the service that
/// the element tells of by itself. For this nothing may be left over from what was read before:
/// no service or vulnerability that is begun, no script that has not ended, and no key that text
/// without a key of its own would be taken for.
pub proof fn law_port_alone(
    scan: PortScanView,
    attributes: Seq<(Seq<char>, Seq<char>)>,
    inner: Seq<EventView>,
)
    requires
        inside_port(inner),
        scan.service == blank_service(),
        scan.vulners == blank_vulnerability(),
        !scan.is_script,
        scan.script_elem_key.len() == 0 || text_in_elements(inner),
    ensures
        after_events(scan, port_events(attributes, inner)).host.services.last() == port_service(
            attributes,
            inner,
        ),
{
    let alone = unread(blank_host());
    let opened = after_start(scan, "port"@, attributes);
    let opened_alone = after_start(alone, "port"@, attributes);
    if scan.script_elem_key.len() == 0 {
        assert(scan.script_elem_key =~= alone.script_elem_key);
    }
    lemma_port_read(scan, attributes, inner);
    lemma_port_read(alone, attributes, inner);
    lemma_alike(opened, opened_alone, inner);
}

/// Whether two readers have read the same of a service and a vulnerability, and are inside the
/// same script if they are inside one.
spec fn alike(a: PortScanView, b: PortScanView) -> bool {
    &&& a.service == b.service
    &&& a.vulners == b.vulners
    &&& a.is_script == b.is_script
    &&& a.is_script ==> a.script_id == b.script_id
}

/// Readers that are alike stay alike, as long as no text is taken for keys that differ.
proof fn lemma_alike(a: PortScanView, b: PortScanView, events: Seq<EventView>)
    requires
        alike(a, b),
        a.script_elem_key == b.script_elem_key || text_in_elements(events),
    ensures
        alike(after_events(a, events), after_events(b, events)),
        after_events(a, events).script_elem_key == after_events(b, events).script_elem_key || (
        a.script_elem_key != b.script_elem_key && forall|i: int|
            0 <= i < events.len() ==> !starts(#[trigger] events[i], "elem"@)),
    decreases events.len(),
{
    if events.len() > 0 {
        let rest = events.drop_last();
        let last = events.len() - 1;
        if text_in_elements(events) {
            assert forall|i: int| 0 <= i < rest.len() && (#[trigger] rest[i]) is Text implies (
            exists|j: int| 0 <= j < i && starts(#[trigger] rest[j], "elem"@)) by {
                assert(events[i] is Text);
                let j = choose|j: int| 0 <= j < i && starts(#[trigger] events[j], "elem"@);
                assert(starts(rest[j], "elem"@));
            }
            if events[last] is Text {
                let j = choose|j: int| 0 <= j < last && starts(#[trigger] events[j], "elem"@);
                assert(starts(rest[j], "elem"@));
            }
        }
        lemma_alike(a, b, rest);
        assert forall|i: int|
            0 <= i < events.len() && !starts(events[last], "elem"@) && (forall|k: int|
                0 <= k < rest.len() ==> !starts(#[trigger] rest[k], "elem"@)) implies !starts(
            #[trigger] events[i],
            "elem"@,
        ) by {
            if i < last {
                assert(!starts(rest[i], "elem"@));
            }
        }
        lemma_names();
    }
}

/// The names of the elements that are read differ.
proof fn lemma_names()
    ensures
        "elem"@ != "port"@,
        "elem"@ != "state"@,
        "elem"@ != "service"@,
        "elem"@ != "osmatch"@,
        "elem"@ != "script"@,
        "elem"@ != "table"@,
{
    reveal_strlit("elem");
    reveal_strlit("port");
    reveal_strlit("state");
    reveal_strlit("service");
    reveal_strlit("osmatch");
    reveal_strlit("script");
    reveal_strlit("table");
    assert("elem"@[0] != "port"@[0]);
}

/// What a script reported before a scan stays, and what the scan reports comes after it.
pub proof fn law_scan_appends_script_output(host: HostView, events: Seq<EventView>, id: Seq<char>)
    ensures
        elements_of(host.scripts, id).is_prefix_of(
            elements_of(scanned_host(host, events).scripts, id),
        ),
    decreases events.len(),
{
    if events.len() > 0 {
        law_scan_appends_script_output(host, events.drop_last(), id);
        let first = elements_of(host.scripts, id);
        let before = elements_of(scanned_host(host, events.drop_last()).scripts, id);
        let after = elements_of(scanned_host(host, events).scripts, id);
        assert(before.is_prefix_of(after));
        assert(after.take(first.len() as int) == before.take(first.len() as int));
    }
}

/// What the vulnerability script reports is recorded as vulnerabilities of services alone.
pub proof fn law_vulnerabilities_are_no_script_output(host: HostView, events: Seq<EventView>)
    ensures
        elements_of(scanned_host(host, events).scripts, "vulners"@) == elements_of(
            host.scripts,
            "vulners"@,
        ),
        scanned_host(host, events).scripts.contains_key("vulners"@) == host.scripts.contains_key(
            "vulners"@,
        ),
    decreases events.len(),
{
    if events.len() > 0 {
        law_vulnerabilities_are_no_script_output(host, events.drop_last());
    }
}

/// Whether every vulnerability of a service has an identifier.
pub open spec fn identified(service: ServiceView) -> bool {
    forall|i: int| 0 <= i < service.vulns.len() ==> (#[trigger] service.vulns[i]).id.len() > 0
}

/// Every vulnerability that a scan records has an identifier.
pub proof fn law_vulnerabilities_are_identified(host: HostView, events: Seq<EventView>)
    ensures
        forall|i: int|
            host.services.len() <= i < scanned_host(host, events).services.len() ==> identified(
                #[trigger] scanned_host(host, events).services[i],
            ),
{
    lemma_identified(host, events);
}

/// The service that is being read is identified too.
proof fn lemma_identified(host: HostView, events: Seq<EventView>)
    ensures
        identified(after_events(unread(host), events).service),
        forall|i: int|
            host.services.len() <= i < scanned_host(host, events).services.len() ==> identified(
                #[trigger] scanned_host(host, events).services[i],
            ),
    decreases events.len(),
{
    if events.len() > 0 {
        lemma_identified(host, events.drop_last());
    }
}

/// A report in which no script speaks leaves the script output as it is and adds only services
/// without vulnerabilities.
pub proof fn law_scan_without_scripts(host: HostView, events: Seq<EventView>)
    requires
        forall|i: int| 0 <= i < events.len() ==> !starts(#[trigger] events[i], "script"@),
    ensures
        scanned_host(host, events).scripts == host.scripts,
        forall|i: int|
            host.services.len() <= i < scanned_host(host, events).services.len() ==> (
            #[trigger] scanned_host(host, events).services[i]).vulns.len() == 0,
{
    lemma_without_scripts(host, events);
}

/// The reader is never inside a script, and the service that is being read has no vulnerability.
proof fn lemma_without_scripts(host: HostView, events: Seq<EventView>)
    requires
        forall|i: int| 0 <= i < events.len() ==> !starts(#[trigger] events[i], "script"@),
    ensures
        !after_events(unread(host), events).is_script,
        after_events(unread(host), events).service.vulns.len() == 0,
        scanned_host(host, events).scripts == host.scripts,
        forall|i: int|
            host.services.len() <= i < scanned_host(host, events).services.len() ==> (
            #[trigger] scanned_host(host, events).services[i]).vulns.len() == 0,
    decreases events.len(),
{
    if events.len() > 0 {
        let rest = events.drop_last();
        assert forall|i: int| 0 <= i < rest.len() implies !starts(
            #[trigger] rest[i],
            "script"@,
        ) by {
            assert(rest[i] == events[i]);
        }
        lemma_without_scripts(host, rest);
        assert(!starts(events[events.len() - 1], "script"@));
    }
}

/// The events of an element of a script: its key and its text.
pub open spec fn element_events(key: Seq<char>, text: Seq<char>) -> Seq<EventView> {
    seq![
        EventView::Start { name: "elem"@, attributes: seq![("key"@, key)] },
        EventView::Text { text },
        EventView::End { name: "elem"@ },
    ]
}

/// An element of a script gives its text for its key.
proof fn lemma_element(scan: PortScanView, key: Seq<char>, text: Seq<char>)
    ensures
        after_events(scan, element_events(key, text)) == after_text(
            PortScanView { script_elem_key: key, ..scan },
            text,
        ),
{
    lemma_names();
    let events = element_events(key, text);
    assert(events.drop_last().drop_last().drop_last() == Seq::<EventView>::empty());
    reveal_with_fuel(after_events, 4);
    assert(after_start(scan, "elem"@, seq![("key"@, key)]) == (PortScanView {
        script_elem_key: key,
        ..scan
    }));
}

/// A vulnerability that the vulnerability script reports is recorded with the service whose port
/// is being read, with all that the report says of it.
pub proof fn law_vulnerability_recorded(
    scan: PortScanView,
    id: Seq<char>,
    database: Seq<char>,
    exploit: Seq<char>,
    cvss: Seq<char>,
)
    requires
        scan.is_script,
        scan.script_id == "vulners"@,
        id.len() > 0,
    ensures
        ({
            let events = element_events("id"@, id) + element_events("type"@, database)
                + element_events("is_exploit"@, exploit) + element_events("cvss"@, cvss) + seq![
                EventView::End { name: "table"@ },
            ];
            let after = after_events(scan, events);
            &&& after.service == (ServiceView {
                vulns: scan.service.vulns.push(
                    VulnerabilityView { id, database, exploit: exploit == "true"@, cvss },
                ),
                ..scan.service
            })
            &&& after.vulners == blank_vulnerability()
            &&& after.host == scan.host
        }),
{
    reveal_strlit("id");
    reveal_strlit("type");
    reveal_strlit("is_exploit");
    reveal_strlit("cvss");
    reveal_strlit("port");
    reveal_strlit("table");
    assert("type"@[0] != "cvss"@[0]);
    assert("table"@.len() != "port"@.len());
    let first = element_events("id"@, id);
    let second = element_events("type"@, database);
    let third = element_events("is_exploit"@, exploit);
    let fourth = element_events("cvss"@, cvss);
    let end = seq![EventView::End { name: "table"@ }];
    lemma_element(scan, "id"@, id);
    let one = after_events(scan, first);
    law_read_in_parts(scan, first, second);
    lemma_element(one, "type"@, database);
    let two = after_events(one, second);
    law_read_in_parts(scan, first + second, third);
    lemma_element(two, "is_exploit"@, exploit);
    let three = after_events(two, third);
    law_read_in_parts(scan, first + second + third, fourth);
    lemma_element(three, "cvss"@, cvss);
    let four = after_events(three, fourth);
    assert((first + second + third + fourth + end).drop_last() == first + second + third + fourth);
    assert(four.vulners == (VulnerabilityView {
        id,
        database,
        exploit: exploit == "true"@,
        cvss,
    }));
}

/// An element that another script reports is recorded with what this script reported, under its
/// key; an element without a key is not.
pub proof fn law_script_output_recorded(scan: PortScanView, key: Seq<char>, text: Seq<char>)
    requires
        scan.is_script,
        scan.script_id != "vulners"@,
    ensures
        after_events(scan, element_events(key, text)).host == (HostView {
            scripts: if key.len() > 0 {
                with_element(
                    scan.host.scripts,
                    scan.script_id,
                    ScriptElementView { key, value: text },
                )
            } else {
                scan.host.scripts
            },
            ..scan.host
        }),
{
    lemma_element(scan, key, text);
}

/// An extended scan looks for vulnerabilities, and detects versions to do so.
pub proof fn law_extended_scan(host: HostView, report: Seq<char>)
    requires
        host.extended_scan,
    ensures
        portscan_command(host, report).args.contains("--script=vulners"@),
        portscan_command(host, report).args.contains("-sV"@),
{
    let args = portscan_command(host, report).args;
    assert(args[3] == "-sV"@);
    assert(args[args.len() - 4] == "--script=vulners"@);
}

/// The scan of a host is run with `sudo`, detects its system, connects to its ports, and reports
/// on its address into the file.
pub proof fn law_portscan_command(host: HostView, report: Seq<char>, ip: Seq<char>)
    requires
        host.ip == Some(ip),
    ensures
        ({
            let command = portscan_command(host, report);
            let n = command.args.len() as int;
            &&& command.program == "sudo"@
            &&& command.args.take(3) == seq!["nmap"@, "-O"@, "-sT"@]
            &&& command.args.skip(n - 3) == seq!["-oX"@, report, ip]
        }),
{
    let args = portscan_command(host, report).args;
    assert(args.take(3) =~= seq!["nmap"@, "-O"@, "-sT"@]);
    assert(args.skip(args.len() - 3) =~= seq!["-oX"@, report, ip]);
}

/// Versions are detected if the host asks for it or for the extended scan, the arguments of the
/// host are handed to the scripts if there are any, and one set of scripts is run: that for
/// vulnerabilities in an extended scan, otherwise the own ones. None of these depends on the
/// others, and there are no other arguments.
pub proof fn law_portscan_options(host: HostView, report: Seq<char>)
    ensures
        ({
            let args = portscan_command(host, report).args;
            let n = args.len() as int;
            &&& n == 7 + (if host.version_check || host.extended_scan {
                1int
            } else {
                0
            }) + (if host.scan_arguments.len() > 0 {
                1int
            } else {
                0
            })
            &&& host.version_check ==> args[3] == "-sV"@
            &&& host.extended_scan ==> args[3] == "-sV"@
            &&& host.scan_arguments.len() > 0 ==> args[n - 5] == "--script-args="@
                + host.scan_arguments
            &&& host.scan_arguments.len() > 0 ==> args.contains(
                "--script-args="@ + host.scan_arguments,
            )
            &&& host.extended_scan ==> args[n - 4] == "--script=vulners"@
            &&& !host.extended_scan ==> args[n - 4] == "--script=./scripts/"@
        }),
{
    let args = portscan_command(host, report).args;
    if host.scan_arguments.len() > 0 {
        assert(args[args.len() - 5] == "--script-args="@ + host.scan_arguments);
    }
}

/// A port element with a decimal number is recorded as the port with this number, whatever number
/// it is.
pub proof fn law_port_number(
    scan: PortScanView,
    attributes: Seq<(Seq<char>, Seq<char>)>,
    inner: Seq<EventView>,
    n: u16,
)
    requires
        inside_port(inner),
        attribute_value(attributes, "portid"@) == Some(digits_of(n as nat)),
    ensures
        after_events(scan, port_events(attributes, inner)).host.services.last().port == n,
{
    law_decimal_text(n);
    law_port_recorded(scan, attributes, inner);
}

/// What the start of an element changes. The number and the protocol of a service come from a
/// `port`, the state from a `state`, the name, the product and the version from a `service`, the
/// system of the host from an `osmatch`; a `script` is entered with its id, and the first
/// attribute of an `elem` is its key. A start changes nothing else.
pub proof fn law_start_read(
    scan: PortScanView,
    name: Seq<char>,
    attributes: Seq<(Seq<char>, Seq<char>)>,
    text: Seq<char>,
)
    ensures
        ({
            let after = after_event(scan, EventView::Start { name, attributes });
            let (service, before) = (after.service, scan.service);
            let given = |key: Seq<char>| attribute_value(attributes, key);
            // the number
            &&& name == "port"@ && given("portid"@) == Some(text) ==> (u16_of(text) matches Some(n)
                ==> service.port == n)
            &&& name == "port"@ && given("portid"@) == Some(text) && u16_of(text) is None
                ==> service.port == 0
            &&& name == "port"@ && given("portid"@) is None ==> service.port == 0
            &&& name != "port"@ ==> service.port == before.port
            // the protocol
            &&& name == "port"@ ==> (service.protocol == Protocol::TCP <==> given("protocol"@)
                == Some("tcp"@))
            &&& name == "port"@ ==> (service.protocol == Protocol::UDP <==> given("protocol"@)
                == Some("udp"@))
            &&& name != "port"@ ==> service.protocol == before.protocol
            // the state
            &&& name == "state"@ ==> (service.state == State::OPEN <==> given("state"@) == Some(
                "open"@,
            ))
            &&& name == "state"@ ==> (service.state == State::FILTER <==> given("state"@) == Some(
                "filter"@,
            ))
            &&& name == "state"@ ==> (service.state == State::CLOSE <==> given("state"@) == Some(
                "close"@,
            ))
            &&& name != "state"@ ==> service.state == before.state
            // the service
            &&& name == "service"@ && given("name"@) == Some(text) ==> service.name == text
            &&& name == "service"@ && given("name"@) is None ==> service.name.len() == 0
            &&& name == "service"@ && given("product"@) == Some(text) ==> service.product == text
            &&& name == "service"@ && given("product"@) is None ==> service.product.len() == 0
            &&& name == "service"@ && given("version"@) == Some(text) ==> service.version == text
            &&& name == "service"@ && given("version"@) is None ==> service.version.len() == 0
            &&& name != "service"@ ==> service.name == before.name && service.product
                == before.product && service.version == before.version
            &&& service.vulns == before.vulns
            // the host
            &&& name == "osmatch"@ ==> after.host.os == given("name"@)
            &&& name != "osmatch"@ ==> after.host.os == scan.host.os
            &&& after.host == (HostView { os: after.host.os, ..scan.host })
            // the scripts
            &&& name == "script"@ ==> after.is_script
            &&& name == "script"@ && given("id"@) == Some(text) ==> after.script_id == text
            &&& name == "script"@ && given("id"@) is None ==> after.script_id.len() == 0
            &&& name != "script"@ ==> after.is_script == scan.is_script && after.script_id
                == scan.script_id
            &&& name == "elem"@ && attributes.len() > 0 ==> after.script_elem_key
                == attributes[0].1
            &&& name == "elem"@ && attributes.len() == 0 ==> after.script_elem_key.len() == 0
            &&& name != "elem"@ ==> after.script_elem_key == scan.script_elem_key
            &&& after.vulners == scan.vulners
        }),
{
    lemma_names();
    lemma_other_names();
    lemma_values();
    law_number_single('a');
}

/// The names of the elements that describe a service differ.
proof fn lemma_other_names()
    ensures
        "port"@ != "state"@,
        "port"@ != "service"@,
        "port"@ != "osmatch"@,
        "port"@ != "script"@,
        "port"@ != "table"@,
        "state"@ != "service"@,
        "state"@ != "osmatch"@,
        "state"@ != "script"@,
        "service"@ != "osmatch"@,
        "service"@ != "script"@,
        "osmatch"@ != "script"@,
        "table"@ != "script"@,
{
    reveal_strlit("port");
    reveal_strlit("state");
    reveal_strlit("service");
    reveal_strlit("osmatch");
    reveal_strlit("script");
    reveal_strlit("table");
    assert("port"@.len() == 4 && "state"@.len() == 5 && "service"@.len() == 7 && "script"@.len()
        == 6 && "table"@.len() == 5 && "osmatch"@.len() == 7);
    assert("service"@[0] != "osmatch"@[0]);
}

/// The values that name protocols and states differ.
proof fn lemma_values()
    ensures
        "tcp"@ != "udp"@,
        "open"@ != "filter"@,
        "open"@ != "close"@,
        "filter"@ != "close"@,
{
    reveal_strlit("tcp");
    reveal_strlit("udp");
    reveal_strlit("open");
    reveal_strlit("filter");
    reveal_strlit("close");
    assert("tcp"@[0] != "udp"@[0]);
    assert("open"@.len() == 4 && "filter"@.len() == 6 && "close"@.len() == 5);
}

/// What text changes. Outside of scripts nothing. Inside the vulnerability script, what its key
/// says of the vulnerability that is being read; inside another script, the output of this script,
/// by one element with the key and the text, unless the key is empty. Text changes nothing else.
pub proof fn law_text_read(scan: PortScanView, text: Seq<char>, other: Seq<char>)
    ensures
        ({
            let after = after_event(scan, EventView::Text { text });
            let (key, id) = (scan.script_elem_key, scan.script_id);
            let vulners = scan.is_script && id == "vulners"@;
            let output = scan.is_script && id != "vulners"@ && key.len() > 0;
            let (scripts, before) = (after.host.scripts, scan.host.scripts);
            &&& after.vulners.id == if vulners && key == "id"@ {
                text
            } else {
                scan.vulners.id
            }
            &&& after.vulners.database == if vulners && key == "type"@ {
                text
            } else {
                scan.vulners.database
            }
            &&& after.vulners.exploit == if vulners && key == "is_exploit"@ {
                text == "true"@
            } else {
                scan.vulners.exploit
            }
            &&& after.vulners.cvss == if vulners && key == "cvss"@ {
                text
            } else {
                scan.vulners.cvss
            }
            &&& !output ==> scripts == before
            &&& output ==> scripts.dom() == before.dom().insert(id)
            &&& output ==> scripts[id].last() == (ScriptElementView { key, value: text })
            &&& output && before.contains_key(id) ==> scripts[id].drop_last() == before[id]
                && scripts[id].len() == before[id].len() + 1
            &&& output && !before.contains_key(id) ==> scripts[id].len() == 1
            &&& output && other != id && before.contains_key(other) ==> scripts[other]
                == before[other]
            &&& after.host == (HostView { scripts, ..scan.host })
            &&& after == (PortScanView { host: after.host, vulners: after.vulners, ..scan })
        }),
{
    let (key, id) = (scan.script_elem_key, scan.script_id);
    reveal_strlit("id");
    reveal_strlit("type");
    reveal_strlit("is_exploit");
    reveal_strlit("cvss");
    assert("id"@.len() == 2 && "type"@.len() == 4 && "is_exploit"@.len() == 10 && "cvss"@.len()
        == 4);
    assert("type"@[0] != "cvss"@[0]);
    law_element_added(
        scan.host.scripts,
        id,
        ScriptElementView { key, value: text },
        other,
    );
}

/// What the end of an element changes. At the end of a `port` the service that was read is
/// recorded, as it is, after those that were. At the end of a `table` inside a script the
/// vulnerability that was read is recorded with the service, as it is, if it has an identifier.
/// At the end of a `script` the script is left. What was recorded is begun anew, and an end
/// changes nothing else.
pub proof fn law_end_read(scan: PortScanView, name: Seq<char>)
    ensures
        ({
            let after = after_event(scan, EventView::End { name });
            let found = scan.is_script && name == "table"@ && scan.vulners.id.len() > 0;
            &&& name == "port"@ ==> after.host.services == scan.host.services.push(scan.service)
            &&& name != "port"@ ==> after.host.services == scan.host.services
            &&& after.host == (HostView { services: after.host.services, ..scan.host })
            &&& name == "port"@ ==> after.service == blank_service()
            &&& found ==> after.service.vulns == scan.service.vulns.push(scan.vulners)
            &&& name != "port"@ && !found ==> after.service.vulns == scan.service.vulns
            &&& name != "port"@ ==> after.service == (ServiceView {
                vulns: after.service.vulns,
                ..scan.service
            })
            &&& found ==> after.vulners == blank_vulnerability()
            &&& !found ==> after.vulners == scan.vulners
            &&& name == "script"@ ==> !after.is_script
            &&& name != "script"@ ==> after.is_script == scan.is_script
            &&& after.script_id == scan.script_id
            &&& after.script_elem_key == scan.script_elem_key
        }),
{
    lemma_other_names();
}

/// Whatever else stands in a report changes nothing, and a report is read event by event.
pub proof fn law_read_one_by_one(scan: PortScanView, events: Seq<EventView>, event: EventView)
    ensures
        after_event(scan, EventView::Other) == scan,
        after_events(scan, seq![]) == scan,
        after_events(scan, events.push(event)) == after_event(after_events(scan, events), event),
{
    assert(events.push(event).drop_last() == events);
}

/// Before a report is read, nothing is known of a service or a vulnerability, and no script has
/// begun; after it, the host is what the reader knows of it.
pub proof fn law_report_begins(host: HostView, events: Seq<EventView>)
    ensures
        unread(host).host == host,
        unread(host).service == blank_service(),
        unread(host).vulners == blank_vulnerability(),
        !unread(host).is_script,
        unread(host).script_id.len() == 0,
        unread(host).script_elem_key.len() == 0,
        scanned_host(host, events) == after_events(unread(host), events).host,
{
}

/// All that a reader has read of a report is among its contents.
pub proof fn law_port_scan_contents(scan: PortScan)
    ensures
        scan@.host == scan.host@,
        scan@.service == scan.service@,
        scan@.vulners == scan.vulners@,
        scan@.is_script == scan.is_script,
        scan@.script_id == scan.script_id@,
        scan@.script_elem_key == scan.script_elem_key@,
{
}

} // verus!
