//! Finding the hosts of a network.

use crate::command::{CommandLine, CommandLineView};
use crate::config::{DiscoverStruct, DiscoverStructView};
use crate::hosts::{blank_host, Host, HostView, Protocol};
use crate::report::{
    attribute, attribute_value, law_attribute_found, law_attribute_missing, read_events,
    xml_events, Event, EventView,
};
use crate::task::{copy_texts, Action, ActionView, Answer, AnswerView};
use crate::text::{decimal_text, digits_of, same};
use vstd::prelude::*;

verus! {

/// The network to scan for a target: its own, or that of the default route.
pub open spec fn network_of(own: Option<Seq<char>>, default_route: Seq<char>) -> Seq<char> {
    match own {
        Some(network) => network,
        None => default_route,
    }
}

/// Chooses the network to scan for `target`, its own where it has one.
pub fn scan_network(target: &DiscoverStruct, default_route: &str) -> (result: String)
    ensures
        result@ == network_of(target@.network, default_route@),
{
    match &target.network {
        Some(network) => network.clone(),
        None => default_route.to_owned(),
    }
}

/// How the hosts of a target are checked for being up: at the port and with the protocol that the
/// target sets. Unless it sets both, the scanner checks in its own way.
pub open spec fn alive_args(target: DiscoverStructView) -> Seq<Seq<char>> {
    match (target.port, target.protocol) {
        (Some(port), Some(Protocol::TCP)) => seq!["-PS"@ + digits_of(port as nat)],
        (Some(port), Some(Protocol::UDP)) => seq!["-PU"@ + digits_of(port as nat)],
        _ => seq![],
    }
}

/// The command that lists the hosts of `network` which are up, into the file `report`.
pub open spec fn discovery_command(
    network: Seq<char>,
    report: Seq<char>,
    target: DiscoverStructView,
) -> CommandLineView {
    CommandLineView {
        program: "sudo"@,
        args: seq!["nmap"@, "-sn"@] + alive_args(target) + seq!["-oX"@, report, network],
    }
}

/// The command that lists the hosts of `network` which are up, into the file `report`; `target`
/// says how they are checked for being up.
pub fn list_hosts(network: &str, report: &str, target: &DiscoverStruct) -> (result: CommandLine)
    ensures
        result@ == discovery_command(network@, report@, target@),
{
    let mut command = CommandLine::new("sudo");
    command.arg("nmap");
    command.arg("-sn");
    match (target.port, target.protocol) {
        (Some(port), Some(Protocol::TCP)) => {
            command.arg("-PS".to_owned().concat(decimal_text(port).as_str()).as_str());
        },
        (Some(port), Some(Protocol::UDP)) => {
            command.arg("-PU".to_owned().concat(decimal_text(port).as_str()).as_str());
        },
        _ => {},
    }
    command.arg("-oX");
    command.arg(report);
    command.arg(network);
    assert(command@.args =~= discovery_command(network@, report@, target@).args);
    command
}

/// A search checks whether hosts are up at the port of its target, with the protocol of its target.
pub proof fn law_alive_check(
    target: DiscoverStructView,
    default_route: Seq<char>,
    scan_arguments: Seq<char>,
    file: Seq<char>,
    port: u16,
)
    requires
        target.port == Some(port),
    ensures
        ({
            let search = search_of(target, default_route, scan_arguments, file);
            &&& search_action(search) matches ActionView::Report(command, _)
            &&& target.protocol == Some(Protocol::TCP) ==> command.args.contains(
                "-PS"@ + digits_of(port as nat),
            )
            &&& target.protocol == Some(Protocol::UDP) ==> command.args.contains(
                "-PU"@ + digits_of(port as nat),
            )
        }),
{
    let network = network_of(target.network, default_route);
    let args = discovery_command(network, file, target).args;
    if alive_args(target).len() > 0 {
        assert(args[2] == alive_args(target)[0]);
    }
}

/// Whether the attributes of an address mark it as one of the Internet protocol.
pub open spec fn is_internet(attributes: Seq<(Seq<char>, Seq<char>)>) -> bool {
    exists|i: int|
        0 <= i < attributes.len() && (#[trigger] attributes[i]).0 == "addrtype"@ && (
        attributes[i].1 == "ipv4"@ || attributes[i].1 == "ipv6"@)
}

/// The address that an element of a report gives, the loopback address if it leaves it out;
/// nothing if the element is no address of the Internet protocol.
pub open spec fn address_of(event: EventView) -> Option<Seq<char>> {
    match event {
        EventView::Start { name, attributes } if name == "address"@ && is_internet(attributes) => {
            match attribute_value(attributes, "addr"@) {
                Some(text) => Some(text),
                None => Some("127.0.0.1"@),
            }
        },
        _ => None,
    }
}

/// The addresses that the events of a report give, in order.
pub open spec fn addresses_of(events: Seq<EventView>) -> Seq<Seq<char>>
    decreases events.len(),
{
    if events.len() == 0 {
        seq![]
    } else {
        match address_of(events.last()) {
            Some(text) => addresses_of(events.drop_last()).push(text),
            None => addresses_of(events.drop_last()),
        }
    }
}

/// Whether the attributes of an address mark it as one of the Internet protocol.
fn internet(attributes: &Vec<(String, String)>) -> (result: bool)
    ensures
        result == is_internet(attributes.deep_view()),
{
    let ghost all = attributes.deep_view();
    let mut i: usize = 0;
    while i < attributes.len()
        invariant
            i <= attributes.len(),
            all == attributes.deep_view(),
            forall|j: int|
                0 <= j < i ==> !((#[trigger] all[j]).0 == "addrtype"@ && (all[j].1 == "ipv4"@
                    || all[j].1 == "ipv6"@)),
        decreases attributes.len() - i,
    {
        let pair = &attributes[i];
        assert(all[i as int] == (pair.0@, pair.1@));
        if same(pair.0.as_str(), "addrtype") && (same(pair.1.as_str(), "ipv4") || same(
            pair.1.as_str(),
            "ipv6",
        )) {
            return true;
        }
        i = i + 1;
    }
    false
}

/// The addresses that the events of a discovery report give.
pub fn addresses(events: &Vec<Event>) -> (result: Vec<String>)
    ensures
        result.deep_view() == addresses_of(events.deep_view()),
{
    let ghost all = events.deep_view();
    let mut result: Vec<String> = Vec::new();
    let mut i: usize = 0;
    assert(result.deep_view() == addresses_of(all.take(0)));
    while i < events.len()
        invariant
            i <= events.len(),
            all == events.deep_view(),
            result.deep_view() == addresses_of(all.take(i as int)),
        decreases events.len() - i,
    {
        let ghost before = result.deep_view();
        assert(all.take(i + 1).drop_last() == all.take(i as int));
        assert(all.take(i + 1).last() == events@[i as int]@);
        match &events[i] {
            Event::StartElement { name, attributes } => {
                if same(name.as_str(), "address") && internet(attributes) {
                    let text = match attribute(attributes, "addr") {
                        Some(text) => text,
                        None => "127.0.0.1".to_owned(),
                    };
                    let ghost address = text@;
                    result.push(text);
                    assert(result.deep_view() == before.push(address));
                }
            },
            _ => {},
        }
        i = i + 1;
    }
    assert(all.take(i as int) == all);
    result
}

/// The addresses that a discovery report lists.
pub fn reported_addresses(report: &str) -> (result: Vec<String>)
    ensures
        result.deep_view() == addresses_of(xml_events(report@)),
{
    addresses(&read_events(report))
}

/// The host at `address` as it was found on `network`.
pub open spec fn found_host(
    network: Seq<char>,
    target: DiscoverStructView,
    scan_arguments: Seq<char>,
    address: Seq<char>,
) -> HostView {
    HostView {
        network,
        ip: Some(address),
        extended_scan: target.extended != Some(false),
        version_check: target.version_check != Some(false),
        scan_arguments,
        max_hops: target.max_hops,
        ..blank_host()
    }
}

/// The hosts at `addresses`, which were found on `network` for `target`.
pub fn found_hosts(
    network: &str,
    target: &DiscoverStruct,
    scan_arguments: &str,
    addresses: Vec<String>,
) -> (result: Vec<Host>)
    ensures
        result.deep_view() == addresses.deep_view().map_values(
            |address: Seq<char>| found_host(network@, target@, scan_arguments@, address),
        ),
{
    let mut result: Vec<Host> = Vec::new();
    let mut i: usize = 0;
    while i < addresses.len()
        invariant
            i <= addresses.len(),
            result.len() == i,
            forall|j: int|
                0 <= j < i ==> (#[trigger] result@[j])@ == found_host(
                    network@,
                    target@,
                    scan_arguments@,
                    addresses@[j]@,
                ),
        decreases addresses.len() - i,
    {
        let mut host = Host::default();
        host.network = network.to_owned();
        host.extended_scan = target.extended.unwrap_or(true);
        host.version_check = target.version_check.unwrap_or(true);
        host.scan_arguments = scan_arguments.to_owned();
        host.max_hops = target.max_hops;
        host.ip = Some(addresses[i].clone());
        result.push(host);
        i = i + 1;
    }
    assert(result.deep_view() =~= addresses.deep_view().map_values(
        |address: Seq<char>| found_host(network@, target@, scan_arguments@, address),
    ));
    result
}

/// A report lists what its parts list: every address element counts, and none more than once.
pub proof fn law_addresses_of_parts(first: Seq<EventView>, second: Seq<EventView>)
    ensures
        addresses_of(first + second) == addresses_of(first) + addresses_of(second),
    decreases second.len(),
{
    if second.len() == 0 {
        assert(first + second == first);
        assert(addresses_of(first) + addresses_of(second) == addresses_of(first));
    } else {
        law_addresses_of_parts(first, second.drop_last());
        assert((first + second).drop_last() == first + second.drop_last());
        assert((first + second).last() == second.last());
        assert(addresses_of(first + second) =~= addresses_of(first) + addresses_of(second));
    }
}

/// How far the search for hosts has come.
#[derive(Debug)]
enum SearchStep {
    /// The hosts of the network are to be listed.
    ListHosts,
    /// What was listed is to be read as addresses.
    ResolveAddresses(Vec<String>),
    /// These are the hosts.
    Finished(Vec<Host>),
}

/// The contents of the state of a search.
#[verifier::ext_equal]
pub enum SearchStepView {
    ListHosts,
    ResolveAddresses(Seq<Seq<char>>),
    Finished(Seq<HostView>),
}

impl View for SearchStep {
    type V = SearchStepView;

    closed spec fn view(&self) -> SearchStepView {
        match self {
            SearchStep::ListHosts => SearchStepView::ListHosts,
            SearchStep::ResolveAddresses(texts) => SearchStepView::ResolveAddresses(
                texts.deep_view(),
            ),
            SearchStep::Finished(hosts) => SearchStepView::Finished(hosts.deep_view()),
        }
    }
}

/// The search for the hosts of one target.
#[derive(Debug)]
pub struct HostSearch<'a> {
    target: &'a DiscoverStruct,
    network: String,
    scan_arguments: String,
    report: String,
    step: SearchStep,
}

/// The contents of a [`HostSearch`].
#[verifier::ext_equal]
pub struct HostSearchView {
    pub target: DiscoverStructView,
    pub network: Seq<char>,
    pub scan_arguments: Seq<char>,
    /// The file that the search writes its report into.
    pub report: Seq<char>,
    pub step: SearchStepView,
}

impl<'a> View for HostSearch<'a> {
    type V = HostSearchView;

    closed spec fn view(&self) -> HostSearchView {
        HostSearchView {
            target: self.target@,
            network: self.network@,
            scan_arguments: self.scan_arguments@,
            report: self.report@,
            step: self.step@,
        }
    }
}

/// The search for the hosts of `target` before anything was done.
pub open spec fn search_of(
    target: DiscoverStructView,
    default_route: Seq<char>,
    scan_arguments: Seq<char>,
    report: Seq<char>,
) -> HostSearchView {
    HostSearchView {
        target,
        network: network_of(target.network, default_route),
        scan_arguments,
        report,
        step: SearchStepView::ListHosts,
    }
}

/// What a search asks for next.
pub open spec fn search_action(search: HostSearchView) -> ActionView {
    match search.step {
        SearchStepView::ListHosts => ActionView::Report(
            discovery_command(search.network, search.report, search.target),
            search.report,
        ),
        SearchStepView::ResolveAddresses(texts) => ActionView::Resolve(texts),
        SearchStepView::Finished(_) => ActionView::Finish,
    }
}

/// A search after the answer to what it asked for. Where the hosts could not be listed, none are
/// found. An answer to something else changes nothing.
pub open spec fn search_after(search: HostSearchView, answer: AnswerView) -> HostSearchView {
    match (search.step, answer) {
        (SearchStepView::ListHosts, AnswerView::Output(output)) => HostSearchView {
            step: match output {
                Some(report) => SearchStepView::ResolveAddresses(addresses_of(xml_events(report))),
                None => SearchStepView::Finished(seq![]),
            },
            ..search
        },
        (SearchStepView::ResolveAddresses(_), AnswerView::Addresses(addresses)) => HostSearchView {
            step: SearchStepView::Finished(
                addresses.map_values(
                    |address: Seq<char>|
                        found_host(search.network, search.target, search.scan_arguments, address),
                ),
            ),
            ..search
        },
        _ => search,
    }
}

impl<'a> HostSearch<'a> {
    /// The search for the hosts of `target`, which reports into the file `report`.
    pub fn new(
        target: &'a DiscoverStruct,
        default_route: &str,
        scan_arguments: &str,
        report: &str,
    ) -> (result: Self)
        ensures
            result@ == search_of(target@, default_route@, scan_arguments@, report@),
    {
        HostSearch {
            target,
            network: scan_network(target, default_route),
            scan_arguments: scan_arguments.to_owned(),
            report: report.to_owned(),
            step: SearchStep::ListHosts,
        }
    }

    /// What the search asks for next.
    pub fn action(&self) -> (result: Action)
        ensures
            result@ == search_action(self@),
    {
        match &self.step {
            SearchStep::ListHosts => Action::Report(
                list_hosts(self.network.as_str(), self.report.as_str(), self.target),
                self.report.clone(),
            ),
            SearchStep::ResolveAddresses(texts) => Action::Resolve(copy_texts(texts)),
            SearchStep::Finished(_) => Action::Finish,
        }
    }

    /// Goes on with the answer to what the search asked for.
    pub fn advance(self, answer: Answer) -> (result: Self)
        ensures
            result@ == search_after(self@, answer@),
    {
        let HostSearch { target, network, scan_arguments, report, step } = self;
        let step = match (step, answer) {
            (SearchStep::ListHosts, Answer::Output(Some(text))) => {
                SearchStep::ResolveAddresses(reported_addresses(text.as_str()))
            },
            (SearchStep::ListHosts, Answer::Output(None)) => {
                let none: Vec<Host> = Vec::new();
                assert(none.deep_view() == Seq::<HostView>::empty());
                SearchStep::Finished(none)
            },
            (SearchStep::ResolveAddresses(_), Answer::Addresses(addresses)) => {
                SearchStep::Finished(
                    found_hosts(network.as_str(), target, scan_arguments.as_str(), addresses),
                )
            },
            (step, _) => step,
        };
        HostSearch { target, network, scan_arguments, report, step }
    }

    /// The hosts that were found, none before the search has ended.
    pub fn into_hosts(self) -> (result: Vec<Host>)
        ensures
            result.deep_view() == match self@.step {
                SearchStepView::Finished(hosts) => hosts,
                _ => seq![],
            },
    {
        match self.step {
            SearchStep::Finished(hosts) => hosts,
            _ => {
                let none: Vec<Host> = Vec::new();
                assert(none.deep_view() == Seq::<HostView>::empty());
                none
            },
        }
    }
}

/// A search asks for the addresses that the report lists, and ends with one host for each address
/// that it is given, in the same order, on the network of the target and to be scanned as the
/// target says.
pub proof fn law_whole_search(
    target: DiscoverStructView,
    default_route: Seq<char>,
    scan_arguments: Seq<char>,
    file: Seq<char>,
    report: Seq<char>,
    addresses: Seq<Seq<char>>,
)
    ensures
        ({
            let begin = search_of(target, default_route, scan_arguments, file);
            let listed = search_after(begin, AnswerView::Output(Some(report)));
            let end = search_after(listed, AnswerView::Addresses(addresses));
            &&& search_action(listed) == ActionView::Resolve(addresses_of(xml_events(report)))
            &&& search_action(end) == ActionView::Finish
            &&& end.step matches SearchStepView::Finished(hosts)
            &&& hosts.len() == addresses.len()
            &&& forall|i: int|
                0 <= i < hosts.len() ==> #[trigger] hosts[i] == found_host(
                    network_of(target.network, default_route),
                    target,
                    scan_arguments,
                    addresses[i],
                )
        }),
{
}

/// A search has the scanner list the hosts that are up, without a port scan, of the network of the
/// target, or that of the default route where the target has none, into the file of the search.
/// At most one more argument is given, and only where the target sets a port and one of the two
/// protocols.
pub proof fn law_listing(
    target: DiscoverStructView,
    default_route: Seq<char>,
    scan_arguments: Seq<char>,
    file: Seq<char>,
)
    ensures
        ({
            let search = search_of(target, default_route, scan_arguments, file);
            &&& search_action(search) matches ActionView::Report(command, report)
            &&& report == file
            &&& command.program == "sudo"@
            &&& 5 <= command.args.len() <= 6
            &&& command.args.len() == 6 <==> target.port is Some && (target.protocol == Some(
                Protocol::TCP,
            ) || target.protocol == Some(Protocol::UDP))
            &&& command.args.first() == "nmap"@
            &&& command.args[1] == "-sn"@
            &&& command.args[command.args.len() - 3] == "-oX"@
            &&& command.args[command.args.len() - 2] == file
            &&& target.network matches Some(network) ==> command.args.last() == network
            &&& target.network is None ==> command.args.last() == default_route
        }),
{
}

/// Where the hosts could not be listed, a search ends without hosts.
pub proof fn law_unlisted_search(search: HostSearchView)
    requires
        search.step is ListHosts,
    ensures
        search_after(search, AnswerView::Output(None)).step == SearchStepView::Finished(seq![]),
        search_action(search_after(search, AnswerView::Output(None))) == ActionView::Finish,
{
}

/// An answer to something that the search did not ask for changes nothing, and no answer changes
/// what the search is for.
pub proof fn law_stray_search_answer(search: HostSearchView, answer: AnswerView)
    ensures
        search.step is ListHosts && !(answer is Output) ==> search_after(search, answer) == search,
        search.step is ResolveAddresses && !(answer is Addresses) ==> search_after(search, answer)
            == search,
        search.step is Finished ==> search_after(search, answer) == search,
        search_after(search, answer) == (HostSearchView {
            step: search_after(search, answer).step,
            ..search
        }),
{
}

/// An address element of the Internet protocol gives the address that stands first in it.
pub proof fn law_address_given(attributes: Seq<(Seq<char>, Seq<char>)>, kind: int, i: int)
    requires
        0 <= kind < attributes.len(),
        attributes[kind] == ("addrtype"@, "ipv4"@) || attributes[kind] == ("addrtype"@, "ipv6"@),
        0 <= i < attributes.len(),
        attributes[i].0 == "addr"@,
        forall|j: int| 0 <= j < i ==> (#[trigger] attributes[j]).0 != "addr"@,
    ensures
        addresses_of(seq![EventView::Start { name: "address"@, attributes }]) == seq![
            attributes[i].1,
        ],
{
    law_attribute_found(attributes, "addr"@, i);
    lemma_one_event(EventView::Start { name: "address"@, attributes });
}

/// An address element of the Internet protocol that leaves the address out gives the loopback
/// address.
pub proof fn law_address_left_out(attributes: Seq<(Seq<char>, Seq<char>)>, kind: int)
    requires
        0 <= kind < attributes.len(),
        attributes[kind] == ("addrtype"@, "ipv4"@) || attributes[kind] == ("addrtype"@, "ipv6"@),
        forall|j: int| 0 <= j < attributes.len() ==> (#[trigger] attributes[j]).0 != "addr"@,
    ensures
        addresses_of(seq![EventView::Start { name: "address"@, attributes }]) == seq![
            "127.0.0.1"@,
        ],
{
    law_attribute_missing(attributes, "addr"@);
    lemma_one_event(EventView::Start { name: "address"@, attributes });
}

/// Nothing else gives an address: no address of another kind, no other element, no end of an
/// element and no text.
pub proof fn law_no_address(event: EventView)
    requires
        event matches EventView::Start { name, attributes } ==> name != "address"@ || (forall|
            i: int,
        |
            0 <= i < attributes.len() ==> (#[trigger] attributes[i]) != ("addrtype"@, "ipv4"@)
                && attributes[i] != ("addrtype"@, "ipv6"@)),
    ensures
        addresses_of(seq![event]).len() == 0,
        addresses_of(seq![]).len() == 0,
{
    lemma_one_event(event);
}

/// A report of one event lists what the event gives.
proof fn lemma_one_event(event: EventView)
    ensures
        addresses_of(seq![event]) == match address_of(event) {
            Some(text) => seq![text],
            None => seq![],
        },
{
    assert(seq![event].drop_last() == Seq::<EventView>::empty());
    assert(addresses_of(seq![event].drop_last()) == Seq::<Seq<char>>::empty());
    assert(addresses_of(seq![event]) =~= match address_of(event) {
        Some(text) => seq![text],
        None => seq![],
    });
}

/// A host is scanned as its target says: for vulnerabilities and for versions unless the target
/// says otherwise, with the arguments of the discovery and up to the hops that the target allows.
/// Beyond that, its address and the network are all that is known of it.
pub proof fn law_found_as_told(
    network: Seq<char>,
    target: DiscoverStructView,
    scan_arguments: Seq<char>,
    address: Seq<char>,
    told: bool,
)
    ensures
        ({
            let host = found_host(network, target, scan_arguments, address);
            &&& target.extended == Some(told) ==> host.extended_scan == told
            &&& target.extended is None ==> host.extended_scan
            &&& target.version_check == Some(told) ==> host.version_check == told
            &&& target.version_check is None ==> host.version_check
            &&& host.ip == Some(address)
            &&& host.network == network
            &&& host.scan_arguments == scan_arguments
            &&& host.max_hops == target.max_hops
            &&& host.ipnet.len() == 0 && host.hops.len() == 0 && host.services.len() == 0
            &&& host.os is None && host.windows is None
            &&& host.scripts.dom().is_empty()
        }),
{
}

} // verus!
