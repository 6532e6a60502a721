//! The way to a host: the gateway of the routing table and the hops of a trace.

use crate::command::{CommandLine, CommandLineView};
use crate::hosts::{Host, HostView};
use crate::text::{
    decimal_text, digits_of, law_decimal_text, law_digits, law_words, line_seq, lines, parse_u16,
    same, u16_of, word_seq, words,
};
use vstd::prelude::*;

verus! {

/// How many hops a trace follows at most where no other limit is set.
pub const MAX_TRACEROUTE_HOPS: u16 = 15;

/// The command that lists the routes to `ip`.
pub open spec fn route_command(ip: Seq<char>) -> CommandLineView {
    CommandLineView { program: "ip"@, args: seq!["route"@, "list"@, "match"@, ip] }
}

/// The command that lists the routes to `ip`.
pub fn list_routes(ip: &str) -> (result: CommandLine)
    ensures
        result@ == route_command(ip@),
{
    let mut command = CommandLine::new("ip");
    command.arg("route");
    command.arg("list");
    command.arg("match");
    command.arg(ip);
    assert(command@.args == route_command(ip@).args);
    command
}

/// How many hops a trace follows at most: as many as are set, `MAX_TRACEROUTE_HOPS` if nothing is.
pub open spec fn hop_limit(max_hops: Option<u16>) -> u16 {
    match max_hops {
        Some(limit) => limit,
        None => MAX_TRACEROUTE_HOPS,
    }
}

/// The command that traces the way to `ip`: no name lookup, one query for each hop, and no more
/// hops than the limit.
pub open spec fn trace_command(ip: Seq<char>, max_hops: Option<u16>) -> CommandLineView {
    CommandLineView {
        program: "traceroute"@,
        args: seq!["-n"@, "-q 1"@, "-m"@, digits_of(hop_limit(max_hops) as nat), ip],
    }
}

/// The command that traces the way to `ip`.
pub fn trace_route(ip: &str, max_hops: Option<u16>) -> (result: CommandLine)
    ensures
        result@ == trace_command(ip@, max_hops),
{
    let mut command = CommandLine::new("traceroute");
    command.arg("-n");
    command.arg("-q 1");
    command.arg("-m");
    command.arg(decimal_text(max_hops.unwrap_or(MAX_TRACEROUTE_HOPS)).as_str());
    command.arg(ip);
    assert(command@.args == trace_command(ip@, max_hops).args);
    command
}

/// What the routing table says of the way to a host.
#[derive(Debug)]
pub struct Routes {
    /// The default routes, in order: the gateway and the device.
    pub gateways: Vec<(String, String)>,
    /// The last direct route: the device and the network.
    pub device: Option<(String, String)>,
}

/// The contents of a [`Routes`].
#[verifier::ext_equal]
pub struct RoutesView {
    pub gateways: Seq<(Seq<char>, Seq<char>)>,
    pub device: Option<(Seq<char>, Seq<char>)>,
}

impl View for Routes {
    type V = RoutesView;

    open spec fn view(&self) -> RoutesView {
        RoutesView { gateways: self.gateways.deep_view(), device: self.device.deep_view() }
    }
}

/// The word at `i`, the empty text if there is none.
pub open spec fn word_at(words: Seq<Seq<char>>, i: int) -> Seq<char> {
    if 0 <= i < words.len() {
        words[i]
    } else {
        seq![]
    }
}

/// `routes` and the route that one line of the routing table gives. A line is either
/// `default via GATEWAY dev DEVICE ...` or `NETWORK dev DEVICE ...`.
pub open spec fn with_route(routes: RoutesView, line: Seq<char>) -> RoutesView {
    let words = word_seq(line);
    if word_at(words, 0) == "default"@ {
        RoutesView {
            gateways: routes.gateways.push((word_at(words, 2), word_at(words, 4))),
            ..routes
        }
    } else {
        RoutesView { device: Some((word_at(words, 2), word_at(words, 0))), ..routes }
    }
}

/// The routes that the lines of a routing table give.
pub open spec fn routes_of(lines: Seq<Seq<char>>) -> RoutesView
    decreases lines.len(),
{
    if lines.len() == 0 {
        RoutesView { gateways: seq![], device: None }
    } else {
        with_route(routes_of(lines.drop_last()), lines.last())
    }
}

/// A copy of the word at `i`, the empty text if there is none.
fn word(words: &Vec<String>, i: usize) -> (result: String)
    ensures
        result@ == word_at(words.deep_view(), i as int),
{
    if i < words.len() {
        words[i].clone()
    } else {
        String::new()
    }
}

/// The routes that a routing table gives.
pub fn routes(table: &str) -> (result: Routes)
    ensures
        result@ == routes_of(line_seq(table@)),
{
    let lines = lines(table);
    let ghost all = lines.deep_view();
    let mut routes = Routes { gateways: Vec::new(), device: None };
    let mut i: usize = 0;
    assert(routes@ =~= routes_of(all.take(0)));
    while i < lines.len()
        invariant
            i <= lines.len(),
            all == lines.deep_view(),
            routes@ == routes_of(all.take(i as int)),
        decreases lines.len() - i,
    {
        assert(all.take(i + 1).drop_last() == all.take(i as int));
        assert(all.take(i + 1).last() == lines@[i as int]@);
        let parts = words(lines[i].as_str());
        let ghost before = routes.gateways.deep_view();
        if same(word(&parts, 0).as_str(), "default") {
            let pair = (word(&parts, 2), word(&parts, 4));
            let ghost added = pair.deep_view();
            routes.gateways.push(pair);
            assert(routes.gateways.deep_view() == before.push(added));
        } else {
            routes.device = Some((word(&parts, 2), word(&parts, 0)));
        }
        i = i + 1;
    }
    assert(all.take(i as int) == all);
    routes
}

/// The gateway of the first default route over `device`.
pub open spec fn gateway_over(
    gateways: Seq<(Seq<char>, Seq<char>)>,
    device: Seq<char>,
) -> Option<Seq<char>>
    decreases gateways.len(),
{
    if gateways.len() == 0 {
        None
    } else if gateways[0].1 == device {
        Some(gateways[0].0)
    } else {
        gateway_over(gateways.skip(1), device)
    }
}

/// The gateway to a host. Where the host is on a directly connected network whose device has a
/// default route, that is the gateway of this route, and the network is known; otherwise it is
/// the gateway of the first default route, the empty text if there is none.
pub open spec fn gateway_of(routes: RoutesView) -> (Seq<char>, Option<Seq<char>>) {
    let first = if routes.gateways.len() > 0 {
        routes.gateways[0].0
    } else {
        seq![]
    };
    match routes.device {
        Some((device, network)) => match gateway_over(routes.gateways, device) {
            Some(gateway) => (gateway, Some(network)),
            None => (first, None),
        },
        None => (first, None),
    }
}

/// The gateway of the first default route over `device`.
fn find_gateway(gateways: &Vec<(String, String)>, device: &str) -> (result: Option<String>)
    ensures
        result.deep_view() == gateway_over(gateways.deep_view(), device@),
{
    let ghost all = gateways.deep_view();
    let mut i: usize = 0;
    assert(all.skip(0) == all);
    while i < gateways.len()
        invariant
            i <= gateways.len(),
            all == gateways.deep_view(),
            gateway_over(all, device@) == gateway_over(all.skip(i as int), device@),
        decreases gateways.len() - i,
    {
        assert(all.skip(i as int)[0] == gateways@[i as int].deep_view());
        assert(all.skip(i as int).skip(1) == all.skip(i + 1));
        if same(gateways[i].1.as_str(), device) {
            return Some(gateways[i].0.clone());
        }
        i = i + 1;
    }
    None
}

/// The gateway to a host and, if the host is on a directly connected network, this network.
pub fn gateway(routes: &Routes) -> (result: (String, Option<String>))
    ensures
        result.0@ == gateway_of(routes@).0,
        result.1.deep_view() == gateway_of(routes@).1,
{
    if let Some((device, network)) = &routes.device {
        if let Some(gateway) = find_gateway(&routes.gateways, device.as_str()) {
            return (gateway, Some(network.clone()));
        }
    }
    if routes.gateways.len() > 0 {
        (routes.gateways[0].0.clone(), None)
    } else {
        (String::new(), None)
    }
}

/// The text that one line of a trace gives for the address of a hop. The line starts with the
/// number of the hop, and the last word is no error mark such as `!H`; where no answer came, the
/// line gives nothing in the place of the address.
pub open spec fn hop_of(line: Seq<char>) -> Option<Seq<char>> {
    let words = word_seq(line);
    if words.len() >= 3 && u16_of(words[0]) is Some && words.last()[0] != '!' {
        Some(words[1])
    } else {
        None
    }
}

/// The texts that the lines of a trace give for the addresses of the hops, in order.
pub open spec fn hops_of(lines: Seq<Seq<char>>) -> Seq<Seq<char>>
    decreases lines.len(),
{
    if lines.len() == 0 {
        seq![]
    } else {
        match hop_of(lines.last()) {
            Some(text) => hops_of(lines.drop_last()).push(text),
            None => hops_of(lines.drop_last()),
        }
    }
}

/// The text that one line of a trace gives for the address of a hop.
fn hop(line: &str) -> (result: Option<String>)
    ensures
        result.deep_view() == hop_of(line@),
{
    let parts = words(line);
    if parts.len() < 3 {
        return None;
    }
    let last: usize = parts.len() - 1;
    proof {
        law_words(line@, last as int);
        assert(parts.deep_view()[last as int] == parts@[last as int]@);
    }
    if parse_u16(parts[0].as_str()).is_some() && parts[last].as_str().get_char(0) != '!' {
        Some(parts[1].clone())
    } else {
        None
    }
}

/// The texts that a trace gives for the addresses of the hops. Not every text need be an address.
pub fn traced_hops(trace: &str) -> (result: Vec<String>)
    ensures
        result.deep_view() == hops_of(line_seq(trace@)),
{
    let lines = lines(trace);
    let ghost all = lines.deep_view();
    let mut result: Vec<String> = Vec::new();
    let mut i: usize = 0;
    assert(result.deep_view() == hops_of(all.take(0)));
    while i < lines.len()
        invariant
            i <= lines.len(),
            all == lines.deep_view(),
            result.deep_view() == hops_of(all.take(i as int)),
        decreases lines.len() - i,
    {
        assert(all.take(i + 1).drop_last() == all.take(i as int));
        assert(all.take(i + 1).last() == lines@[i as int]@);
        let ghost before = result.deep_view();
        if let Some(text) = hop(lines[i].as_str()) {
            let ghost added = text@;
            result.push(text);
            assert(result.deep_view() == before.push(added));
        }
        i = i + 1;
    }
    assert(all.take(i as int) == all);
    result
}

/// Whether the way to a host is still to be traced: it has an address, and no hop leads there.
pub open spec fn untraced(host: HostView) -> bool {
    match host.ip {
        Some(ip) => !host.hops.contains(ip),
        None => false,
    }
}

/// Whether `text` is one of `texts`.
fn is_among(texts: &Vec<String>, text: &str) -> (result: bool)
    ensures
        result == texts.deep_view().contains(text@),
{
    let ghost all = texts.deep_view();
    let mut i: usize = 0;
    while i < texts.len()
        invariant
            i <= texts.len(),
            all == texts.deep_view(),
            forall|j: int| 0 <= j < i ==> #[trigger] all[j] != text@,
        decreases texts.len() - i,
    {
        assert(all[i as int] == texts@[i as int]@);
        if same(texts[i].as_str(), text) {
            assert(all.contains(text@));
            return true;
        }
        i = i + 1;
    }
    false
}

/// Whether the way to a host is still to be traced.
pub fn needs_trace(host: &Host) -> (result: bool)
    ensures
        result == untraced(host@),
{
    match &host.ip {
        Some(ip) => !is_among(&host.hops, ip.as_str()),
        None => false,
    }
}

/// `host` with more hops on the way to it.
pub open spec fn with_hops(host: HostView, hops: Seq<Seq<char>>) -> HostView {
    HostView { hops: host.hops + hops, ..host }
}

/// Adds hops on the way to `host`, after those that are known.
pub fn add_hops(host: &mut Host, hops: Vec<String>)
    ensures
        final(host)@ == with_hops(old(host)@, hops.deep_view()),
{
    let ghost before = host.hops.deep_view();
    let ghost added = hops.deep_view();
    let mut hops = hops;
    host.hops.append(&mut hops);
    assert(host.hops.deep_view() =~= before + added);
}

/// The addresses among candidates, in order.
pub open spec fn valid(candidates: Seq<Option<Seq<char>>>) -> Seq<Seq<char>>
    decreases candidates.len(),
{
    if candidates.len() == 0 {
        seq![]
    } else {
        match candidates.last() {
            Some(address) => valid(candidates.drop_last()).push(address),
            None => valid(candidates.drop_last()),
        }
    }
}

/// The addresses among candidates, in order.
pub fn valid_addresses(candidates: Vec<Option<String>>) -> (result: Vec<String>)
    ensures
        result.deep_view() == valid(candidates.deep_view()),
{
    let ghost all = candidates.deep_view();
    let mut result: Vec<String> = Vec::new();
    let mut i: usize = 0;
    assert(result.deep_view() == valid(all.take(0)));
    while i < candidates.len()
        invariant
            i <= candidates.len(),
            all == candidates.deep_view(),
            result.deep_view() == valid(all.take(i as int)),
        decreases candidates.len() - i,
    {
        assert(all.take(i + 1).drop_last() == all.take(i as int));
        assert(all.take(i + 1).last() == candidates@[i as int].deep_view());
        let ghost before = result.deep_view();
        if let Some(address) = &candidates[i] {
            result.push(address.clone());
            assert(result.deep_view() == before.push(address@));
        }
        i = i + 1;
    }
    assert(all.take(i as int) == all);
    result
}

/// `host` with its own address as the last hop, unless some hop leads there already.
pub open spec fn arrived(host: HostView) -> HostView {
    match host.ip {
        Some(ip) if !host.hops.contains(ip) => with_hops(host, seq![ip]),
        _ => host,
    }
}

/// Adds the address of the host as the last hop, unless some hop leads there already: the trace
/// of a host that does not answer ends before it.
pub fn arrive(host: &mut Host)
    ensures
        final(host)@ == arrived(old(host)@),
{
    if let Some(ip) = host.ip.clone() {
        if !is_among(&host.hops, ip.as_str()) {
            let mut last: Vec<String> = Vec::new();
            let ghost address = ip@;
            last.push(ip);
            assert(last.deep_view() == seq![address]);
            add_hops(host, last);
        }
    }
}

/// Once the trace of a host with an address has ended, the way to it need not be traced again.
pub proof fn law_arrived(host: HostView)
    ensures
        !untraced(arrived(host)),
        arrived(arrived(host)) == arrived(host),
{
    if let Some(ip) = host.ip {
        if !host.hops.contains(ip) {
            assert(arrived(host).hops[host.hops.len() as int] == ip);
        }
    }
}

/// A route over a directly connected network is preferred: its gateway is one of the default
/// routes over the same device, and the network that is learnt is that of the last direct route.
pub proof fn law_gateway_is_a_default_route(routes: RoutesView)
    ensures
        routes.gateways.len() > 0 ==> exists|i: int|
            0 <= i < routes.gateways.len() && (#[trigger] routes.gateways[i]).0 == gateway_of(
                routes,
            ).0,
        gateway_of(routes).1 matches Some(network) ==> {
            &&& routes.device matches Some((device, net))
            &&& net == network
            &&& exists|i: int|
                0 <= i < routes.gateways.len() && #[trigger] routes.gateways[i] == (
                    gateway_of(routes).0,
                    device,
                )
        },
{
    if let Some((device, network)) = routes.device {
        lemma_gateway_over(routes.gateways, device);
    }
}

/// The gateway over a device is that of a default route over it.
proof fn lemma_gateway_over(gateways: Seq<(Seq<char>, Seq<char>)>, device: Seq<char>)
    ensures
        gateway_over(gateways, device) matches Some(gateway) ==> exists|i: int|
            0 <= i < gateways.len() && #[trigger] gateways[i] == (gateway, device),
        gateway_over(gateways, device) is None ==> forall|i: int|
            0 <= i < gateways.len() ==> (#[trigger] gateways[i]).1 != device,
    decreases gateways.len(),
{
    if gateways.len() > 0 {
        let rest = gateways.skip(1);
        lemma_gateway_over(rest, device);
        if gateways[0].1 == device {
            assert(gateways[0] == (gateways[0].0, device));
        } else {
            if let Some(gateway) = gateway_over(rest, device) {
                let i = choose|i: int|
                    0 <= i < rest.len() && #[trigger] rest[i] == (gateway, device);
                assert(gateways[i + 1] == (gateway, device));
            }
            assert forall|i: int| 0 <= i < gateways.len() && gateway_over(rest, device) is None
                implies (#[trigger] gateways[i]).1 != device by {
                if i > 0 {
                    assert(rest[i - 1] == gateways[i]);
                }
            }
        }
    }
}

/// The routes are listed with `ip route list match`, for the address alone.
pub proof fn law_route_command(ip: Seq<char>)
    ensures
        route_command(ip).program == "ip"@,
        route_command(ip).args.len() == 4,
        route_command(ip).args.last() == ip,
        route_command(ip).args.take(3) == seq!["route"@, "list"@, "match"@],
{
}

/// A trace asks no names, queries each hop once, follows as many hops as are set, 15 if nothing is
/// set, and ends at the address.
pub proof fn law_trace_command(ip: Seq<char>, limit: u16)
    ensures
        trace_command(ip, Some(limit)).args[3] == digits_of(limit as nat),
        trace_command(ip, None).args[3] == "15"@,
        forall|max_hops: Option<u16>|
            {
                let command = #[trigger] trace_command(ip, max_hops);
                &&& command.program == "traceroute"@
                &&& command.args.len() == 5
                &&& command.args.last() == ip
                &&& command.args.take(3) == seq!["-n"@, "-q 1"@, "-m"@]
            },
{
    reveal_strlit("15");
    reveal_strlit("0123456789");
    law_digits(1, 5);
    law_digits(0, 1);
    assert(digits_of(15) =~= "15"@);
    assert forall|max_hops: Option<u16>|
        (#[trigger] trace_command(ip, max_hops)).args.take(3) == seq!["-n"@, "-q 1"@, "-m"@] by {
        assert(trace_command(ip, max_hops).args.take(3) =~= seq!["-n"@, "-q 1"@, "-m"@]);
    }
}

/// A line of the routing table that begins with `default` adds one default route, after those that
/// are known: its third word is the gateway, its fifth the device, either empty if it is missing.
/// The direct route stays.
pub proof fn law_default_route(lines: Seq<Seq<char>>, line: Seq<char>)
    requires
        word_seq(line).len() > 0,
        word_seq(line)[0] == "default"@,
    ensures
        ({
            let words = word_seq(line);
            let before = routes_of(lines);
            let after = routes_of(lines.push(line));
            &&& after.device == before.device
            &&& after.gateways.len() == before.gateways.len() + 1
            &&& after.gateways.drop_last() == before.gateways
            &&& words.len() > 2 ==> after.gateways.last().0 == words[2]
            &&& words.len() <= 2 ==> after.gateways.last().0.len() == 0
            &&& words.len() > 4 ==> after.gateways.last().1 == words[4]
            &&& words.len() <= 4 ==> after.gateways.last().1.len() == 0
        }),
{
    assert(lines.push(line).drop_last() == lines);
    assert(routes_of(lines.push(line)).gateways.drop_last() =~= routes_of(lines).gateways);
}

/// Any other line is a direct route, of which the last counts: its third word is the device, its
/// first the network, either empty if it is missing. The default routes stay.
pub proof fn law_direct_route(lines: Seq<Seq<char>>, line: Seq<char>)
    requires
        word_seq(line).len() > 0 ==> word_seq(line)[0] != "default"@,
    ensures
        ({
            let words = word_seq(line);
            let after = routes_of(lines.push(line));
            &&& after.gateways == routes_of(lines).gateways
            &&& after.device matches Some((device, network))
            &&& words.len() > 2 ==> device == words[2]
            &&& words.len() <= 2 ==> device.len() == 0
            &&& words.len() > 0 ==> network == words[0]
            &&& words.len() == 0 ==> network.len() == 0
        }),
{
    assert(lines.push(line).drop_last() == lines);
    reveal_strlit("default");
    assert("default"@.len() > 0);
}

/// A routing table without lines gives no routes.
pub proof fn law_no_routes()
    ensures
        routes_of(seq![]).gateways.len() == 0,
        routes_of(seq![]).device is None,
{
}

/// The gateway is that of the first default route over the device of the direct route, and then
/// the network is that of the direct route.
pub proof fn law_direct_gateway(routes: RoutesView, i: int)
    requires
        routes.device is Some,
        0 <= i < routes.gateways.len(),
        routes.gateways[i].1 == (routes.device->0).0,
        forall|j: int|
            0 <= j < i ==> (#[trigger] routes.gateways[j]).1 != (routes.device->0).0,
    ensures
        gateway_of(routes) == (routes.gateways[i].0, Some((routes.device->0).1)),
{
    lemma_first_gateway(routes.gateways, (routes.device->0).0, i);
}

/// Where no default route goes over the device of the direct route, or there is no direct route,
/// the gateway is that of the first default route, and nothing is known of the network.
pub proof fn law_default_gateway(routes: RoutesView)
    requires
        routes.device matches Some((device, _)) ==> forall|j: int|
            0 <= j < routes.gateways.len() ==> (#[trigger] routes.gateways[j]).1 != device,
    ensures
        gateway_of(routes).1 is None,
        routes.gateways.len() > 0 ==> gateway_of(routes).0 == routes.gateways[0].0,
        routes.gateways.len() == 0 ==> gateway_of(routes).0.len() == 0,
{
    if let Some((device, _)) = routes.device {
        lemma_gateway_over(routes.gateways, device);
    }
}

/// The first default route over a device is the one that is found.
proof fn lemma_first_gateway(gateways: Seq<(Seq<char>, Seq<char>)>, device: Seq<char>, i: int)
    requires
        0 <= i < gateways.len(),
        gateways[i].1 == device,
        forall|j: int| 0 <= j < i ==> (#[trigger] gateways[j]).1 != device,
    ensures
        gateway_over(gateways, device) == Some(gateways[i].0),
    decreases i,
{
    if i > 0 {
        let rest = gateways.skip(1);
        assert forall|j: int| 0 <= j < i - 1 implies (#[trigger] rest[j]).1 != device by {
            assert(rest[j] == gateways[j + 1]);
        }
        assert(gateways[0].1 != device);
        lemma_first_gateway(rest, device, i - 1);
    }
}

/// A line of a trace with the number of a hop, whatever number it is, gives its second word as the
/// next hop, unless the line ends there or its last word begins with an exclamation mark.
pub proof fn law_hop_given(lines: Seq<Seq<char>>, line: Seq<char>, n: u16)
    requires
        word_seq(line).len() >= 3,
        word_seq(line)[0] == digits_of(n as nat) || u16_of(word_seq(line)[0]) == Some(n),
        word_seq(line).last().first() != '!',
    ensures
        hops_of(lines.push(line)) == hops_of(lines).push(word_seq(line)[1]),
{
    law_decimal_text(n);
    assert(lines.push(line).drop_last() == lines);
}

/// Any other line of a trace gives no hop: one that does not begin with a number, one of fewer
/// than three words, and one with an error mark at its end.
pub proof fn law_no_hop(lines: Seq<Seq<char>>, line: Seq<char>)
    requires
        ({
            ||| word_seq(line).len() < 3
            ||| u16_of(word_seq(line)[0]) is None
            ||| word_seq(line).last().first() == '!'
        }),
    ensures
        hops_of(lines.push(line)) == hops_of(lines),
        hops_of(seq![]).len() == 0,
{
    assert(lines.push(line).drop_last() == lines);
}

/// The way to a host is to be traced exactly if the host has an address that no hop has.
pub proof fn law_untraced(host: HostView)
    ensures
        untraced(host) <==> host.ip is Some && forall|i: int|
            0 <= i < host.hops.len() ==> #[trigger] host.hops[i] != host.ip->0,
{
}

/// Hops are added after those that are known, and nothing else of the host changes.
pub proof fn law_hops_added(host: HostView, hops: Seq<Seq<char>>)
    ensures
        with_hops(host, hops).hops == host.hops + hops,
        with_hops(host, hops) == (HostView { hops: with_hops(host, hops).hops, ..host }),
{
}

/// Of the candidates exactly those that are addresses are kept, in order.
pub proof fn law_valid(candidates: Seq<Option<Seq<char>>>, address: Seq<char>)
    ensures
        valid(candidates.push(Some(address))) == valid(candidates).push(address),
        valid(candidates.push(None)) == valid(candidates),
        valid(seq![]).len() == 0,
{
    assert(candidates.push(Some(address)).drop_last() == candidates);
    assert(candidates.push(None).drop_last() == candidates);
}

/// A host that no hop leads to becomes the last hop; otherwise the hops stay. Nothing else of the
/// host changes.
pub proof fn law_last_hop(host: HostView)
    ensures
        arrived(host) == (HostView { hops: arrived(host).hops, ..host }),
        host.ip is None ==> arrived(host).hops == host.hops,
        host.ip matches Some(ip) ==> arrived(host).hops == if exists|i: int|
            0 <= i < host.hops.len() && #[trigger] host.hops[i] == ip {
            host.hops
        } else {
            host.hops.push(ip)
        },
{
    if let Some(ip) = host.ip {
        assert(host.hops + seq![ip] =~= host.hops.push(ip));
    }
}

/// All of some routes is among their contents.
pub proof fn law_routes_contents(routes: Routes)
    ensures
        routes@.gateways.len() == routes.gateways@.len(),
        forall|i: int|
            0 <= i < routes.gateways@.len() ==> #[trigger] routes@.gateways[i] == (
                routes.gateways@[i].0@,
                routes.gateways@[i].1@,
            ),
        routes.device matches Some((device, network)) ==> routes@.device == Some(
            (device@, network@),
        ),
        routes.device is None ==> routes@.device is None,
{
}

} // verus!
