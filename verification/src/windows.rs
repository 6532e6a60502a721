//! What Windows hosts tell of themselves.

use crate::command::{CommandLine, CommandLineView};
use crate::config::{DiscoverStruct, DiscoverStructView, WindowsCredentialsView};
use crate::hosts::{
    Host, HostView, Windows, WindowsDomain, WindowsDomainView, WindowsInfo, WindowsInfoView,
    WindowsPrinter, WindowsPrinterView, WindowsShare, WindowsShareView, WindowsView,
};
use crate::json::{
    distinct_names, json_document, member, member_of, object_member, read_json, text_member, Json,
    JsonView,
};
use vstd::prelude::*;

verus! {

/// An option of a command and its value, where there is a value.
pub open spec fn option_args(option: Seq<char>, value: Option<Seq<char>>) -> Seq<Seq<char>> {
    match value {
        Some(value) => seq![option, value],
        None => seq![],
    }
}

/// The options that log in with `credentials`.
pub open spec fn login_args(credentials: Option<WindowsCredentialsView>) -> Seq<Seq<char>> {
    match credentials {
        Some(credentials) => option_args("-u"@, credentials.domain_user) + option_args(
            "-p"@,
            credentials.password,
        ) + option_args("-w"@, credentials.domain),
        None => seq![],
    }
}

/// The command that asks the host at `ip` about itself, into the file `report` with `.json`
/// appended.
pub open spec fn windows_command(
    ip: Seq<char>,
    report: Seq<char>,
    credentials: Option<WindowsCredentialsView>,
) -> CommandLineView {
    CommandLineView {
        program: "enum4linux-ng"@,
        args: seq![ip, "-A"@, "-C"@, "-d"@, "-oJ"@, report] + login_args(credentials),
    }
}

/// Adds an option and its value to a command, where there is a value.
fn add_option(command: &mut CommandLine, option: &str, value: &Option<String>)
    ensures
        final(command)@ == (CommandLineView {
            program: old(command)@.program,
            args: old(command)@.args + option_args(option@, value.deep_view()),
        }),
{
    let ghost before = command@.args;
    if let Some(value) = value {
        command.arg(option);
        command.arg(value.as_str());
    }
    assert(command@.args =~= before + option_args(option@, value.deep_view()));
}

/// The first target that is responsible for a host, given which targets are.
pub open spec fn first_responsible(responsible: Seq<bool>) -> Option<int> {
    responsible.index_of_first(true)
}

/// The first target that is responsible for a host, given which targets are.
pub fn responsible_target(responsible: &Vec<bool>) -> (result: Option<usize>)
    ensures
        match result {
            Some(i) => first_responsible(responsible@) == Some(i as int),
            None => first_responsible(responsible@) is None,
        },
{
    let mut i: usize = 0;
    while i < responsible.len()
        invariant
            i <= responsible.len(),
            forall|j: int| 0 <= j < i ==> !responsible@[j],
        decreases responsible.len() - i,
    {
        if responsible[i] {
            proof {
                responsible@.index_of_first_ensures(true);
                assert(responsible@.contains(true));
            }
            return Some(i);
        }
        i = i + 1;
    }
    proof {
        responsible@.index_of_first_ensures(true);
    }
    None
}

/// The credentials for a host: those of the first target that is responsible for it.
pub open spec fn credentials_for(
    targets: Seq<DiscoverStructView>,
    responsible: Seq<bool>,
) -> Option<WindowsCredentialsView> {
    match first_responsible(responsible) {
        Some(i) => targets[i].windows,
        None => None,
    }
}

/// The command that asks `host` about itself, with the credentials of the first of `targets` that
/// is responsible for the host; `responsible` says which targets are.
pub fn ask_windows(
    host: &Host,
    targets: &Vec<DiscoverStruct>,
    responsible: &Vec<bool>,
    report: &str,
) -> (result: CommandLine)
    requires
        host@.ip is Some,
        responsible.len() == targets.len(),
    ensures
        result@ == windows_command(
            host@.ip->0,
            report@,
            credentials_for(targets.deep_view(), responsible@),
        ),
{
    let mut command = CommandLine::new("enum4linux-ng");
    if let Some(ip) = &host.ip {
        command.arg(ip.as_str());
    }
    command.arg("-A");
    command.arg("-C");
    command.arg("-d");
    command.arg("-oJ");
    command.arg(report);
    let ghost credentials = credentials_for(targets.deep_view(), responsible@);
    if let Some(i) = responsible_target(responsible) {
        proof {
            responsible@.index_of_first_ensures(true);
        }
        assert(credentials == targets@[i as int].windows.deep_view());
        if let Some(login) = &targets[i].windows {
            add_option(&mut command, "-u", &login.domain_user);
            add_option(&mut command, "-p", &login.password);
            add_option(&mut command, "-w", &login.domain);
        }
    }
    assert(command@.args =~= windows_command(host@.ip->0, report@, credentials).args);
    command
}

/// The file that `enum4linux-ng` writes when it is told to write to `report`.
pub open spec fn report_file(report: Seq<char>) -> Seq<char> {
    report + ".json"@
}

/// The file that `enum4linux-ng` writes when it is told to write to `report`.
pub fn windows_report_file(report: &str) -> (result: String)
    ensures
        result@ == report_file(report@),
{
    report.to_owned().concat(".json")
}

/// The text that a member of a report is, unless it is empty.
pub open spec fn said(json: JsonView, name: Seq<char>) -> Option<Seq<char>> {
    match text_member(json, name) {
        Some(text) if text.len() > 0 => Some(text),
        _ => None,
    }
}

/// The operating system that a report tells of.
pub open spec fn info_of(info: JsonView) -> WindowsInfoView {
    WindowsInfoView {
        native_lan_manager: said(info, "Native LAN manager"@),
        native_os: said(info, "Native OS"@),
        os_name: said(info, "OS"@),
        os_build: said(info, "OS build"@),
        os_release: said(info, "OS release"@),
        os_version: said(info, "OS version"@),
        platform: said(info, "Platform id"@),
        server_type: said(info, "Server type"@),
        server_string: said(info, "Server type string"@),
    }
}

/// The domain that a report tells of.
pub open spec fn domain_of(document: JsonView, info: JsonView) -> WindowsDomainView {
    WindowsDomainView {
        domain: said(document, "domain"@),
        dns_domain: said(info, "DNS domain"@),
        derived_domain: said(info, "Derived domain"@),
        derived_membership: said(info, "Derived membership"@),
        fqdn: said(info, "FQDN"@),
        netbios_name: said(info, "NetBIOS computer name"@),
        netbios_domain: said(info, "NetBIOS domain name"@),
    }
}

/// The share that a member of a report tells of.
pub open spec fn share_of(name: Seq<char>, share: JsonView) -> WindowsShareView {
    WindowsShareView {
        name: Some(name),
        comment: text_member(share, "comment"@),
        share_type: text_member(share, "type"@),
        access: seq![],
    }
}

/// The printer that a member of a report tells of.
pub open spec fn printer_of(uri: Seq<char>, printer: JsonView) -> WindowsPrinterView {
    WindowsPrinterView {
        uri: Some(uri),
        comment: text_member(printer, "comment"@),
        description: text_member(printer, "description"@),
        flags: text_member(printer, "flags"@),
    }
}

/// The shares that a report tells of.
pub open spec fn shares_of(document: JsonView) -> Seq<WindowsShareView> {
    match object_member(document, "shares"@) {
        Some(shares) => shares.map_values(|share: (Seq<char>, JsonView)| share_of(share.0, share.1)),
        None => seq![],
    }
}

/// The printers that a report tells of.
pub open spec fn printers_of(document: JsonView) -> Seq<WindowsPrinterView> {
    match object_member(document, "printers"@) {
        Some(printers) => printers.map_values(
            |printer: (Seq<char>, JsonView)| printer_of(printer.0, printer.1),
        ),
        None => seq![],
    }
}

/// What a report tells of a Windows host; nothing unless it tells of the operating system.
pub open spec fn windows_of(document: JsonView) -> Option<WindowsView> {
    match member(document, "os_info"@) {
        Some(info) => Some(
            WindowsView {
                info: Some(info_of(info)),
                domain: match member(document, "smb_domain_info"@) {
                    Some(info) => Some(domain_of(document, info)),
                    None => None,
                },
                shares: shares_of(document),
                printers: printers_of(document),
            },
        ),
        None => None,
    }
}

/// The text that a member of a report is, unless it is empty.
fn say(json: &Json, name: &str) -> (result: Option<String>)
    ensures
        result.deep_view() == said(json@, name@),
{
    match json.text(name) {
        Some(text) => if text.as_str().is_empty() {
            None
        } else {
            Some(text)
        },
        None => None,
    }
}

/// The operating system that a report tells of.
fn read_info(info: &Json) -> (result: WindowsInfo)
    ensures
        result@ == info_of(info@),
{
    WindowsInfo {
        native_lan_manager: say(info, "Native LAN manager"),
        native_os: say(info, "Native OS"),
        os_name: say(info, "OS"),
        os_build: say(info, "OS build"),
        os_release: say(info, "OS release"),
        os_version: say(info, "OS version"),
        platform: say(info, "Platform id"),
        server_type: say(info, "Server type"),
        server_string: say(info, "Server type string"),
    }
}

/// The domain that a report tells of.
fn read_domain(document: &Json, info: &Json) -> (result: WindowsDomain)
    ensures
        result@ == domain_of(document@, info@),
{
    WindowsDomain {
        domain: say(document, "domain"),
        dns_domain: say(info, "DNS domain"),
        derived_domain: say(info, "Derived domain"),
        derived_membership: say(info, "Derived membership"),
        fqdn: say(info, "FQDN"),
        netbios_name: say(info, "NetBIOS computer name"),
        netbios_domain: say(info, "NetBIOS domain name"),
    }
}

/// The shares that a report tells of.
fn read_shares(document: &Json) -> (result: Vec<WindowsShare>)
    ensures
        result.deep_view() == shares_of(document@),
{
    let mut result: Vec<WindowsShare> = Vec::new();
    if let Some(shares) = document.object("shares") {
        let ghost all = object_member(document@, "shares"@)->0;
        let mut i: usize = 0;
        while i < shares.len()
            invariant
                i <= shares.len(),
                all.len() == shares.len(),
                forall|j: int|
                    0 <= j < all.len() ==> #[trigger] all[j] == (shares@[j].0@, shares@[j].1@),
                result.len() == i,
                forall|j: int|
                    0 <= j < i ==> (#[trigger] result@[j])@ == share_of(all[j].0, all[j].1),
            decreases shares.len() - i,
        {
            let (name, share) = &shares[i];
            let access: Vec<String> = Vec::new();
            assert(access.deep_view() == Seq::<Seq<char>>::empty());
            result.push(
                WindowsShare {
                    name: Some(name.clone()),
                    comment: share.text("comment"),
                    share_type: share.text("type"),
                    access,
                },
            );
            assert(all[i as int] == (name@, share@));
            i = i + 1;
        }
    }
    assert(result.deep_view() =~= shares_of(document@));
    result
}

/// The printers that a report tells of.
fn read_printers(document: &Json) -> (result: Vec<WindowsPrinter>)
    ensures
        result.deep_view() == printers_of(document@),
{
    let mut result: Vec<WindowsPrinter> = Vec::new();
    if let Some(printers) = document.object("printers") {
        let ghost all = object_member(document@, "printers"@)->0;
        let mut i: usize = 0;
        while i < printers.len()
            invariant
                i <= printers.len(),
                all.len() == printers.len(),
                forall|j: int|
                    0 <= j < all.len() ==> #[trigger] all[j] == (printers@[j].0@, printers@[j].1@),
                result.len() == i,
                forall|j: int|
                    0 <= j < i ==> (#[trigger] result@[j])@ == printer_of(all[j].0, all[j].1),
            decreases printers.len() - i,
        {
            let (uri, printer) = &printers[i];
            result.push(
                WindowsPrinter {
                    uri: Some(uri.clone()),
                    comment: printer.text("comment"),
                    description: printer.text("description"),
                    flags: printer.text("flags"),
                },
            );
            assert(all[i as int] == (uri@, printer@));
            i = i + 1;
        }
    }
    assert(result.deep_view() =~= printers_of(document@));
    result
}

/// What a report tells of a Windows host; nothing unless it tells of the operating system.
pub fn read_windows(document: &Json) -> (result: Option<Windows>)
    ensures
        result.deep_view() == windows_of(document@),
{
    match document.get("os_info") {
        Some(os_info) => {
            let domain = match document.get("smb_domain_info") {
                Some(domain_info) => Some(read_domain(document, domain_info)),
                None => None,
            };
            Some(
                Windows {
                    info: Some(read_info(os_info)),
                    domain,
                    shares: read_shares(document),
                    printers: read_printers(document),
                },
            )
        },
        None => None,
    }
}

/// `host` with what `document` tells of it; nothing unless it tells of the operating system.
pub open spec fn enumerated(host: HostView, document: JsonView) -> Option<HostView> {
    match windows_of(document) {
        Some(windows) => Some(HostView { windows: Some(windows), ..host }),
        None => None,
    }
}

/// Adds to `host` what `document` tells of it; nothing comes of a host that tells nothing of its
/// operating system.
pub fn enumerate_host(host: Host, document: &Json) -> (result: Option<Host>)
    ensures
        result.deep_view() == enumerated(host@, document@),
{
    match read_windows(document) {
        Some(windows) => {
            let mut host = host;
            host.windows = Some(windows);
            Some(host)
        },
        None => None,
    }
}

/// Whether no two shares and no two printers have the same name.
pub open spec fn distinctly_named(windows: WindowsView) -> bool {
    &&& forall|i: int, j: int|
        0 <= i < j < windows.shares.len() ==> (#[trigger] windows.shares[i]).name != (
        #[trigger] windows.shares[j]).name
    &&& forall|i: int, j: int|
        0 <= i < j < windows.printers.len() ==> (#[trigger] windows.printers[i]).uri != (
        #[trigger] windows.printers[j]).uri
}

/// A document in which no object names a member twice names no share and no printer twice.
pub proof fn law_shares_and_printers_differ(document: JsonView)
    requires
        distinct_names(document),
    ensures
        windows_of(document) matches Some(windows) ==> distinctly_named(windows),
{
    lemma_member(document, "shares"@);
    lemma_member(document, "printers"@);
}

/// The names in a member differ where those in the whole do.
proof fn lemma_member(json: JsonView, name: Seq<char>)
    requires
        distinct_names(json),
    ensures
        member(json, name) matches Some(inner) ==> distinct_names(inner),
{
    if let JsonView::Object(members) = json {
        lemma_member_of(members, name);
    }
}

/// A member that is found is one of the members.
proof fn lemma_member_of(members: Seq<(Seq<char>, JsonView)>, name: Seq<char>)
    ensures
        member_of(members, name) matches Some(inner) ==> exists|i: int|
            0 <= i < members.len() && (#[trigger] members[i]).1 == inner,
    decreases members.len(),
{
    if members.len() > 0 && members[0].0 != name {
        let rest = members.skip(1);
        lemma_member_of(rest, name);
        if let Some(inner) = member_of(rest, name) {
            let i = choose|i: int| 0 <= i < rest.len() && (#[trigger] rest[i]).1 == inner;
            assert(members[i + 1].1 == inner);
        }
    }
}

/// The document that a report holds, an empty object if it is not well-formed.
pub open spec fn report_document(report: Seq<u8>) -> JsonView {
    match json_document(report) {
        Some(document) => document,
        None => JsonView::Object(seq![]),
    }
}

/// What came of asking a host about itself: nothing if the command could not be run, otherwise
/// what its report tells.
pub open spec fn outcome(host: HostView, report: Option<Seq<u8>>) -> Option<HostView> {
    match report {
        Some(report) => enumerated(host, report_document(report)),
        None => None,
    }
}

/// Adds to `host` what its report tells; `report` is nothing if the command could not be run. No
/// two shares and no two printers that are told of have the same name.
pub fn enumerate_windows_information(host: Host, report: Option<Vec<u8>>) -> (result: Option<Host>)
    ensures
        result.deep_view() == outcome(
            host@,
            match report {
                Some(report) => Some(report@),
                None => None,
            },
        ),
        result matches Some(after) ==> after@.windows is Some && distinctly_named(
            after@.windows->0,
        ),
{
    match report {
        Some(report) => {
            let document = match read_json(report.as_slice()) {
                Some(document) => document,
                None => {
                    let empty = Json::Object(Vec::new());
                    assert(empty@->Object_0 =~= Seq::<(Seq<char>, JsonView)>::empty());
                    empty
                },
            };
            proof {
                law_shares_and_printers_differ(document@);
            }
            enumerate_host(host, &document)
        },
        None => None,
    }
}

/// Asking a host about itself changes nothing of it but what is known of it as a Windows host.
pub proof fn law_enumeration_keeps_the_rest(host: HostView, document: JsonView)
    ensures
        enumerated(host, document) matches Some(after) ==> after == (HostView {
            windows: after.windows,
            ..host
        }),
{
}

/// No text that a host tells of its operating system or its domain is empty.
pub proof fn law_said_is_not_empty(json: JsonView, name: Seq<char>)
    ensures
        said(json, name) matches Some(text) ==> text.len() > 0,
{
}

/// A report that is not well-formed, or that says nothing of the operating system, tells nothing.
pub proof fn law_no_report(host: HostView, report: Seq<u8>)
    ensures
        json_document(report) is None ==> outcome(host, Some(report)) is None,
        json_document(report) matches Some(document) && member(document, "os_info"@) is None
            ==> outcome(host, Some(report)) is None,
{
    assert(member(JsonView::Object(seq![]), "os_info"@) is None);
}

/// The host is asked at its address for all that there is, into the file, and logged in to with
/// what is configured: the user, the password and the domain, in this order, each after its option
/// and each only where it is configured.
pub proof fn law_windows_command(
    ip: Seq<char>,
    report: Seq<char>,
    login: WindowsCredentialsView,
)
    ensures
        ({
            let plain = windows_command(ip, report, None);
            let command = windows_command(ip, report, Some(login));
            let password_at: int = 6 + if login.domain_user is Some {
                2int
            } else {
                0
            };
            let domain_at: int = password_at + if login.password is Some {
                2int
            } else {
                0
            };
            let end: int = domain_at + if login.domain is Some {
                2int
            } else {
                0
            };
            &&& plain.program == "enum4linux-ng"@
            &&& plain.args == seq![ip, "-A"@, "-C"@, "-d"@, "-oJ"@, report]
            &&& command.program == plain.program
            &&& command.args.take(6) == plain.args
            &&& command.args.len() == end
            &&& login.domain_user matches Some(user) ==> command.args[6] == "-u"@
                && command.args[7] == user
            &&& login.password matches Some(password) ==> command.args[password_at] == "-p"@
                && command.args[password_at + 1] == password
            &&& login.domain matches Some(domain) ==> command.args[domain_at] == "-w"@
                && command.args[domain_at + 1] == domain
        }),
{
    let plain = windows_command(ip, report, None);
    let command = windows_command(ip, report, Some(login));
    assert(plain.args =~= seq![ip, "-A"@, "-C"@, "-d"@, "-oJ"@, report]);
    assert(command.args.take(6) =~= plain.args);
}

/// The credentials for a host are those of the first target that is responsible for it, and there
/// are none where no target is.
pub proof fn law_credentials(targets: Seq<DiscoverStructView>, responsible: Seq<bool>, i: int)
    ensures
        0 <= i < responsible.len() && responsible[i] && (forall|j: int|
            0 <= j < i ==> !#[trigger] responsible[j]) ==> credentials_for(targets, responsible)
            == targets[i].windows && first_responsible(responsible) == Some(i),
        (forall|j: int| 0 <= j < responsible.len() ==> !#[trigger] responsible[j])
            ==> credentials_for(targets, responsible) is None && first_responsible(
            responsible,
        ) is None,
{
    responsible.index_of_first_ensures(true);
    if 0 <= i < responsible.len() && responsible[i] {
        assert(responsible.contains(true));
    }
}

/// The report is in the file with `.json` after its name.
pub proof fn law_report_file(report: Seq<char>)
    ensures
        report_file(report).len() == report.len() + 5,
        report_file(report).take(report.len() as int) == report,
        report_file(report).skip(report.len() as int) == ".json"@,
{
    reveal_strlit(".json");
    assert(report_file(report).take(report.len() as int) =~= report);
    assert(report_file(report).skip(report.len() as int) =~= ".json"@);
}

/// What a host tells is the text under the name, as it is, unless it is empty or no text.
pub proof fn law_said(json: JsonView, name: Seq<char>, text: Seq<char>)
    ensures
        said(json, name) == Some(text) <==> member(json, name) == Some(JsonView::Text(text))
            && text.len() > 0,
{
}

/// A host is known as a Windows host exactly if it tells of its system, and then its system is
/// known by the names that the report uses.
pub proof fn law_system_told(document: JsonView, info: JsonView)
    requires
        member(document, "os_info"@) == Some(info),
    ensures
        windows_of(document) matches Some(windows) && windows.info matches Some(system) && {
            &&& system.native_lan_manager == said(info, "Native LAN manager"@)
            &&& system.native_os == said(info, "Native OS"@)
            &&& system.os_name == said(info, "OS"@)
            &&& system.os_build == said(info, "OS build"@)
            &&& system.os_release == said(info, "OS release"@)
            &&& system.os_version == said(info, "OS version"@)
            &&& system.platform == said(info, "Platform id"@)
            &&& system.server_type == said(info, "Server type"@)
            &&& system.server_string == said(info, "Server type string"@)
        },
{
}

/// The domain of a Windows host is known exactly if it tells of it, by the names that the report
/// uses. The name of the domain itself stands beside what is told of it.
pub proof fn law_domain_told(document: JsonView)
    requires
        member(document, "os_info"@) is Some,
    ensures
        windows_of(document) is Some,
        member(document, "smb_domain_info"@) is None ==> (windows_of(document)->0).domain is None,
        member(document, "smb_domain_info"@) matches Some(info) ==> {
            &&& (windows_of(document)->0).domain matches Some(domain)
            &&& domain.domain == said(document, "domain"@)
            &&& domain.dns_domain == said(info, "DNS domain"@)
            &&& domain.derived_domain == said(info, "Derived domain"@)
            &&& domain.derived_membership == said(info, "Derived membership"@)
            &&& domain.fqdn == said(info, "FQDN"@)
            &&& domain.netbios_name == said(info, "NetBIOS computer name"@)
            &&& domain.netbios_domain == said(info, "NetBIOS domain name"@)
        },
{
}

/// A Windows host has one share for each member of the shares that it tells of, in the same order,
/// with the name and the texts of the member; none where it tells of no shares.
pub proof fn law_shares_told(document: JsonView)
    requires
        member(document, "os_info"@) is Some,
    ensures
        windows_of(document) is Some,
        !(member(document, "shares"@) matches Some(JsonView::Object(_))) ==> (
        windows_of(document)->0).shares.len() == 0,
        member(document, "shares"@) matches Some(JsonView::Object(members)) ==> {
            let shares = (windows_of(document)->0).shares;
            &&& shares.len() == members.len()
            &&& forall|i: int|
                0 <= i < members.len() ==> {
                    &&& (#[trigger] shares[i]).name == Some(members[i].0)
                    &&& shares[i].comment == text_member(members[i].1, "comment"@)
                    &&& shares[i].share_type == text_member(members[i].1, "type"@)
                    &&& shares[i].access.len() == 0
                }
        },
{
}

/// A Windows host has one printer for each member of the printers that it tells of, in the same
/// order, with the name and the texts of the member; none where it tells of no printers.
pub proof fn law_printers_told(document: JsonView)
    requires
        member(document, "os_info"@) is Some,
    ensures
        windows_of(document) is Some,
        !(member(document, "printers"@) matches Some(JsonView::Object(_))) ==> (
        windows_of(document)->0).printers.len() == 0,
        member(document, "printers"@) matches Some(JsonView::Object(members)) ==> {
            let printers = (windows_of(document)->0).printers;
            &&& printers.len() == members.len()
            &&& forall|i: int|
                0 <= i < members.len() ==> {
                    &&& (#[trigger] printers[i]).uri == Some(members[i].0)
                    &&& printers[i].comment == text_member(members[i].1, "comment"@)
                    &&& printers[i].description == text_member(members[i].1, "description"@)
                    &&& printers[i].flags == text_member(members[i].1, "flags"@)
                }
        },
{
}

/// A host that tells of its system comes out with all that its report tells, whatever was known of
/// it as a Windows host before; any other host, and one that could not be asked, does not come out.
pub proof fn law_outcome(host: HostView, report: Seq<u8>)
    ensures
        outcome(host, None) is None,
        json_document(report) matches Some(document) ==> (outcome(host, Some(report)) is Some
            <==> member(document, "os_info"@) is Some),
        json_document(report) matches Some(document) ==> (outcome(host, Some(report)) matches Some(
            after,
        ) ==> after.windows == windows_of(document) && after == (HostView {
            windows: after.windows,
            ..host
        })),
        json_document(report) is None ==> outcome(host, Some(report)) is None,
{
    law_no_report(host, report);
}

} // verus!
