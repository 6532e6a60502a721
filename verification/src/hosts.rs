//! Hosts, their services, and what scans find out about them.

use crate::scripts::{ScriptElementView, Scripts};
use vstd::prelude::*;

verus! {

/// The transport protocol of a port.
#[derive(Clone, Copy, Debug, PartialEq, Eq, Structural)]
pub enum Protocol {
    TCP,
    UDP,
    UNKNOWN,
}

/// The state of a port.
#[derive(Clone, Copy, Debug, PartialEq, Eq, Structural)]
pub enum State {
    OPEN,
    FILTER,
    CLOSE,
    UNKNOWN,
}

/// A known vulnerability of a service.
#[derive(Debug)]
pub struct Vulnerability {
    /// Identifier in its database.
    pub id: String,
    /// The database that lists it.
    pub database: String,
    /// Whether an exploit is known.
    pub exploit: bool,
    /// The CVSS score as the scanner wrote it; empty where it wrote none.
    pub cvss: String,
}

/// The contents of a [`Vulnerability`].
#[verifier::ext_equal]
pub struct VulnerabilityView {
    pub id: Seq<char>,
    pub database: Seq<char>,
    pub exploit: bool,
    pub cvss: Seq<char>,
}

impl View for Vulnerability {
    type V = VulnerabilityView;

    open spec fn view(&self) -> VulnerabilityView {
        VulnerabilityView {
            id: self.id@,
            database: self.database@,
            exploit: self.exploit,
            cvss: self.cvss@,
        }
    }
}

impl DeepView for Vulnerability {
    type V = VulnerabilityView;

    open spec fn deep_view(&self) -> VulnerabilityView {
        self@
    }
}

impl Clone for Vulnerability {
    fn clone(&self) -> (result: Self)
        ensures
            result@ == self@,
    {
        let result = Vulnerability {
            id: self.id.clone(),
            database: self.database.clone(),
            exploit: self.exploit,
            cvss: self.cvss.clone(),
        };
        assert(result@ =~= self@);
        result
    }
}

/// The [`Vulnerability`] of which nothing is known yet.
pub open spec fn blank_vulnerability() -> VulnerabilityView {
    VulnerabilityView {
        id: seq![],
        database: seq![],
        exploit: false,
        cvss: seq![],
    }
}

impl Default for Vulnerability {
    fn default() -> (result: Self)
        ensures
            result@ == blank_vulnerability(),
    {
        let result = Vulnerability {
            id: String::new(),
            database: String::new(),
            exploit: false,
            cvss: String::new(),
        };
        assert(result@ =~= blank_vulnerability());
        result
    }
}

/// A service that listens on a port of a host.
#[derive(Debug)]
pub struct Service {
    pub port: u16,
    pub protocol: Protocol,
    pub state: State,
    pub name: String,
    pub product: String,
    pub version: String,
    pub vulns: Vec<Vulnerability>,
}

/// The contents of a [`Service`].
#[verifier::ext_equal]
pub struct ServiceView {
    pub port: u16,
    pub protocol: Protocol,
    pub state: State,
    pub name: Seq<char>,
    pub product: Seq<char>,
    pub version: Seq<char>,
    pub vulns: Seq<VulnerabilityView>,
}

impl View for Service {
    type V = ServiceView;

    open spec fn view(&self) -> ServiceView {
        ServiceView {
            port: self.port,
            protocol: self.protocol,
            state: self.state,
            name: self.name@,
            product: self.product@,
            version: self.version@,
            vulns: self.vulns.deep_view(),
        }
    }
}

impl DeepView for Service {
    type V = ServiceView;

    open spec fn deep_view(&self) -> ServiceView {
        self@
    }
}

impl Clone for Service {
    fn clone(&self) -> (result: Self)
        ensures
            result@ == self@,
    {
        let result = Service {
            port: self.port,
            protocol: self.protocol,
            state: self.state,
            name: self.name.clone(),
            product: self.product.clone(),
            version: self.version.clone(),
            vulns: self.vulns.clone(),
        };
        assert(result@ =~= self@);
        result
    }
}

/// The [`Service`] of which nothing is known yet.
pub open spec fn blank_service() -> ServiceView {
    ServiceView {
        port: 0,
        protocol: Protocol::UNKNOWN,
        state: State::UNKNOWN,
        name: seq![],
        product: seq![],
        version: seq![],
        vulns: seq![],
    }
}

impl Default for Service {
    fn default() -> (result: Self)
        ensures
            result@ == blank_service(),
    {
        let result = Service {
            port: 0,
            protocol: Protocol::UNKNOWN,
            state: State::UNKNOWN,
            name: String::new(),
            product: String::new(),
            version: String::new(),
            vulns: Vec::new(),
        };
        assert(result@ =~= blank_service());
        result
    }
}

/// What a Windows host tells of its operating system.
#[derive(Debug)]
pub struct WindowsInfo {
    pub native_lan_manager: Option<String>,
    pub native_os: Option<String>,
    pub os_name: Option<String>,
    pub os_build: Option<String>,
    pub os_release: Option<String>,
    pub os_version: Option<String>,
    pub platform: Option<String>,
    pub server_type: Option<String>,
    pub server_string: Option<String>,
}

/// The contents of a [`WindowsInfo`].
#[verifier::ext_equal]
pub struct WindowsInfoView {
    pub native_lan_manager: Option<Seq<char>>,
    pub native_os: Option<Seq<char>>,
    pub os_name: Option<Seq<char>>,
    pub os_build: Option<Seq<char>>,
    pub os_release: Option<Seq<char>>,
    pub os_version: Option<Seq<char>>,
    pub platform: Option<Seq<char>>,
    pub server_type: Option<Seq<char>>,
    pub server_string: Option<Seq<char>>,
}

impl View for WindowsInfo {
    type V = WindowsInfoView;

    open spec fn view(&self) -> WindowsInfoView {
        WindowsInfoView {
            native_lan_manager: self.native_lan_manager.deep_view(),
            native_os: self.native_os.deep_view(),
            os_name: self.os_name.deep_view(),
            os_build: self.os_build.deep_view(),
            os_release: self.os_release.deep_view(),
            os_version: self.os_version.deep_view(),
            platform: self.platform.deep_view(),
            server_type: self.server_type.deep_view(),
            server_string: self.server_string.deep_view(),
        }
    }
}

impl DeepView for WindowsInfo {
    type V = WindowsInfoView;

    open spec fn deep_view(&self) -> WindowsInfoView {
        self@
    }
}

impl Clone for WindowsInfo {
    fn clone(&self) -> (result: Self)
        ensures
            result@ == self@,
    {
        let result = WindowsInfo {
            native_lan_manager: self.native_lan_manager.clone(),
            native_os: self.native_os.clone(),
            os_name: self.os_name.clone(),
            os_build: self.os_build.clone(),
            os_release: self.os_release.clone(),
            os_version: self.os_version.clone(),
            platform: self.platform.clone(),
            server_type: self.server_type.clone(),
            server_string: self.server_string.clone(),
        };
        assert(result@ =~= self@);
        result
    }
}

/// The domain that a Windows host belongs to.
#[derive(Debug)]
pub struct WindowsDomain {
    pub domain: Option<String>,
    pub dns_domain: Option<String>,
    pub derived_domain: Option<String>,
    pub derived_membership: Option<String>,
    pub fqdn: Option<String>,
    pub netbios_name: Option<String>,
    pub netbios_domain: Option<String>,
}

/// The contents of a [`WindowsDomain`].
#[verifier::ext_equal]
pub struct WindowsDomainView {
    pub domain: Option<Seq<char>>,
    pub dns_domain: Option<Seq<char>>,
    pub derived_domain: Option<Seq<char>>,
    pub derived_membership: Option<Seq<char>>,
    pub fqdn: Option<Seq<char>>,
    pub netbios_name: Option<Seq<char>>,
    pub netbios_domain: Option<Seq<char>>,
}

impl View for WindowsDomain {
    type V = WindowsDomainView;

    open spec fn view(&self) -> WindowsDomainView {
        WindowsDomainView {
            domain: self.domain.deep_view(),
            dns_domain: self.dns_domain.deep_view(),
            derived_domain: self.derived_domain.deep_view(),
            derived_membership: self.derived_membership.deep_view(),
            fqdn: self.fqdn.deep_view(),
            netbios_name: self.netbios_name.deep_view(),
            netbios_domain: self.netbios_domain.deep_view(),
        }
    }
}

impl DeepView for WindowsDomain {
    type V = WindowsDomainView;

    open spec fn deep_view(&self) -> WindowsDomainView {
        self@
    }
}

impl Clone for WindowsDomain {
    fn clone(&self) -> (result: Self)
        ensures
            result@ == self@,
    {
        let result = WindowsDomain {
            domain: self.domain.clone(),
            dns_domain: self.dns_domain.clone(),
            derived_domain: self.derived_domain.clone(),
            derived_membership: self.derived_membership.clone(),
            fqdn: self.fqdn.clone(),
            netbios_name: self.netbios_name.clone(),
            netbios_domain: self.netbios_domain.clone(),
        };
        assert(result@ =~= self@);
        result
    }
}

/// A share that a Windows host offers.
#[derive(Debug)]
pub struct WindowsShare {
    pub name: Option<String>,
    pub comment: Option<String>,
    pub share_type: Option<String>,
    /// Access rights, of which the scan reports none.
    pub access: Vec<String>,
}

/// The contents of a [`WindowsShare`].
#[verifier::ext_equal]
pub struct WindowsShareView {
    pub name: Option<Seq<char>>,
    pub comment: Option<Seq<char>>,
    pub share_type: Option<Seq<char>>,
    pub access: Seq<Seq<char>>,
}

impl View for WindowsShare {
    type V = WindowsShareView;

    open spec fn view(&self) -> WindowsShareView {
        WindowsShareView {
            name: self.name.deep_view(),
            comment: self.comment.deep_view(),
            share_type: self.share_type.deep_view(),
            access: self.access.deep_view(),
        }
    }
}

impl DeepView for WindowsShare {
    type V = WindowsShareView;

    open spec fn deep_view(&self) -> WindowsShareView {
        self@
    }
}

impl Clone for WindowsShare {
    fn clone(&self) -> (result: Self)
        ensures
            result@ == self@,
    {
        let result = WindowsShare {
            name: self.name.clone(),
            comment: self.comment.clone(),
            share_type: self.share_type.clone(),
            access: self.access.clone(),
        };
        assert(result@ =~= self@);
        result
    }
}

/// A printer that a Windows host offers.
#[derive(Debug)]
pub struct WindowsPrinter {
    pub uri: Option<String>,
    pub comment: Option<String>,
    pub description: Option<String>,
    pub flags: Option<String>,
}

/// The contents of a [`WindowsPrinter`].
#[verifier::ext_equal]
pub struct WindowsPrinterView {
    pub uri: Option<Seq<char>>,
    pub comment: Option<Seq<char>>,
    pub description: Option<Seq<char>>,
    pub flags: Option<Seq<char>>,
}

impl View for WindowsPrinter {
    type V = WindowsPrinterView;

    open spec fn view(&self) -> WindowsPrinterView {
        WindowsPrinterView {
            uri: self.uri.deep_view(),
            comment: self.comment.deep_view(),
            description: self.description.deep_view(),
            flags: self.flags.deep_view(),
        }
    }
}

impl DeepView for WindowsPrinter {
    type V = WindowsPrinterView;

    open spec fn deep_view(&self) -> WindowsPrinterView {
        self@
    }
}

impl Clone for WindowsPrinter {
    fn clone(&self) -> (result: Self)
        ensures
            result@ == self@,
    {
        let result = WindowsPrinter {
            uri: self.uri.clone(),
            comment: self.comment.clone(),
            description: self.description.clone(),
            flags: self.flags.clone(),
        };
        assert(result@ =~= self@);
        result
    }
}

/// What is known of a Windows host.
#[derive(Debug)]
pub struct Windows {
    pub info: Option<WindowsInfo>,
    pub domain: Option<WindowsDomain>,
    pub shares: Vec<WindowsShare>,
    pub printers: Vec<WindowsPrinter>,
}

/// The contents of a [`Windows`].
#[verifier::ext_equal]
pub struct WindowsView {
    pub info: Option<WindowsInfoView>,
    pub domain: Option<WindowsDomainView>,
    pub shares: Seq<WindowsShareView>,
    pub printers: Seq<WindowsPrinterView>,
}

impl View for Windows {
    type V = WindowsView;

    open spec fn view(&self) -> WindowsView {
        WindowsView {
            info: self.info.deep_view(),
            domain: self.domain.deep_view(),
            shares: self.shares.deep_view(),
            printers: self.printers.deep_view(),
        }
    }
}

impl DeepView for Windows {
    type V = WindowsView;

    open spec fn deep_view(&self) -> WindowsView {
        self@
    }
}

impl Clone for Windows {
    fn clone(&self) -> (result: Self)
        ensures
            result@ == self@,
    {
        let result = Windows {
            info: self.info.clone(),
            domain: self.domain.clone(),
            shares: self.shares.clone(),
            printers: self.printers.clone(),
        };
        assert(result@ =~= self@);
        result
    }
}

/// A host of a scanned network.
///
/// Addresses are kept as the text that their canonical form prints as.
#[derive(Debug)]
pub struct Host {
    /// The network that the host was found on.
    pub network: String,
    /// The address of the host, in canonical text.
    pub ip: Option<String>,
    /// Whether to scan for vulnerabilities.
    pub extended_scan: bool,
    /// Whether to detect the versions of services.
    pub version_check: bool,
    /// Arguments for the scripts of the scan; none if empty.
    pub scan_arguments: String,
    /// How many hops away the host may be, where that is set.
    pub max_hops: Option<u16>,
    /// The directly connected network of the host.
    pub ipnet: String,
    /// The addresses on the way to the host, in canonical text.
    pub hops: Vec<String>,
    /// The operating system.
    pub os: Option<String>,
    pub services: Vec<Service>,
    /// What the scripts of the scan reported.
    pub scripts: Scripts,
    pub windows: Option<Windows>,
}

/// The contents of a [`Host`].
#[verifier::ext_equal]
pub struct HostView {
    pub network: Seq<char>,
    pub ip: Option<Seq<char>>,
    pub extended_scan: bool,
    pub version_check: bool,
    pub scan_arguments: Seq<char>,
    pub max_hops: Option<u16>,
    pub ipnet: Seq<char>,
    pub hops: Seq<Seq<char>>,
    pub os: Option<Seq<char>>,
    pub services: Seq<ServiceView>,
    pub scripts: Map<Seq<char>, Seq<ScriptElementView>>,
    pub windows: Option<WindowsView>,
}

impl View for Host {
    type V = HostView;

    open spec fn view(&self) -> HostView {
        HostView {
            network: self.network@,
            ip: self.ip.deep_view(),
            extended_scan: self.extended_scan,
            version_check: self.version_check,
            scan_arguments: self.scan_arguments@,
            max_hops: self.max_hops,
            ipnet: self.ipnet@,
            hops: self.hops.deep_view(),
            os: self.os.deep_view(),
            services: self.services.deep_view(),
            scripts: self.scripts@,
            windows: self.windows.deep_view(),
        }
    }
}

impl DeepView for Host {
    type V = HostView;

    open spec fn deep_view(&self) -> HostView {
        self@
    }
}

impl Clone for Host {
    fn clone(&self) -> (result: Self)
        ensures
            result@ == self@,
    {
        let result = Host {
            network: self.network.clone(),
            ip: self.ip.clone(),
            extended_scan: self.extended_scan,
            version_check: self.version_check,
            scan_arguments: self.scan_arguments.clone(),
            max_hops: self.max_hops,
            ipnet: self.ipnet.clone(),
            hops: self.hops.clone(),
            os: self.os.clone(),
            services: self.services.clone(),
            scripts: self.scripts.clone(),
            windows: self.windows.clone(),
        };
        assert(result@ =~= self@);
        result
    }
}

/// The [`Host`] of which nothing is known yet.
pub open spec fn blank_host() -> HostView {
    HostView {
        network: seq![],
        ip: None,
        extended_scan: false,
        version_check: false,
        scan_arguments: seq![],
        max_hops: None,
        ipnet: seq![],
        hops: seq![],
        os: None,
        services: seq![],
        scripts: Map::empty(),
        windows: None,
    }
}

impl Default for Host {
    fn default() -> (result: Self)
        ensures
            result@ == blank_host(),
    {
        let result = Host {
            network: String::new(),
            ip: None,
            extended_scan: false,
            version_check: false,
            scan_arguments: String::new(),
            max_hops: None,
            ipnet: String::new(),
            hops: Vec::new(),
            os: None,
            services: Vec::new(),
            scripts: Scripts::new(),
            windows: None,
        };
        assert(result@ =~= blank_host());
        result
    }
}

/// Of a vulnerability, a service and a host that nothing was told of, nothing is known.
pub proof fn law_blank()
    ensures
        blank_vulnerability().id.len() == 0,
        blank_vulnerability().database.len() == 0,
        !blank_vulnerability().exploit,
        blank_vulnerability().cvss.len() == 0,
        blank_service().port == 0,
        blank_service().protocol == Protocol::UNKNOWN,
        blank_service().state == State::UNKNOWN,
        blank_service().name.len() == 0,
        blank_service().product.len() == 0,
        blank_service().version.len() == 0,
        blank_service().vulns.len() == 0,
        blank_host().ip is None,
        blank_host().network.len() == 0,
        !blank_host().extended_scan,
        !blank_host().version_check,
        blank_host().scan_arguments.len() == 0,
        blank_host().max_hops is None,
        blank_host().ipnet.len() == 0,
        blank_host().hops.len() == 0,
        blank_host().services.len() == 0,
        blank_host().os is None,
        blank_host().windows is None,
        blank_host().scripts.dom().is_empty(),
{
}

/// All of a vulnerability is among its contents.
pub proof fn law_vulnerability_contents(vulnerability: Vulnerability)
    ensures
        vulnerability@.id == vulnerability.id@,
        vulnerability@.database == vulnerability.database@,
        vulnerability@.exploit == vulnerability.exploit,
        vulnerability@.cvss == vulnerability.cvss@,
{
}

/// All of a service is among its contents.
pub proof fn law_service_contents(service: Service)
    ensures
        service@.port == service.port,
        service@.protocol == service.protocol,
        service@.state == service.state,
        service@.name == service.name@,
        service@.product == service.product@,
        service@.version == service.version@,
        service@.vulns.len() == service.vulns@.len(),
        forall|i: int|
            0 <= i < service.vulns@.len() ==> #[trigger] service@.vulns[i] == service.vulns@[i]@,
{
}

/// All of a Windows system is among its contents.
pub proof fn law_windows_info_contents(info: WindowsInfo)
    ensures
        info.native_lan_manager matches Some(held) ==> info@.native_lan_manager == Some(held@),
        info.native_lan_manager is None ==> info@.native_lan_manager is None,
        info.native_os matches Some(held) ==> info@.native_os == Some(held@),
        info.native_os is None ==> info@.native_os is None,
        info.os_name matches Some(held) ==> info@.os_name == Some(held@),
        info.os_name is None ==> info@.os_name is None,
        info.os_build matches Some(held) ==> info@.os_build == Some(held@),
        info.os_build is None ==> info@.os_build is None,
        info.os_release matches Some(held) ==> info@.os_release == Some(held@),
        info.os_release is None ==> info@.os_release is None,
        info.os_version matches Some(held) ==> info@.os_version == Some(held@),
        info.os_version is None ==> info@.os_version is None,
        info.platform matches Some(held) ==> info@.platform == Some(held@),
        info.platform is None ==> info@.platform is None,
        info.server_type matches Some(held) ==> info@.server_type == Some(held@),
        info.server_type is None ==> info@.server_type is None,
        info.server_string matches Some(held) ==> info@.server_string == Some(held@),
        info.server_string is None ==> info@.server_string is None,
{
}

/// All of a Windows domain is among its contents.
pub proof fn law_windows_domain_contents(domain: WindowsDomain)
    ensures
        domain.domain matches Some(held) ==> domain@.domain == Some(held@),
        domain.domain is None ==> domain@.domain is None,
        domain.dns_domain matches Some(held) ==> domain@.dns_domain == Some(held@),
        domain.dns_domain is None ==> domain@.dns_domain is None,
        domain.derived_domain matches Some(held) ==> domain@.derived_domain == Some(held@),
        domain.derived_domain is None ==> domain@.derived_domain is None,
        domain.derived_membership matches Some(held) ==> domain@.derived_membership == Some(held@),
        domain.derived_membership is None ==> domain@.derived_membership is None,
        domain.fqdn matches Some(held) ==> domain@.fqdn == Some(held@),
        domain.fqdn is None ==> domain@.fqdn is None,
        domain.netbios_name matches Some(held) ==> domain@.netbios_name == Some(held@),
        domain.netbios_name is None ==> domain@.netbios_name is None,
        domain.netbios_domain matches Some(held) ==> domain@.netbios_domain == Some(held@),
        domain.netbios_domain is None ==> domain@.netbios_domain is None,
{
}

/// All of a share is among its contents.
pub proof fn law_windows_share_contents(share: WindowsShare)
    ensures
        share.name matches Some(held) ==> share@.name == Some(held@),
        share.name is None ==> share@.name is None,
        share.comment matches Some(held) ==> share@.comment == Some(held@),
        share.comment is None ==> share@.comment is None,
        share.share_type matches Some(held) ==> share@.share_type == Some(held@),
        share.share_type is None ==> share@.share_type is None,
        share@.access.len() == share.access@.len(),
        forall|i: int|
            0 <= i < share.access@.len() ==> #[trigger] share@.access[i] == share.access@[i]@,
{
}

/// All of a printer is among its contents.
pub proof fn law_windows_printer_contents(printer: WindowsPrinter)
    ensures
        printer.uri matches Some(held) ==> printer@.uri == Some(held@),
        printer.uri is None ==> printer@.uri is None,
        printer.comment matches Some(held) ==> printer@.comment == Some(held@),
        printer.comment is None ==> printer@.comment is None,
        printer.description matches Some(held) ==> printer@.description == Some(held@),
        printer.description is None ==> printer@.description is None,
        printer.flags matches Some(held) ==> printer@.flags == Some(held@),
        printer.flags is None ==> printer@.flags is None,
{
}

/// All of a Windows host is among its contents.
pub proof fn law_windows_contents(windows: Windows)
    ensures
        windows.info matches Some(held) ==> windows@.info == Some(held@),
        windows.info is None ==> windows@.info is None,
        windows.domain matches Some(held) ==> windows@.domain == Some(held@),
        windows.domain is None ==> windows@.domain is None,
        windows@.shares.len() == windows.shares@.len(),
        forall|i: int|
            0 <= i < windows.shares@.len() ==> #[trigger] windows@.shares[i] == windows.shares@[i]@,
        windows@.printers.len() == windows.printers@.len(),
        forall|i: int|
            0 <= i < windows.printers@.len() ==> #[trigger] windows@.printers[i] == windows.printers@[i]@,
{
}

/// All of a host is among its contents.
pub proof fn law_host_contents(host: Host)
    ensures
        host@.network == host.network@,
        host.ip matches Some(held) ==> host@.ip == Some(held@),
        host.ip is None ==> host@.ip is None,
        host@.extended_scan == host.extended_scan,
        host@.version_check == host.version_check,
        host@.scan_arguments == host.scan_arguments@,
        host@.max_hops == host.max_hops,
        host@.ipnet == host.ipnet@,
        host@.hops.len() == host.hops@.len(),
        forall|i: int| 0 <= i < host.hops@.len() ==> #[trigger] host@.hops[i] == host.hops@[i]@,
        host.os matches Some(held) ==> host@.os == Some(held@),
        host.os is None ==> host@.os is None,
        host@.services.len() == host.services@.len(),
        forall|i: int|
            0 <= i < host.services@.len() ==> #[trigger] host@.services[i] == host.services@[i]@,
        host@.scripts == host.scripts@,
        host.windows matches Some(held) ==> host@.windows == Some(held@),
        host.windows is None ==> host@.windows is None,
{
}

} // verus!
