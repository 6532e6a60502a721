//! What is configured about a discovery.

use crate::hosts::Protocol;
use vstd::prelude::*;

verus! {

/// How to log in to the Windows hosts of a target.
#[derive(Debug)]
pub struct WindowsCredentials {
    pub domain_user: Option<String>,
    pub password: Option<String>,
    pub domain: Option<String>,
}

/// The contents of a [`WindowsCredentials`].
#[verifier::ext_equal]
pub struct WindowsCredentialsView {
    pub domain_user: Option<Seq<char>>,
    pub password: Option<Seq<char>>,
    pub domain: Option<Seq<char>>,
}

impl View for WindowsCredentials {
    type V = WindowsCredentialsView;

    open spec fn view(&self) -> WindowsCredentialsView {
        WindowsCredentialsView {
            domain_user: self.domain_user.deep_view(),
            password: self.password.deep_view(),
            domain: self.domain.deep_view(),
        }
    }
}

impl DeepView for WindowsCredentials {
    type V = WindowsCredentialsView;

    open spec fn deep_view(&self) -> WindowsCredentialsView {
        self@
    }
}

/// A host or a network to scan.
#[derive(Debug)]
pub struct DiscoverStruct {
    /// The network, as the scanner takes it; the network of the default route if none is given.
    pub network: Option<String>,
    /// Whether to scan for vulnerabilities; they are scanned for if nothing is said.
    pub extended: Option<bool>,
    /// Whether to detect the versions of services; they are detected if nothing is said.
    pub version_check: Option<bool>,
    /// How many hops away a host of the target may be.
    pub max_hops: Option<u16>,
    /// The port that a host is asked at to check whether it is up.
    pub port: Option<u16>,
    /// The protocol that a host is asked with to check whether it is up.
    pub protocol: Option<Protocol>,
    pub windows: Option<WindowsCredentials>,
}

/// The contents of a [`DiscoverStruct`].
#[verifier::ext_equal]
pub struct DiscoverStructView {
    pub network: Option<Seq<char>>,
    pub extended: Option<bool>,
    pub version_check: Option<bool>,
    pub max_hops: Option<u16>,
    pub port: Option<u16>,
    pub protocol: Option<Protocol>,
    pub windows: Option<WindowsCredentialsView>,
}

impl View for DiscoverStruct {
    type V = DiscoverStructView;

    open spec fn view(&self) -> DiscoverStructView {
        DiscoverStructView {
            network: self.network.deep_view(),
            extended: self.extended,
            version_check: self.version_check,
            max_hops: self.max_hops,
            port: self.port,
            protocol: self.protocol,
            windows: self.windows.deep_view(),
        }
    }
}

impl DeepView for DiscoverStruct {
    type V = DiscoverStructView;

    open spec fn deep_view(&self) -> DiscoverStructView {
        self@
    }
}

/// The configuration of a discovery.
#[derive(Debug)]
pub struct AppConfig {
    /// How many hosts are scanned at a time.
    pub num_threads: u32,
    /// Arguments for the scripts of the scanner.
    pub script_args: Option<String>,
    pub targets: Vec<DiscoverStruct>,
}

/// The contents of an [`AppConfig`].
#[verifier::ext_equal]
pub struct AppConfigView {
    pub num_threads: u32,
    pub script_args: Option<Seq<char>>,
    pub targets: Seq<DiscoverStructView>,
}

impl View for AppConfig {
    type V = AppConfigView;

    open spec fn view(&self) -> AppConfigView {
        AppConfigView {
            num_threads: self.num_threads,
            script_args: self.script_args.deep_view(),
            targets: self.targets.deep_view(),
        }
    }
}

/// All of some credentials is among their contents.
pub proof fn law_windows_credentials_contents(credentials: WindowsCredentials)
    ensures
        credentials.domain_user matches Some(held) ==> credentials@.domain_user == Some(held@),
        credentials.domain_user is None ==> credentials@.domain_user is None,
        credentials.password matches Some(held) ==> credentials@.password == Some(held@),
        credentials.password is None ==> credentials@.password is None,
        credentials.domain matches Some(held) ==> credentials@.domain == Some(held@),
        credentials.domain is None ==> credentials@.domain is None,
{
}

/// All of a target is among its contents.
pub proof fn law_discover_struct_contents(target: DiscoverStruct)
    ensures
        target.network matches Some(held) ==> target@.network == Some(held@),
        target.network is None ==> target@.network is None,
        target@.extended == target.extended,
        target@.version_check == target.version_check,
        target@.max_hops == target.max_hops,
        target@.port == target.port,
        target@.protocol == target.protocol,
        target.windows matches Some(held) ==> target@.windows == Some(held@),
        target.windows is None ==> target@.windows is None,
{
}

/// All of a configuration is among its contents.
pub proof fn law_app_config_contents(config: AppConfig)
    ensures
        config@.num_threads == config.num_threads,
        config.script_args matches Some(held) ==> config@.script_args == Some(held@),
        config.script_args is None ==> config@.script_args is None,
        config@.targets.len() == config.targets@.len(),
        forall|i: int|
            0 <= i < config.targets@.len() ==> #[trigger] config@.targets[i] == config.targets@[i]@,
{
}

} // verus!
