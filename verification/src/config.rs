//! The gateway's configuration: Wi-Fi credentials, WireGuard tunnel settings
//! and the interfaces between which traffic is forwarded.
use vstd::prelude::*;
use crate::text::{has_prefix, starts_with};

verus! {

#[verifier::external_type_specification]
#[verifier::external_body]
pub struct ExPathBuf(std::path::PathBuf);

/// The path that `PathBuf::from` builds from a text; a function of the text alone.
pub uninterp spec fn path_from_text(text: Seq<char>) -> std::path::PathBuf;

/// `std::path::PathBuf::from` on a string slice. Claimed: the result is
/// `path_from_text` of the slice's characters, and nothing more.
#[verifier::external_body]
fn path_buf_from(text: &str) -> (path: std::path::PathBuf)
    ensures
        path == path_from_text(text@),
{
    std::path::PathBuf::from(text)
}

/// The file where the configuration is kept unless another is named.
pub open spec fn default_config_path() -> Seq<char> {
    "/etc/wgbridge/config.toml"@
}

/// Credentials of the Wi-Fi network the gateway joins.
#[derive(Debug, Clone)]
pub struct WifiConfig {
    pub ssid: String,
    pub password: String,
}

/// WireGuard tunnel settings handed to NetworkManager.
#[derive(Debug, Clone)]
pub struct WireGuardSettings {
    pub name: String,
    pub private_key: String,
    pub address: String,
    pub dns: Vec<String>,
    pub peer_public_key: String,
    pub peer_endpoint: String,
    pub allowed_ips: Vec<String>,
    pub persistent_keepalive: Option<u32>,
}

/// The interfaces between which traffic is forwarded.
#[derive(Debug, Clone)]
pub struct GatewayConfig {
    /// The network interface to forward traffic from (e.g., "eth0", "wlan0")
    pub lan_interface: String,
    /// The WireGuard interface name (usually "wg0" or the NM connection name)
    pub wg_interface: String,
}

/// Configuration for the WireGuard gateway bridge; it is enough to rebuild
/// the gateway's whole networking state on boot.
#[derive(Debug, Clone)]
pub struct Config {
    pub wifi: Option<WifiConfig>,
    pub wireguard: WireGuardSettings,
    pub gateway: GatewayConfig,
}

pub struct WifiConfigView {
    pub ssid: Seq<char>,
    pub password: Seq<char>,
}

pub struct WireGuardSettingsView {
    pub name: Seq<char>,
    pub private_key: Seq<char>,
    pub address: Seq<char>,
    pub dns: Seq<Seq<char>>,
    pub peer_public_key: Seq<char>,
    pub peer_endpoint: Seq<char>,
    pub allowed_ips: Seq<Seq<char>>,
    pub persistent_keepalive: Option<u32>,
}

pub struct GatewayConfigView {
    pub lan_interface: Seq<char>,
    pub wg_interface: Seq<char>,
}

pub struct ConfigView {
    pub wifi: Option<WifiConfigView>,
    pub wireguard: WireGuardSettingsView,
    pub gateway: GatewayConfigView,
}

impl View for WifiConfig {
    type V = WifiConfigView;

    open spec fn view(&self) -> WifiConfigView {
        WifiConfigView { ssid: self.ssid@, password: self.password@ }
    }
}

impl View for WireGuardSettings {
    type V = WireGuardSettingsView;

    open spec fn view(&self) -> WireGuardSettingsView {
        WireGuardSettingsView {
            name: self.name@,
            private_key: self.private_key@,
            address: self.address@,
            dns: self.dns.deep_view(),
            peer_public_key: self.peer_public_key@,
            peer_endpoint: self.peer_endpoint@,
            allowed_ips: self.allowed_ips.deep_view(),
            persistent_keepalive: self.persistent_keepalive,
        }
    }
}

impl View for GatewayConfig {
    type V = GatewayConfigView;

    open spec fn view(&self) -> GatewayConfigView {
        GatewayConfigView { lan_interface: self.lan_interface@, wg_interface: self.wg_interface@ }
    }
}

/// The view of optional Wi-Fi credentials.
pub open spec fn wifi_view(wifi: Option<WifiConfig>) -> Option<WifiConfigView> {
    match wifi {
        Some(w) => Some(w@),
        None => None,
    }
}

impl View for Config {
    type V = ConfigView;

    open spec fn view(&self) -> ConfigView {
        ConfigView { wifi: wifi_view(self.wifi), wireguard: self.wireguard@, gateway: self.gateway@ }
    }
}

/// The name of the interface NetworkManager creates for a WireGuard
/// connection: the name itself when it already starts with `wg-`, else the
/// name behind `wg-`.
pub open spec fn resolved_interface(name: Seq<char>) -> Seq<char> {
    if has_prefix(name, "wg-"@) {
        name
    } else {
        "wg-"@ + name
    }
}

impl GatewayConfig {
    /// The WireGuard interface name as NetworkManager creates it.
    pub fn resolved_wg_interface(&self) -> (name: String)
        ensures
            name@ == resolved_interface(self.wg_interface@),
    {
        if starts_with(self.wg_interface.as_str(), "wg-") {
            self.wg_interface.clone()
        } else {
            String::from_str("wg-").concat(self.wg_interface.as_str())
        }
    }
}

impl Config {
    /// The default location of the configuration file.
    pub fn default_path() -> (path: std::path::PathBuf)
        ensures
            path == path_from_text(default_config_path()),
    {
        path_buf_from("/etc/wgbridge/config.toml")
    }

    /// Replaces the Wi-Fi credentials, leaving the rest of the configuration as it was.
    pub fn set_wifi(&mut self, ssid: String, password: String)
        ensures
            final(self)@ == (ConfigView {
                wifi: Some(WifiConfigView { ssid: ssid@, password: password@ }),
                ..old(self)@
            }),
    {
        self.wifi = Some(WifiConfig { ssid, password });
    }
}

/// Resolving an interface name yields a name that starts with `wg-`, and
/// resolving it again changes nothing.
pub proof fn law_resolved_interface_is_stable(name: Seq<char>)
    ensures
        has_prefix(resolved_interface(name), "wg-"@),
        resolved_interface(resolved_interface(name)) == resolved_interface(name),
{
    let p = "wg-"@;
    if !has_prefix(name, p) {
        assert(("wg-"@ + name).subrange(0, p.len() as int) =~= p);
    }
}

/// Resolving keeps the whole name: a name that already starts with `wg-` is
/// returned as it is, any other name comes back as `wg-` followed by all of
/// it; either way the result ends with the name and is at most three
/// characters longer.
pub proof fn law_resolved_interface_keeps_name(name: Seq<char>)
    ensures
        has_prefix(name, "wg-"@) ==> resolved_interface(name) == name,
        !has_prefix(name, "wg-"@) ==> resolved_interface(name) == "wg-"@ + name,
        resolved_interface(name).len() >= name.len(),
        resolved_interface(name).subrange(
            resolved_interface(name).len() - name.len(),
            resolved_interface(name).len() as int,
        ) == name,
{
    let r = resolved_interface(name);
    if has_prefix(name, "wg-"@) {
        assert(r.subrange(0, r.len() as int) =~= name);
    } else {
        assert(r.subrange(r.len() - name.len(), r.len() as int) =~= name);
    }
}

} // verus!
