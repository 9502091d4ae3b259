//! The rules of a first setup: which Wi-Fi credentials are accepted and
//! the configuration that the command-line arguments describe.
use vstd::prelude::*;
use crate::config::{
    Config, ConfigView, GatewayConfig, GatewayConfigView, WifiConfig, WifiConfigView,
    WireGuardSettings, WireGuardSettingsView, resolved_interface,
};
use crate::text::{count_char, joined, law_split_count, law_split_join, split_on, split_trimmed, trimmed};

verus! {

/// Why a setup is refused.
#[derive(Debug, PartialEq, Eq, Structural)]
pub enum SetupError {
    /// Only one of the Wi-Fi SSID and password was given.
    UnpairedWifiCredentials,
}

/// The text shown for a refused setup.
pub open spec fn setup_error_text(e: SetupError) -> Seq<char> {
    match e {
        SetupError::UnpairedWifiCredentials => "Both --wifi-ssid and --wifi-password must be provided together"@,
    }
}

impl SetupError {
    /// The text shown for this error.
    pub fn message(&self) -> (m: String)
        ensures
            m@ == setup_error_text(*self),
    {
        match self {
            SetupError::UnpairedWifiCredentials => String::from_str(
                "Both --wifi-ssid and --wifi-password must be provided together",
            ),
        }
    }
}

/// The name of the NetworkManager connection that carries the tunnel.
pub open spec fn tunnel_name() -> Seq<char> {
    "wgbridge0"@
}

/// The Wi-Fi credentials that an SSID and a password describe, when both are given.
pub open spec fn paired_wifi(ssid: Option<String>, password: Option<String>) -> Option<
    WifiConfigView,
> {
    match (ssid, password) {
        (Some(s), Some(p)) => Some(WifiConfigView { ssid: s@, password: p@ }),
        _ => None,
    }
}

/// Whether exactly one of the two Wi-Fi arguments was given.
pub open spec fn unpaired(ssid: Option<String>, password: Option<String>) -> bool {
    (ssid is Some) != (password is Some)
}

/// The DNS servers of a comma-separated list, each trimmed of whitespace.
pub open spec fn dns_servers(list: Seq<char>) -> Seq<Seq<char>> {
    split_on(list, ',').map_values(|p: Seq<char>| trimmed(p))
}

/// The configuration a setup writes: the tunnel `wgbridge0` to the peer,
/// routing everything (`0.0.0.0/0`) through it, and forwarding from the LAN
/// interface into it.
pub open spec fn setup_view(
    wifi: Option<WifiConfigView>,
    private_key: Seq<char>,
    address: Seq<char>,
    peer_public_key: Seq<char>,
    peer_endpoint: Seq<char>,
    dns: Seq<char>,
    lan_interface: Seq<char>,
    keepalive: u32,
) -> ConfigView {
    ConfigView {
        wifi,
        wireguard: WireGuardSettingsView {
            name: tunnel_name(),
            private_key,
            address,
            dns: dns_servers(dns),
            peer_public_key,
            peer_endpoint,
            allowed_ips: seq!["0.0.0.0/0"@],
            persistent_keepalive: Some(keepalive),
        },
        gateway: GatewayConfigView { lan_interface, wg_interface: tunnel_name() },
    }
}

/// The Wi-Fi credentials of a setup: none, or both the SSID and the password.
pub fn wifi_from_args(ssid: Option<String>, password: Option<String>) -> (wifi: Result<
    Option<WifiConfig>,
    SetupError,
>)
    ensures
        unpaired(ssid, password) <==> wifi is Err,
        wifi matches Err(e) ==> e == SetupError::UnpairedWifiCredentials,
        wifi matches Ok(w) ==> crate::config::wifi_view(w) == paired_wifi(ssid, password),
{
    match (ssid, password) {
        (Some(ssid), Some(password)) => Ok(Some(WifiConfig { ssid, password })),
        (None, None) => Ok(None),
        _ => Err(SetupError::UnpairedWifiCredentials),
    }
}

/// The configuration that the setup arguments describe.
pub fn setup_config(
    wifi_ssid: Option<String>,
    wifi_password: Option<String>,
    private_key: String,
    address: String,
    peer_public_key: String,
    peer_endpoint: String,
    dns: String,
    lan_interface: String,
    keepalive: u32,
) -> (config: Result<Config, SetupError>)
    ensures
        unpaired(wifi_ssid, wifi_password) <==> config is Err,
        config matches Err(e) ==> e == SetupError::UnpairedWifiCredentials,
        config matches Ok(c) ==> c@ == setup_view(
            paired_wifi(wifi_ssid, wifi_password),
            private_key@,
            address@,
            peer_public_key@,
            peer_endpoint@,
            dns@,
            lan_interface@,
            keepalive,
        ),
{
    let wifi = match wifi_from_args(wifi_ssid, wifi_password) {
        Ok(w) => w,
        Err(e) => return Err(e),
    };
    let servers = split_trimmed(dns.as_str(), ',');
    let allowed_ips = vec![String::from_str("0.0.0.0/0")];
    proof {
        assert(allowed_ips.deep_view() =~= seq!["0.0.0.0/0"@]);
    }
    Ok(
        Config {
            wifi,
            wireguard: WireGuardSettings {
                name: String::from_str("wgbridge0"),
                private_key,
                address,
                dns: servers,
                peer_public_key,
                peer_endpoint,
                allowed_ips,
                persistent_keepalive: Some(keepalive),
            },
            gateway: GatewayConfig { lan_interface, wg_interface: String::from_str("wgbridge0") },
        },
    )
}

/// A setup forwards through the interface that NetworkManager creates for
/// the tunnel it configures: `wg-wgbridge0`.
pub proof fn law_setup_forwards_through_tunnel(
    wifi: Option<WifiConfigView>,
    private_key: Seq<char>,
    address: Seq<char>,
    peer_public_key: Seq<char>,
    peer_endpoint: Seq<char>,
    dns: Seq<char>,
    lan_interface: Seq<char>,
    keepalive: u32,
)
    ensures
        ({
            let c = setup_view(
                wifi,
                private_key,
                address,
                peer_public_key,
                peer_endpoint,
                dns,
                lan_interface,
                keepalive,
            );
            &&& c.gateway.wg_interface == c.wireguard.name
            &&& resolved_interface(c.gateway.wg_interface) == "wg-wgbridge0"@
        }),
{
    reveal_strlit("wgbridge0");
    reveal_strlit("wg-");
    reveal_strlit("wg-wgbridge0");
    assert(!("wgbridge0"@.subrange(0, 3) =~= "wg-"@)) by {
        assert("wgbridge0"@.subrange(0, 3)[2] != "wg-"@[2]);
    }
    assert("wg-"@ + "wgbridge0"@ =~= "wg-wgbridge0"@);
}

/// Wi-Fi credentials are taken when both parts are given, exactly as given,
/// and refused when only one is.
pub proof fn law_wifi_pairing(ssid: Option<String>, password: Option<String>)
    ensures
        (ssid is Some && password is Some) ==> paired_wifi(ssid, password) == Some(
            WifiConfigView { ssid: ssid->0@, password: password->0@ },
        ),
        (ssid is None || password is None) ==> paired_wifi(ssid, password) is None,
        unpaired(ssid, password) <==> (ssid is Some && password is None) || (ssid is None
            && password is Some),
{
}

/// A setup keeps every argument as given: the Wi-Fi credentials, the keys,
/// address and endpoint, the keepalive and the LAN interface; the tunnel
/// routes everything (`0.0.0.0/0`); and the DNS list has one server per
/// comma-separated piece of the argument, in order, each trimmed: the
/// pieces, joined with commas, give back the whole argument.
pub proof fn law_setup_keeps_arguments(
    wifi: Option<WifiConfigView>,
    private_key: Seq<char>,
    address: Seq<char>,
    peer_public_key: Seq<char>,
    peer_endpoint: Seq<char>,
    dns: Seq<char>,
    lan_interface: Seq<char>,
    keepalive: u32,
)
    ensures
        ({
            let c = setup_view(
                wifi,
                private_key,
                address,
                peer_public_key,
                peer_endpoint,
                dns,
                lan_interface,
                keepalive,
            );
            &&& c.wifi == wifi
            &&& c.wireguard.private_key == private_key
            &&& c.wireguard.address == address
            &&& c.wireguard.peer_public_key == peer_public_key
            &&& c.wireguard.peer_endpoint == peer_endpoint
            &&& c.wireguard.persistent_keepalive == Some(keepalive)
            &&& c.wireguard.allowed_ips == seq!["0.0.0.0/0"@]
            &&& c.gateway.lan_interface == lan_interface
            &&& c.wireguard.dns.len() == count_char(dns, ',') + 1
            &&& exists|pieces: Seq<Seq<char>>|
                {
                    &&& #[trigger] joined(pieces, ',') == dns
                    &&& forall|k: int| 0 <= k < pieces.len() ==> !pieces[k].contains(',')
                    &&& c.wireguard.dns == pieces.map_values(|p: Seq<char>| trimmed(p))
                }
        }),
{
    law_split_join(dns, ',');
    law_split_count(dns, ',');
    let pieces = split_on(dns, ',');
    assert(joined(pieces, ',') == dns);
}

} // verus!
