//! What the gateway hands to NetworkManager: the WireGuard connection profile
//! built from the configuration, and the lookup of the tunnel among the
//! VPN connections NetworkManager lists.
use vstd::prelude::*;
use crate::config::{WireGuardSettings, WireGuardSettingsView};

verus! {

#[verifier::external_type_specification]
#[verifier::external_body]
pub struct ExWireGuardPeer(nmrs::WireGuardPeer);

#[verifier::external_type_specification]
#[verifier::external_body]
pub struct ExWireGuardConfig(nmrs::WireGuardConfig);

/// The peer that `nmrs::WireGuardPeer::new` builds from its arguments.
pub uninterp spec fn nm_peer(
    public_key: Seq<char>,
    gateway: Seq<char>,
    allowed_ips: Seq<Seq<char>>,
) -> nmrs::WireGuardPeer;

/// The peer that `nmrs::WireGuardPeer::with_persistent_keepalive` makes of a peer.
pub uninterp spec fn nm_peer_with_keepalive(
    peer: nmrs::WireGuardPeer,
    interval: u32,
) -> nmrs::WireGuardPeer;

/// The profile that `nmrs::WireGuardConfig::new` builds from its arguments.
pub uninterp spec fn nm_wireguard_config(
    name: Seq<char>,
    gateway: Seq<char>,
    private_key: Seq<char>,
    address: Seq<char>,
    peers: Seq<nmrs::WireGuardPeer>,
) -> nmrs::WireGuardConfig;

/// The profile that `nmrs::WireGuardConfig::with_dns` makes of a profile.
pub uninterp spec fn nm_config_with_dns(
    config: nmrs::WireGuardConfig,
    dns: Seq<Seq<char>>,
) -> nmrs::WireGuardConfig;

/// `nmrs::WireGuardPeer::new`. Claimed: the peer is `nm_peer` of the arguments.
#[verifier::external_body]
fn new_peer(public_key: &str, gateway: &str, allowed_ips: Vec<String>) -> (peer:
    nmrs::WireGuardPeer)
    ensures
        peer == nm_peer(public_key@, gateway@, allowed_ips.deep_view()),
{
    nmrs::WireGuardPeer::new(public_key, gateway, allowed_ips)
}

/// `nmrs::WireGuardPeer::with_persistent_keepalive`. Claimed: the peer is
/// `nm_peer_with_keepalive` of the arguments.
#[verifier::external_body]
fn peer_with_keepalive(peer: nmrs::WireGuardPeer, interval: u32) -> (with: nmrs::WireGuardPeer)
    ensures
        with == nm_peer_with_keepalive(peer, interval),
{
    peer.with_persistent_keepalive(interval)
}

/// `nmrs::WireGuardConfig::new`. Claimed: the profile is `nm_wireguard_config`
/// of the arguments.
#[verifier::external_body]
fn new_wireguard_config(
    name: &str,
    gateway: &str,
    private_key: &str,
    address: &str,
    peers: Vec<nmrs::WireGuardPeer>,
) -> (config: nmrs::WireGuardConfig)
    ensures
        config == nm_wireguard_config(name@, gateway@, private_key@, address@, peers@),
{
    nmrs::WireGuardConfig::new(name, gateway, private_key, address, peers)
}

/// `nmrs::WireGuardConfig::with_dns`. Claimed: the profile is
/// `nm_config_with_dns` of the arguments.
#[verifier::external_body]
fn config_with_dns(config: nmrs::WireGuardConfig, dns: Vec<String>) -> (with:
    nmrs::WireGuardConfig)
    ensures
        with == nm_config_with_dns(config, dns.deep_view()),
{
    config.with_dns(dns)
}

/// The keepalive interval of the peer, in seconds: the configured one, else 25.
pub open spec fn keepalive_interval(keepalive: Option<u32>) -> u32 {
    match keepalive {
        Some(secs) => secs,
        None => 25,
    }
}

/// The peer of the tunnel: the server's key and endpoint, the routed ranges,
/// and the keepalive interval.
pub open spec fn tunnel_peer(wg: WireGuardSettingsView) -> nmrs::WireGuardPeer {
    nm_peer_with_keepalive(
        nm_peer(wg.peer_public_key, wg.peer_endpoint, wg.allowed_ips),
        keepalive_interval(wg.persistent_keepalive),
    )
}

/// The profile of the tunnel: named after the settings, with the peer's
/// endpoint as gateway and the one peer; DNS servers are set only when some
/// are configured.
pub open spec fn tunnel_profile(wg: WireGuardSettingsView) -> nmrs::WireGuardConfig {
    let base = nm_wireguard_config(
        wg.name,
        wg.peer_endpoint,
        wg.private_key,
        wg.address,
        seq![tunnel_peer(wg)],
    );
    if wg.dns.len() == 0 {
        base
    } else {
        nm_config_with_dns(base, wg.dns)
    }
}

/// The NetworkManager WireGuard profile for these settings.
pub fn tunnel_config(wg: &WireGuardSettings) -> (config: nmrs::WireGuardConfig)
    ensures
        config == tunnel_profile(wg@),
{
    let interval = match wg.persistent_keepalive {
        Some(secs) => secs,
        None => 25,
    };
    let allowed_ips = wg.allowed_ips.clone();
    proof {
        assert(allowed_ips.deep_view() =~= wg.allowed_ips.deep_view());
    }
    let peer = new_peer(wg.peer_public_key.as_str(), wg.peer_endpoint.as_str(), allowed_ips);
    let peer = peer_with_keepalive(peer, interval);
    let peers = vec![peer];
    proof {
        assert(peers@ =~= seq![tunnel_peer(wg@)]);
    }
    let config = new_wireguard_config(
        wg.name.as_str(),
        wg.peer_endpoint.as_str(),
        wg.private_key.as_str(),
        wg.address.as_str(),
        peers,
    );
    with_configured_dns(config, &wg.dns)
}

/// The profile with the configured DNS servers set, or unchanged when none
/// are configured.
pub fn with_configured_dns(config: nmrs::WireGuardConfig, dns: &Vec<String>) -> (with:
    nmrs::WireGuardConfig)
    ensures
        dns.len() == 0 ==> with == config,
        dns.len() > 0 ==> with == nm_config_with_dns(config, dns.deep_view()),
{
    if dns.len() == 0 {
        config
    } else {
        let servers = dns.clone();
        proof {
            assert(servers.deep_view() =~= dns.deep_view());
        }
        config_with_dns(config, servers)
    }
}

/// The position of the first connection named `name` among `names`, if any.
pub fn find_tunnel(names: &Vec<String>, name: &str) -> (found: Option<usize>)
    ensures
        match found {
            Some(i) => {
                &&& i < names.len()
                &&& names@[i as int]@ == name@
                &&& forall|j: int| 0 <= j < i ==> names@[j]@ != name@
            },
            None => forall|j: int| 0 <= j < names.len() ==> names@[j]@ != name@,
        },
{
    let target = String::from_str(name);
    let mut i: usize = 0;
    while i < names.len()
        invariant
            i <= names.len(),
            target@ == name@,
            forall|j: int| 0 <= j < i ==> names@[j]@ != name@,
        decreases names.len() - i,
    {
        if names[i] == target {
            return Some(i);
        }
        i += 1;
    }
    None
}

/// The peer keeps the configured keepalive interval; only when none is
/// configured is it 25 seconds.
pub proof fn law_keepalive_interval(keepalive: Option<u32>)
    ensures
        keepalive matches Some(secs) ==> keepalive_interval(keepalive) == secs,
        keepalive is None ==> keepalive_interval(keepalive) == 25,
{
}

/// The profile is built from the settings as they stand: the peer from the
/// server key, endpoint and all allowed ranges with the configured keepalive
/// (25 seconds when none is configured), the profile from the name, endpoint,
/// private key, address and that one peer; and when DNS servers are
/// configured, all of them are set on it.
pub proof fn law_tunnel_profile_uses_settings(wg: WireGuardSettingsView)
    ensures
        ({
            let secs = match wg.persistent_keepalive {
                Some(s) => s,
                None => 25u32,
            };
            let peer = nm_peer_with_keepalive(
                nm_peer(wg.peer_public_key, wg.peer_endpoint, wg.allowed_ips),
                secs,
            );
            let base = nm_wireguard_config(
                wg.name,
                wg.peer_endpoint,
                wg.private_key,
                wg.address,
                seq![peer],
            );
            &&& wg.dns.len() == 0 ==> tunnel_profile(wg) == base
            &&& wg.dns.len() > 0 ==> tunnel_profile(wg) == nm_config_with_dns(base, wg.dns)
        }),
{
}

} // verus!
