use wgbridge::network::{find_tunnel, tunnel_config};
use wgbridge::setup::{setup_config, wifi_from_args, SetupError};

fn setup(ssid: Option<&str>, pw: Option<&str>, dns: &str) -> Result<wgbridge::config::Config, SetupError> {
    setup_config(
        ssid.map(|s| s.to_string()),
        pw.map(|s| s.to_string()),
        "client-private".into(),
        "10.0.0.2/24".into(),
        "server-public".into(),
        "1.2.3.4:51820".into(),
        dns.into(),
        "end0".into(),
        25,
    )
}

#[test]
fn setup_with_wifi() {
    let c = setup(Some("MyWiFi"), Some("password"), "1.1.1.1").unwrap();
    let w = c.wifi.unwrap();
    assert_eq!(w.ssid, "MyWiFi");
    assert_eq!(w.password, "password");
    assert_eq!(c.wireguard.name, "wgbridge0");
    assert_eq!(c.wireguard.private_key, "client-private");
    assert_eq!(c.wireguard.address, "10.0.0.2/24");
    assert_eq!(c.wireguard.dns, vec!["1.1.1.1"]);
    assert_eq!(c.wireguard.peer_public_key, "server-public");
    assert_eq!(c.wireguard.peer_endpoint, "1.2.3.4:51820");
    assert_eq!(c.wireguard.allowed_ips, vec!["0.0.0.0/0"]);
    assert_eq!(c.wireguard.persistent_keepalive, Some(25));
    assert_eq!(c.gateway.lan_interface, "end0");
    assert_eq!(c.gateway.wg_interface, "wgbridge0");
    assert_eq!(c.gateway.resolved_wg_interface(), "wg-wgbridge0");
}

#[test]
fn setup_without_wifi() {
    let c = setup(None, None, "1.1.1.1, 8.8.8.8").unwrap();
    assert!(c.wifi.is_none());
    assert_eq!(c.wireguard.dns, vec!["1.1.1.1", "8.8.8.8"]);
}

#[test]
fn setup_refuses_unpaired_wifi() {
    let e = setup(Some("MyWiFi"), None, "1.1.1.1").err().unwrap();
    assert_eq!(e, SetupError::UnpairedWifiCredentials);
    assert_eq!(e.message(), "Both --wifi-ssid and --wifi-password must be provided together");
    let e = setup(None, Some("pw"), "1.1.1.1").err().unwrap();
    assert_eq!(e, SetupError::UnpairedWifiCredentials);
}

#[test]
fn wifi_from_args_cases() {
    assert!(matches!(wifi_from_args(None, None), Ok(None)));
    let w = wifi_from_args(Some("a".into()), Some("b".into())).unwrap().unwrap();
    assert_eq!((w.ssid.as_str(), w.password.as_str()), ("a", "b"));
    assert!(wifi_from_args(Some("a".into()), None).is_err());
}

#[test]
fn tunnel_config_from_setup() {
    let c = setup(None, None, "1.1.1.1, 9.9.9.9").unwrap();
    let t = tunnel_config(&c.wireguard);
    assert_eq!(t.name, "wgbridge0");
    assert_eq!(t.gateway, "1.2.3.4:51820");
    assert_eq!(t.private_key, "client-private");
    assert_eq!(t.address, "10.0.0.2/24");
    assert_eq!(t.dns, Some(vec!["1.1.1.1".to_string(), "9.9.9.9".to_string()]));
    assert_eq!(t.peers.len(), 1);
    let p = &t.peers[0];
    assert_eq!(p.public_key, "server-public");
    assert_eq!(p.gateway, "1.2.3.4:51820");
    assert_eq!(p.allowed_ips, vec!["0.0.0.0/0".to_string()]);
    assert_eq!(p.persistent_keepalive, Some(25));
}

#[test]
fn tunnel_config_defaults() {
    let mut c = setup(None, None, "1.1.1.1").unwrap();
    c.wireguard.dns.clear();
    c.wireguard.persistent_keepalive = None;
    let t = tunnel_config(&c.wireguard);
    assert_eq!(t.dns, None);
    assert_eq!(t.peers[0].persistent_keepalive, Some(25));
    c.wireguard.persistent_keepalive = Some(10);
    let t = tunnel_config(&c.wireguard);
    assert_eq!(t.peers[0].persistent_keepalive, Some(10));
}

#[test]
fn find_tunnel_first_match() {
    let names = vec!["home".to_string(), "wgbridge0".to_string(), "wgbridge0".to_string()];
    assert_eq!(find_tunnel(&names, "wgbridge0"), Some(1));
    assert_eq!(find_tunnel(&names, "other"), None);
    assert_eq!(find_tunnel(&Vec::new(), "x"), None);
}

#[test]
fn with_configured_dns_sets_servers_only_when_given() {
    let base = nmrs::WireGuardConfig::new("n", "g:1", "k", "10.0.0.2/24", Vec::new());
    let same = wgbridge::network::with_configured_dns(base.clone(), &Vec::new());
    assert_eq!(same.dns, None);
    let set = wgbridge::network::with_configured_dns(base, &vec!["8.8.8.8".to_string()]);
    assert_eq!(set.dns, Some(vec!["8.8.8.8".to_string()]));
    assert_eq!(set.name, "n");
}
