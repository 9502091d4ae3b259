use std::path::PathBuf;
use wgbridge::config::{Config, GatewayConfig, WifiConfig, WireGuardSettings};

fn sample() -> Config {
    Config {
        wifi: None,
        wireguard: WireGuardSettings {
            name: "wgbridge0".into(),
            private_key: "priv".into(),
            address: "10.0.0.2/24".into(),
            dns: vec!["1.1.1.1".into()],
            peer_public_key: "pub".into(),
            peer_endpoint: "1.2.3.4:51820".into(),
            allowed_ips: vec!["0.0.0.0/0".into()],
            persistent_keepalive: Some(25),
        },
        gateway: GatewayConfig { lan_interface: "end0".into(), wg_interface: "wgbridge0".into() },
    }
}

#[test]
fn resolved_interface_adds_prefix() {
    let g = GatewayConfig { lan_interface: "end0".into(), wg_interface: "wgbridge0".into() };
    assert_eq!(g.resolved_wg_interface(), "wg-wgbridge0");
}

#[test]
fn resolved_interface_keeps_prefixed_name() {
    let g = GatewayConfig { lan_interface: "eth0".into(), wg_interface: "wg-home".into() };
    assert_eq!(g.resolved_wg_interface(), "wg-home");
}

#[test]
fn resolved_interface_edge_cases() {
    let g = GatewayConfig { lan_interface: "eth0".into(), wg_interface: "".into() };
    assert_eq!(g.resolved_wg_interface(), "wg-");
    let g = GatewayConfig { lan_interface: "eth0".into(), wg_interface: "wg".into() };
    assert_eq!(g.resolved_wg_interface(), "wg-wg");
}

#[test]
fn resolving_twice_changes_nothing() {
    let g = GatewayConfig { lan_interface: "eth0".into(), wg_interface: "tun".into() };
    let once = g.resolved_wg_interface();
    let g2 = GatewayConfig { lan_interface: "eth0".into(), wg_interface: once.clone() };
    assert_eq!(g2.resolved_wg_interface(), once);
}

#[test]
fn default_path_is_etc_wgbridge() {
    assert_eq!(Config::default_path(), PathBuf::from("/etc/wgbridge/config.toml"));
}

#[test]
fn set_wifi_replaces_only_wifi() {
    let mut c = sample();
    c.set_wifi("Home".into(), "secret".into());
    let w: &WifiConfig = c.wifi.as_ref().unwrap();
    assert_eq!(w.ssid, "Home");
    assert_eq!(w.password, "secret");
    assert_eq!(c.wireguard.name, "wgbridge0");
    assert_eq!(c.gateway.lan_interface, "end0");
    c.set_wifi("Other".into(), "pw2".into());
    assert_eq!(c.wifi.as_ref().unwrap().ssid, "Other");
}
