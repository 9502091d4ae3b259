//! Verified core of a transparent WireGuard gateway: configuration model,
//! command-line setup rules, NAT rule planning and tunnel settings.
pub mod text;
pub mod config;
pub mod routing;
pub mod network;
pub mod setup;
