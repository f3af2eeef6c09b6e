//! Core logic of the Zo Tunnel reverse-tunnel system, verified with Verus.
use vstd::prelude::*;

pub mod caddy;
pub mod client;
pub mod client_config;
pub mod clock;
pub mod dashboard;
pub mod metrics;
pub mod process;
pub mod protocol;
pub mod proxy;
pub mod server;
pub mod server_cli;
pub mod server_config;
pub mod text;
pub mod tunnel_manager;
pub mod version;
pub mod web_api;
pub mod zobite_client;
pub mod zobite_config;

verus! {

} // verus!
