//! The relay node's settings.
use vstd::prelude::*;

verus! {

/// The settings of a relay node, as given on the command line or in the
/// `RELAY_*` environment variables.
#[derive(Debug, Clone)]
pub struct RelayConfig {
    /// Address to bind all listeners on.
    pub listen_addr: String,
    /// UDP control port for relay signaling.
    pub control_port: u16,
    /// Minimum port in the relay allocation range.
    pub min_port: u16,
    /// Maximum port in the relay allocation range.
    pub max_port: u16,
    /// HMAC-SHA256 secret used to authenticate Allocate requests.
    pub hmac_secret: String,
    /// Port for the Prometheus metrics HTTP endpoint.
    pub metrics_port: u16,
    /// Port for the HTTP health-check endpoint.
    pub health_port: u16,
}

} // verus!
