//! The runtime configuration bundle, as plain values. Loading it from the
//! process environment happens outside the library; the library only states
//! what the options mean.

use vstd::prelude::*;
use vstd::string::StringExecFns;

verus! {

/// Recognized configuration options. The four `*_addr` options are optional
/// static overrides for the contract address registry: all four must be
/// present and parseable for the override to take effect.
pub struct AppConfig {
    pub rpc_http_url: String,
    pub rpc_ws_url: String,
    pub database_url: String,
    pub redis_url: String,
    pub jwt_secret: String,
    pub qr_hmac_secret: String,
    pub listen_addr: String,
    pub ticket_manager_addr: Option<String>,
    pub event_manager_addr: Option<String>,
    pub marketplace_addr: Option<String>,
    pub token_swap_addr: Option<String>,
}

/// The listen address used when the configuration does not name one.
pub fn default_listen_addr() -> (r: String)
    ensures
        r@ == "0.0.0.0:8080"@,
{
    String::from_str("0.0.0.0:8080")
}

} // verus!
