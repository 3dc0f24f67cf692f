//! Bridge configuration.
use vstd::prelude::*;
use vstd::string::*;

verus! {

pub struct KnxConfig {
    /// Base URL of the vendor web UI.
    pub base_url: String,
    pub pages: Vec<String>,
}

pub struct HomeKitConfig {
    pub name: String,
    pub pin: String,
    pub port: u16,
}

pub struct Config {
    pub knx: KnxConfig,
    pub homekit: HomeKitConfig,
}

/// Port of the HTTP API unless configured otherwise.
pub const DEFAULT_API_PORT: u16 = 8080;

impl Config {
    /// The configuration for a backend at `base_url`, with the default
    /// bridge identity and API port.
    pub fn with_base_url(base_url: String) -> (r: Config)
        ensures
            r.knx.base_url == base_url,
            r.knx.pages@.len() == 0,
            r.homekit.name@ == "Rust KNX Bridge"@,
            r.homekit.pin@ == "031-45-154"@,
            r.homekit.port == DEFAULT_API_PORT,
    {
        Config {
            knx: KnxConfig { base_url, pages: Vec::new() },
            homekit: HomeKitConfig {
                name: String::from_str("Rust KNX Bridge"),
                pin: String::from_str("031-45-154"),
                port: DEFAULT_API_PORT,
            },
        }
    }
}

} // verus!
