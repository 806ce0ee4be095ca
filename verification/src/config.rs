//! Process-wide configuration.

use vstd::prelude::*;

verus! {

/// Which template the proxies are made from, and how many there should be.
#[derive(Debug)]
pub struct ProxyConfig {
    pub template: String,
    pub minimum_proxies: u8,
}

/// Which template the hubs are made from, and how many there should be.
#[derive(Debug)]
pub struct HubConfig {
    pub template: String,
    pub minimum_hubs: u8,
}

/// The configuration of the control plane.
#[derive(Debug)]
pub struct EpsilonConfig {
    pub proxy: ProxyConfig,
    pub hub: HubConfig,
}

impl Default for EpsilonConfig {
    /// One proxy from the template `proxy`, one hub from the template `hub`.
    fn default() -> (config: Self)
        ensures
            config.proxy.template@ == "proxy"@,
            config.proxy.minimum_proxies == 1,
            config.hub.template@ == "hub"@,
            config.hub.minimum_hubs == 1,
    {
        Self {
            proxy: ProxyConfig { template: String::from_str("proxy"), minimum_proxies: 1 },
            hub: HubConfig { template: String::from_str("hub"), minimum_hubs: 1 },
        }
    }
}

} // verus!
