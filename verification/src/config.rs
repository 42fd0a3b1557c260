//! The proxy's configuration: an immutable snapshot of the bind address, the
//! upstream addresses, the health-check interval and path, and the rate
//! threshold. Flag parsing happens outside the library; this module holds
//! the validation rule: at least one upstream must be configured.

use vstd::prelude::*;

verus! {

/// Why a configuration was rejected.
#[derive(Clone, Copy, Debug, PartialEq, Eq, Structural)]
pub enum ConfigError {
    /// No upstream address was given; the proxy has nowhere to forward.
    NoUpstreams,
}

/// An immutable snapshot of the proxy's settings. A rate threshold of zero
/// disables rate limiting.
pub struct ProxyConfig {
    pub bind: String,
    pub upstreams: Vec<String>,
    pub health_check_interval: u64,
    pub health_check_path: String,
    pub max_requests_per_minute: usize,
}

impl ProxyConfig {
    /// A configuration is well formed when it names at least one upstream.
    pub open spec fn wf(&self) -> bool {
        self.upstreams@.len() >= 1
    }

    /// Builds the configuration snapshot, rejecting one with no upstream.
    pub fn new(
        bind: String,
        upstreams: Vec<String>,
        health_check_interval: u64,
        health_check_path: String,
        max_requests_per_minute: usize,
    ) -> (r: Result<ProxyConfig, ConfigError>)
        ensures
            upstreams@.len() >= 1 <==> r is Ok,
            r is Err ==> r == Err::<ProxyConfig, ConfigError>(ConfigError::NoUpstreams),
            r is Ok ==> {
                let c = r->Ok_0;
                &&& c.wf()
                &&& c.bind@ == bind@
                &&& c.upstreams@ == upstreams@
                &&& c.health_check_interval == health_check_interval
                &&& c.health_check_path@ == health_check_path@
                &&& c.max_requests_per_minute == max_requests_per_minute
            },
    {
        if upstreams.len() < 1 {
            return Err(ConfigError::NoUpstreams);
        }
        Ok(
            ProxyConfig {
                bind,
                upstreams,
                health_check_interval,
                health_check_path,
                max_requests_per_minute,
            },
        )
    }
}

} // verus!
