use vstd::prelude::*;

use crate::error::BridgeError;

verus! {

/// How the node reaches its peers.
#[derive(Debug)]
pub struct NetworkConfig {
    /// Enable local network discovery.
    pub enable_local_discovery: bool,
    /// Enable the public discovery service.
    pub enable_n0_discovery: bool,
    /// Custom relay URLs.
    pub custom_relays: Vec<String>,
    /// Prefer local connections when available.
    pub prefer_local: bool,
}

/// Relay behaviour.
#[derive(Debug)]
pub struct RelayConfig {
    /// Enable relay functionality.
    pub enable: bool,
    /// STUN port for the relay.
    pub stun_port: u16,
    /// Custom relay URL if running one's own relay.
    pub custom_url: Option<String>,
}

/// Gossip behaviour.
#[derive(Debug)]
pub struct GossipConfig {
    /// Enable the gossip protocol.
    pub enable: bool,
    /// Topics to subscribe to.
    pub topics: Vec<String>,
    /// Largest accepted gossip message, in bytes.
    pub max_message_size: usize,
}

/// The HTTP adapter's knobs.
#[derive(Debug)]
pub struct HttpBridgeConfig {
    /// Listen address of the HTTP server.
    pub listen_address: String,
    /// Whether cross-origin requests are allowed.
    pub enable_cors: bool,
    /// Request timeout in seconds.
    pub request_timeout: u64,
    /// Cap on concurrent requests.
    pub max_concurrent_requests: usize,
}

/// The backend the bridge fronts.
#[derive(Debug)]
pub struct BackendConfig {
    /// Backend service URL for local communication.
    pub service_url: Option<String>,
    /// Health check endpoint path.
    pub health_endpoint: String,
    /// Health check interval in seconds.
    pub health_check_interval: u64,
}

/// The whole configuration.
#[derive(Debug)]
pub struct Config {
    pub network: NetworkConfig,
    pub relay: RelayConfig,
    pub gossip: GossipConfig,
    pub http_bridge: HttpBridgeConfig,
    pub backend: BackendConfig,
}

impl Default for Config {
    /// The stock configuration: discovery on, relays on, gossip on the
    /// three well-known topics, HTTP on port 9090, backend on port 8080.
    fn default() -> (r: Self)
        ensures
            r.network.enable_local_discovery == true,
            r.network.enable_n0_discovery == true,
            r.network.custom_relays@.len() == 0,
            r.network.prefer_local == true,
            r.relay.enable == true,
            r.relay.stun_port == 3478,
            r.relay.custom_url is None,
            r.gossip.enable == true,
            r.gossip.topics.deep_view() =~= seq![
                "service-discovery"@,
                "transaction-updates"@,
                "order-book-sync"@,
            ],
            r.gossip.max_message_size == 1048576,
            r.http_bridge.listen_address@ == "0.0.0.0:9090"@,
            r.http_bridge.enable_cors == true,
            r.http_bridge.request_timeout == 30,
            r.http_bridge.max_concurrent_requests == 100,
            r.backend.service_url matches Some(u) && u@ == "http://localhost:8080"@,
            r.backend.health_endpoint@ == "/api/v1/health"@,
            r.backend.health_check_interval == 30,
    {
        let mut topics: Vec<String> = Vec::new();
        topics.push("service-discovery".to_owned());
        topics.push("transaction-updates".to_owned());
        topics.push("order-book-sync".to_owned());
        proof {
            assert(topics.deep_view() =~= seq![
                "service-discovery"@,
                "transaction-updates"@,
                "order-book-sync"@,
            ]);
        }
        Config {
            network: NetworkConfig {
                enable_local_discovery: true,
                enable_n0_discovery: true,
                custom_relays: Vec::new(),
                prefer_local: true,
            },
            relay: RelayConfig { enable: true, stun_port: 3478, custom_url: None },
            gossip: GossipConfig { enable: true, topics, max_message_size: 1048576 },
            http_bridge: HttpBridgeConfig {
                listen_address: "0.0.0.0:9090".to_owned(),
                enable_cors: true,
                request_timeout: 30,
                max_concurrent_requests: 100,
            },
            backend: BackendConfig {
                service_url: Some("http://localhost:8080".to_owned()),
                health_endpoint: "/api/v1/health".to_owned(),
                health_check_interval: 30,
            },
        }
    }
}

impl Config {
    /// A configuration is usable iff none of the three intervals and
    /// limits is zero; the error names the first one that is.
    pub fn validate(&self) -> (r: Result<(), BridgeError>)
        ensures
            r is Ok <==> self.http_bridge.request_timeout != 0
                && self.http_bridge.max_concurrent_requests != 0
                && self.backend.health_check_interval != 0,
            self.http_bridge.request_timeout == 0 ==> (r matches Err(
                BridgeError::ConfigError(m),
            ) && m@ == "HTTP bridge request timeout must be greater than 0"@),
            self.http_bridge.request_timeout != 0 && self.http_bridge.max_concurrent_requests == 0
                ==> (r matches Err(BridgeError::ConfigError(m)) && m@
                == "Max concurrent requests must be greater than 0"@),
            self.http_bridge.request_timeout != 0 && self.http_bridge.max_concurrent_requests != 0
                && self.backend.health_check_interval == 0 ==> (r matches Err(
                BridgeError::ConfigError(m),
            ) && m@ == "Backend health check interval must be greater than 0"@),
    {
        if self.http_bridge.request_timeout == 0 {
            return Err(
                BridgeError::ConfigError(
                    "HTTP bridge request timeout must be greater than 0".to_owned(),
                ),
            );
        }
        if self.http_bridge.max_concurrent_requests == 0 {
            return Err(
                BridgeError::ConfigError("Max concurrent requests must be greater than 0".to_owned()),
            );
        }
        if self.backend.health_check_interval == 0 {
            return Err(
                BridgeError::ConfigError(
                    "Backend health check interval must be greater than 0".to_owned(),
                ),
            );
        }
        Ok(())
    }
}

} // verus!
