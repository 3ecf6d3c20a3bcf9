use iroh_bridge::config::Config;
use iroh_bridge::error::BridgeError;
use iroh_bridge::http_bridge::ApiResponse;
use iroh_bridge::http_bridge::ServiceDiscoveryRequest;

#[test]
fn default_config_is_valid() {
    let config = Config::default();
    assert!(config.validate().is_ok());
    assert_eq!(config.http_bridge.listen_address, "0.0.0.0:9090");
    assert_eq!(config.http_bridge.request_timeout, 30);
    assert_eq!(config.gossip.topics.len(), 3);
    assert_eq!(config.gossip.topics[0], "service-discovery");
    assert_eq!(config.relay.stun_port, 3478);
    assert_eq!(config.backend.service_url.as_deref(), Some("http://localhost:8080"));
}

#[test]
fn zero_request_timeout_is_rejected() {
    let mut config = Config::default();
    config.http_bridge.request_timeout = 0;
    match config.validate() {
        Err(BridgeError::ConfigError(m)) => {
            assert_eq!(m, "HTTP bridge request timeout must be greater than 0");
        },
        other => panic!("expected a configuration error, got {:?}", other),
    }
}

#[test]
fn zero_concurrency_cap_is_rejected() {
    let mut config = Config::default();
    config.http_bridge.max_concurrent_requests = 0;
    match config.validate() {
        Err(BridgeError::ConfigError(m)) => {
            assert_eq!(m, "Max concurrent requests must be greater than 0");
        },
        other => panic!("expected a configuration error, got {:?}", other),
    }
}

#[test]
fn zero_health_interval_is_rejected() {
    let mut config = Config::default();
    config.backend.health_check_interval = 0;
    match config.validate() {
        Err(BridgeError::ConfigError(m)) => {
            assert_eq!(m, "Backend health check interval must be greater than 0");
        },
        other => panic!("expected a configuration error, got {:?}", other),
    }
}

#[test]
fn api_response_success_carries_the_payload() {
    let r: ApiResponse<u64> = ApiResponse::success(7);
    assert!(r.success);
    assert_eq!(r.data, Some(7));
    assert!(r.error.is_none());
}

#[test]
fn api_response_error_carries_the_message() {
    let r: ApiResponse<u64> = ApiResponse::error("boom".to_string());
    assert!(!r.success);
    assert!(r.data.is_none());
    assert_eq!(r.error.as_deref(), Some("boom"));
}

#[test]
fn discovery_request_defaults_to_no_required_capabilities() {
    let req = ServiceDiscoveryRequest {
        service_name: "echo".to_string(),
        capabilities: None,
        max_results: Some(5),
    };
    let q = req.to_query();
    assert_eq!(q.service_name, "echo");
    assert!(q.required_capabilities.is_empty());
    assert_eq!(q.max_results, Some(5));
}
