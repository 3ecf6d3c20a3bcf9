use iroh_bridge::codec::encode_envelope;
use iroh_bridge::codec::Envelope;
use iroh_bridge::service_registry::capabilities_satisfied;
use iroh_bridge::service_registry::discovery_topic;
use iroh_bridge::service_registry::is_live;
use iroh_bridge::service_registry::ServiceAnnouncement;
use iroh_bridge::service_registry::ServiceEndpoint;
use iroh_bridge::service_registry::ServiceQuery;
use iroh_bridge::service_registry::ServiceRegistry;

fn strings(xs: &[&str]) -> Vec<String> {
    xs.iter().map(|s| s.to_string()).collect()
}

fn endpoint(addr: &str) -> ServiceEndpoint {
    ServiceEndpoint {
        node_addr: addr.to_string(),
        http_endpoint: Some("http://localhost:8080".to_string()),
        health_check_path: Some("/api/v1/health".to_string()),
    }
}

fn announcement(id: &str, node: &str, name: &str, caps: &[&str], ts: u64, ttl: u64) -> ServiceAnnouncement {
    ServiceAnnouncement {
        service_id: id.to_string(),
        node_id: node.to_string(),
        service_name: name.to_string(),
        capabilities: strings(caps),
        endpoint_info: endpoint(node),
        timestamp: ts,
        ttl,
    }
}

fn query(name: &str, req: &[&str], max: Option<usize>) -> ServiceQuery {
    ServiceQuery {
        service_name: name.to_string(),
        required_capabilities: strings(req),
        max_results: max,
    }
}

fn deliver(to: &mut ServiceRegistry, env: &Envelope, now: u64) -> Option<Envelope> {
    let wire = encode_envelope(env);
    to.handle_discovery_message(&wire, now)
}

#[test]
fn liveness_boundary() {
    assert!(is_live(1000, 300, 1299));
    assert!(is_live(1000, 300, 1300));
    assert!(!is_live(1000, 300, 1301));
    assert!(is_live(u64::MAX, 10, 5));
}

#[test]
fn capability_matching_ignores_order() {
    let offered = strings(&["b", "a", "c"]);
    assert!(capabilities_satisfied(&offered, &strings(&["a", "b"])));
    assert!(capabilities_satisfied(&offered, &strings(&["b", "a"])));
    assert!(capabilities_satisfied(&offered, &strings(&[])));
    assert!(!capabilities_satisfied(&strings(&["a"]), &strings(&["a", "b"])));
}

#[test]
fn match_rule_checks_name_ttl_and_capabilities() {
    let reg = ServiceRegistry::new("node-x".to_string());
    let a = announcement("id-1", "node-a", "echo", &["ping"], 1000, 300);
    assert!(reg.matches_query(&a, &query("echo", &["ping"], None), 1100));
    assert!(!reg.matches_query(&a, &query("other", &["ping"], None), 1100));
    assert!(!reg.matches_query(&a, &query("echo", &["pong"], None), 1100));
    assert!(!reg.matches_query(&a, &query("echo", &["ping"], None), 1301));
    assert!(ServiceRegistry::service_matches_query(&a, &query("echo", &["ping"], None)));
    assert!(!ServiceRegistry::service_matches_query(&a, &query("echo", &["pong"], None)));
}

#[test]
fn registration_appears_in_own_store_until_removed() {
    let mut reg = ServiceRegistry::new("node-a".to_string());
    let a = reg.register_service_with_id(
        "id-1".to_string(),
        "echo".to_string(),
        strings(&["ping"]),
        endpoint("node-a"),
        1000,
        300,
    );
    assert_eq!(a.node_id, "node-a");
    let mine = reg.get_my_services();
    assert_eq!(mine.len(), 1);
    assert_eq!(mine[0].service_id, "id-1");
    // own entries survive any number of cleanup ticks, however late
    reg.cleanup_expired(1_000_000);
    assert_eq!(reg.get_my_services().len(), 1);
    // explicit removal is what empties the store
    let removed = reg.remove_service("id-1");
    assert!(removed.is_some());
    assert_eq!(reg.get_my_services().len(), 0);
}

#[test]
fn generated_identifiers_have_uuid_shape() {
    let mut reg = ServiceRegistry::new("node-a".to_string());
    let a = reg.register_service(
        "echo".to_string(),
        strings(&["ping"]),
        endpoint("node-a"),
        1000,
        300,
    );
    assert_eq!(a.service_id.chars().count(), 36);
    assert_eq!(reg.get_my_services().len(), 1);
}

#[test]
fn announcement_propagates_to_remote_directory() {
    // one node registers; the other hears the announcement and can discover it
    let mut node_a = ServiceRegistry::new("node-a".to_string());
    let registered = node_a.register_service_with_id(
        "id-1".to_string(),
        "echo".to_string(),
        strings(&["ping"]),
        endpoint("node-a"),
        1000,
        300,
    );
    let mut node_b = ServiceRegistry::new("node-b".to_string());
    let reply = deliver(&mut node_b, &Envelope::Announcement(registered), 1000);
    assert!(reply.is_none());
    let found = node_b.discover_services(&query("echo", &["ping"], None), 1100);
    assert_eq!(found.len(), 1);
    assert_eq!(found[0].node_id, "node-a");
}

#[test]
fn own_announcements_are_ignored_on_receipt() {
    let mut reg = ServiceRegistry::new("node-a".to_string());
    let a = announcement("id-1", "node-a", "echo", &["ping"], 1000, 300);
    let reply = deliver(&mut reg, &Envelope::Announcement(a), 1000);
    assert!(reply.is_none());
    assert_eq!(reg.get_all_services().len(), 0);
}

#[test]
fn query_is_answered_from_own_store_and_response_fills_the_directory() {
    let mut node_a = ServiceRegistry::new("node-a".to_string());
    node_a.register_service_with_id(
        "id-1".to_string(),
        "echo".to_string(),
        strings(&["ping"]),
        endpoint("node-a"),
        1000,
        300,
    );
    let q = Envelope::Query { query_id: "q-1".to_string(), query: query("echo", &["ping"], None) };
    let reply = deliver(&mut node_a, &q, 1050).expect("a matching query must be answered");
    match &reply {
        Envelope::QueryResponse(resp) => {
            assert_eq!(resp.query_id, "q-1");
            assert_eq!(resp.timestamp, 1050);
            assert_eq!(resp.services.len(), 1);
            assert_eq!(resp.services[0].service_id, "id-1");
        },
        other => panic!("expected a query response, got {:?}", other),
    }
    // the response reaches the asking node and lands in its directory
    let mut node_b = ServiceRegistry::new("node-b".to_string());
    assert!(deliver(&mut node_b, &reply, 1060).is_none());
    assert!(node_b.get_service("id-1").is_some());
}

#[test]
fn unmatched_query_stays_silent() {
    let mut node_a = ServiceRegistry::new("node-a".to_string());
    node_a.register_service_with_id(
        "id-1".to_string(),
        "echo".to_string(),
        strings(&["ping"]),
        endpoint("node-a"),
        1000,
        300,
    );
    let q = Envelope::Query { query_id: "q-2".to_string(), query: query("mail", &[], None) };
    assert!(deliver(&mut node_a, &q, 1050).is_none());
}

#[test]
fn record_present_before_expiry_absent_after() {
    let mut reg = ServiceRegistry::new("node-b".to_string());
    let a = announcement("id-1", "node-a", "echo", &[], 1000, 300);
    deliver(&mut reg, &Envelope::Announcement(a), 1000);
    assert_eq!(reg.discover_services(&query("echo", &[], None), 1299).len(), 1);
    assert_eq!(reg.discover_services(&query("echo", &[], None), 1301).len(), 0);
    // still stored until the cleanup task's next tick evicts it
    assert!(reg.get_service("id-1").is_some());
    reg.cleanup_expired(1301);
    assert!(reg.get_service("id-1").is_none());
}

#[test]
fn cleanup_keeps_live_records() {
    let mut reg = ServiceRegistry::new("node-b".to_string());
    deliver(&mut reg, &Envelope::Announcement(announcement("id-1", "node-a", "echo", &[], 1000, 300)), 1000);
    deliver(&mut reg, &Envelope::Announcement(announcement("id-2", "node-c", "echo", &[], 1200, 300)), 1200);
    reg.cleanup_expired(1400);
    let all = reg.get_all_services();
    assert_eq!(all.len(), 1);
    assert_eq!(all[0].service_id, "id-2");
}

#[test]
fn disjoint_capability_sets_match_separately() {
    // two nodes offer the same name with disjoint capabilities
    let mut observer = ServiceRegistry::new("node-o".to_string());
    deliver(&mut observer, &Envelope::Announcement(announcement("id-1", "node-a", "echo", &["alpha"], 1000, 300)), 1000);
    deliver(&mut observer, &Envelope::Announcement(announcement("id-2", "node-b", "echo", &["beta"], 1000, 300)), 1000);
    assert_eq!(observer.discover_services(&query("echo", &["alpha", "beta"], None), 1100).len(), 0);
    let only_alpha = observer.discover_services(&query("echo", &["alpha"], None), 1100);
    assert_eq!(only_alpha.len(), 1);
    assert_eq!(only_alpha[0].node_id, "node-a");
    let only_beta = observer.discover_services(&query("echo", &["beta"], None), 1100);
    assert_eq!(only_beta.len(), 1);
    assert_eq!(only_beta[0].node_id, "node-b");
}

#[test]
fn newer_announcement_replaces_without_duplicating() {
    let mut reg = ServiceRegistry::new("node-b".to_string());
    deliver(&mut reg, &Envelope::Announcement(announcement("id-1", "node-a", "echo", &[], 1000, 300)), 1000);
    deliver(&mut reg, &Envelope::Announcement(announcement("id-1", "node-a", "echo", &[], 1200, 300)), 1200);
    let all = reg.get_all_services();
    assert_eq!(all.len(), 1);
    assert_eq!(all[0].timestamp, 1200);
}

#[test]
fn discover_caps_and_sorts_newest_first() {
    let mut reg = ServiceRegistry::new("node-o".to_string());
    deliver(&mut reg, &Envelope::Announcement(announcement("id-1", "node-a", "echo", &[], 10, 1000)), 10);
    deliver(&mut reg, &Envelope::Announcement(announcement("id-2", "node-b", "echo", &[], 30, 1000)), 30);
    deliver(&mut reg, &Envelope::Announcement(announcement("id-3", "node-c", "echo", &[], 20, 1000)), 20);
    let found = reg.discover_services(&query("echo", &[], Some(2)), 40);
    assert_eq!(found.len(), 2);
    assert_eq!(found[0].timestamp, 30);
    assert_eq!(found[1].timestamp, 20);
    let unlimited = reg.discover_services(&query("echo", &[], None), 40);
    assert_eq!(unlimited.len(), 3);
    assert!(unlimited[0].timestamp >= unlimited[1].timestamp);
    assert!(unlimited[1].timestamp >= unlimited[2].timestamp);
}

#[test]
fn heartbeat_refreshes_timestamps_without_touching_stores() {
    let mut reg = ServiceRegistry::new("node-a".to_string());
    reg.register_service_with_id(
        "id-1".to_string(),
        "echo".to_string(),
        strings(&["ping"]),
        endpoint("node-a"),
        1000,
        300,
    );
    let refreshed = reg.refresh_announcements(5000);
    assert_eq!(refreshed.len(), 1);
    assert_eq!(refreshed[0].service_id, "id-1");
    assert_eq!(refreshed[0].timestamp, 5000);
    assert_eq!(refreshed[0].ttl, 300);
    // the stored record keeps its original timestamp
    assert_eq!(reg.get_my_services()[0].timestamp, 1000);
}

#[test]
fn remove_returns_the_directory_copy() {
    let mut reg = ServiceRegistry::new("node-b".to_string());
    deliver(&mut reg, &Envelope::Announcement(announcement("id-9", "node-a", "echo", &[], 7, 300)), 7);
    let removed = reg.remove_service("id-9").expect("the record was present");
    assert_eq!(removed.timestamp, 7);
    assert!(reg.remove_service("id-9").is_none());
}

#[test]
fn topic_name_is_stable() {
    assert_eq!(discovery_topic(), "service-discovery");
}
