use iroh_bridge::codec::decode_envelope;
use iroh_bridge::codec::encode_envelope;
use iroh_bridge::codec::Envelope;
use iroh_bridge::codec::JsonValue;
use iroh_bridge::service_registry::ServiceAnnouncement;
use iroh_bridge::service_registry::ServiceEndpoint;
use iroh_bridge::service_registry::ServiceQuery;
use iroh_bridge::service_registry::ServiceQueryResponse;

fn strings(xs: &[&str]) -> Vec<String> {
    xs.iter().map(|s| s.to_string()).collect()
}

fn sample_announcement() -> ServiceAnnouncement {
    ServiceAnnouncement {
        service_id: "id-1".to_string(),
        node_id: "node-a".to_string(),
        service_name: "echo".to_string(),
        capabilities: strings(&["ping", "pong"]),
        endpoint_info: ServiceEndpoint {
            node_addr: "addr-a".to_string(),
            http_endpoint: Some("http://localhost:8080".to_string()),
            health_check_path: None,
        },
        timestamp: 1000,
        ttl: 300,
    }
}

#[test]
fn round_trip_announcement() {
    let env = Envelope::Announcement(sample_announcement());
    let encoded = encode_envelope(&env);
    let decoded = decode_envelope(&encoded);
    assert_eq!(decoded, Some(env));
}

#[test]
fn round_trip_query() {
    let env = Envelope::Query {
        query_id: "q-7".to_string(),
        query: ServiceQuery {
            service_name: "echo".to_string(),
            required_capabilities: strings(&["ping"]),
            max_results: Some(3),
        },
    };
    let encoded = encode_envelope(&env);
    assert_eq!(decode_envelope(&encoded), Some(env));
}

#[test]
fn round_trip_query_without_cap() {
    let env = Envelope::Query {
        query_id: "q-8".to_string(),
        query: ServiceQuery {
            service_name: "echo".to_string(),
            required_capabilities: Vec::new(),
            max_results: None,
        },
    };
    let encoded = encode_envelope(&env);
    assert_eq!(decode_envelope(&encoded), Some(env));
}

#[test]
fn round_trip_query_response() {
    let env = Envelope::QueryResponse(ServiceQueryResponse {
        services: vec![sample_announcement()],
        query_id: "q-7".to_string(),
        timestamp: 1234,
    });
    let encoded = encode_envelope(&env);
    assert_eq!(decode_envelope(&encoded), Some(env));
}

#[test]
fn unknown_tag_is_rejected() {
    let v = JsonValue::Obj(vec![
        ("type".to_string(), JsonValue::Str("service_gossip".to_string())),
        ("data".to_string(), JsonValue::Null),
    ]);
    assert_eq!(decode_envelope(&v), None);
}

#[test]
fn missing_field_is_rejected() {
    let v = JsonValue::Obj(vec![(
        "type".to_string(),
        JsonValue::Str("service_announcement".to_string()),
    )]);
    assert_eq!(decode_envelope(&v), None);
}

#[test]
fn wrong_payload_kind_is_rejected() {
    let v = JsonValue::Obj(vec![
        ("type".to_string(), JsonValue::Str("service_announcement".to_string())),
        ("data".to_string(), JsonValue::UInt(7)),
    ]);
    assert_eq!(decode_envelope(&v), None);
}

#[test]
fn non_object_is_rejected() {
    assert_eq!(decode_envelope(&JsonValue::Null), None);
    assert_eq!(decode_envelope(&JsonValue::Str("service_query".to_string())), None);
}

#[test]
fn announcement_tag_is_on_the_wire() {
    let env = Envelope::Announcement(sample_announcement());
    match encode_envelope(&env) {
        JsonValue::Obj(fields) => {
            assert_eq!(fields[0].0, "type");
            assert_eq!(fields[0].1, JsonValue::Str("service_announcement".to_string()));
        },
        other => panic!("expected an object, got {:?}", other),
    }
}
