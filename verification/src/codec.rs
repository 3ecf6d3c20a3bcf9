use vstd::prelude::*;

use crate::service_registry::AnnouncementModel;
use crate::service_registry::EndpointModel;
use crate::service_registry::QueryModel;
use crate::service_registry::ResponseModel;
use crate::service_registry::ServiceAnnouncement;
use crate::service_registry::ServiceEndpoint;
use crate::service_registry::ServiceQuery;
use crate::service_registry::ServiceQueryResponse;

verus! {

/// The subset of JSON the discovery protocol exchanges: strings, unsigned
/// integers, null (for absent optional fields), arrays and objects.
#[derive(Debug, PartialEq, Eq)]
pub enum JsonValue {
    Null,
    UInt(u64),
    Str(String),
    Arr(Vec<JsonValue>),
    Obj(Vec<(String, JsonValue)>),
}

/// The three wire message shapes, as a closed sum; any other `type` tag is
/// rejected by the decoder and ignored by the listener.
#[derive(Debug, PartialEq, Eq)]
pub enum Envelope {
    Announcement(ServiceAnnouncement),
    Query { query_id: String, query: ServiceQuery },
    QueryResponse(ServiceQueryResponse),
}

/// Mathematical image of an `Envelope`.
#[verifier::ext_equal]
pub enum EnvelopeModel {
    Announcement(AnnouncementModel),
    Query { query_id: Seq<char>, query: QueryModel },
    QueryResponse(ResponseModel),
}

impl View for Envelope {
    type V = EnvelopeModel;

    open spec fn view(&self) -> EnvelopeModel {
        match self {
            Envelope::Announcement(a) => EnvelopeModel::Announcement(a@),
            Envelope::Query { query_id, query } => EnvelopeModel::Query {
                query_id: query_id@,
                query: query@,
            },
            Envelope::QueryResponse(r) => EnvelopeModel::QueryResponse(r@),
        }
    }
}

impl DeepView for Envelope {
    type V = EnvelopeModel;

    open spec fn deep_view(&self) -> EnvelopeModel {
        self.view()
    }
}

/// First binding of `key` in an object's field list.
pub open spec fn spec_obj_get(fields: Seq<(String, JsonValue)>, key: Seq<char>) -> Option<
    JsonValue,
>
    decreases fields.len(),
{
    if fields.len() == 0 {
        None
    } else if fields[0].0@ == key {
        Some(fields[0].1)
    } else {
        spec_obj_get(fields.drop_first(), key)
    }
}

/// Field lookup on a value that must be an object.
pub open spec fn spec_field(v: JsonValue, key: Seq<char>) -> Option<JsonValue> {
    match v {
        JsonValue::Obj(fields) => spec_obj_get(fields@, key),
        _ => None,
    }
}

/// A field that must be a string.
pub open spec fn spec_str_field(v: JsonValue, key: Seq<char>) -> Option<Seq<char>> {
    match spec_field(v, key) {
        Some(JsonValue::Str(s)) => Some(s@),
        _ => None,
    }
}

/// A field that must be an unsigned integer.
pub open spec fn spec_u64_field(v: JsonValue, key: Seq<char>) -> Option<u64> {
    match spec_field(v, key) {
        Some(JsonValue::UInt(n)) => Some(n),
        _ => None,
    }
}

/// A field that must be a string or null; null encodes an absent value.
pub open spec fn spec_opt_str_field(v: JsonValue, key: Seq<char>) -> Option<Option<Seq<char>>> {
    match spec_field(v, key) {
        Some(JsonValue::Str(s)) => Some(Some(s@)),
        Some(JsonValue::Null) => Some(None),
        _ => None,
    }
}

/// A field that must be an unsigned integer fitting `usize`, or null.
pub open spec fn spec_opt_usize_field(v: JsonValue, key: Seq<char>) -> Option<Option<usize>> {
    match spec_field(v, key) {
        Some(JsonValue::UInt(n)) => if n <= usize::MAX as u64 {
            Some(Some(n as usize))
        } else {
            None
        },
        Some(JsonValue::Null) => Some(None),
        _ => None,
    }
}

/// An array whose items must all be strings, read as their texts.
pub open spec fn spec_strings(items: Seq<JsonValue>) -> Option<Seq<Seq<char>>> {
    if forall|i: int| 0 <= i < items.len() ==> items[i] is Str {
        Some(
            items.map_values(
                |x: JsonValue|
                    match x {
                        JsonValue::Str(s) => s@,
                        _ => Seq::<char>::empty(),
                    },
            ),
        )
    } else {
        None
    }
}

/// A field that must be an array of strings.
pub open spec fn spec_caps_field(v: JsonValue, key: Seq<char>) -> Option<Seq<Seq<char>>> {
    match spec_field(v, key) {
        Some(JsonValue::Arr(items)) => spec_strings(items@),
        _ => None,
    }
}

/// The endpoint object: a `node_addr` string plus two optional strings.
pub open spec fn spec_endpoint(v: JsonValue) -> Option<EndpointModel> {
    match (
        spec_str_field(v, "node_addr"@),
        spec_opt_str_field(v, "http_endpoint"@),
        spec_opt_str_field(v, "health_check_path"@),
    ) {
        (Some(na), Some(he), Some(hc)) => Some(
            EndpointModel { node_addr: na, http_endpoint: he, health_check_path: hc },
        ),
        _ => None,
    }
}

/// The announcement object: identifiers and name, a capability array, a
/// nested endpoint object, and the two time fields.
pub open spec fn spec_announcement(v: JsonValue) -> Option<AnnouncementModel> {
    match (
        spec_str_field(v, "service_id"@),
        spec_str_field(v, "node_id"@),
        spec_str_field(v, "service_name"@),
        spec_caps_field(v, "capabilities"@),
        spec_field(v, "endpoint_info"@),
        spec_u64_field(v, "timestamp"@),
        spec_u64_field(v, "ttl"@),
    ) {
        (Some(sid), Some(nid), Some(name), Some(caps), Some(ep), Some(ts), Some(ttl)) => match
            spec_endpoint(ep) {
            Some(em) => Some(
                AnnouncementModel {
                    service_id: sid,
                    node_id: nid,
                    service_name: name,
                    capabilities: caps,
                    endpoint_info: em,
                    timestamp: ts,
                    ttl: ttl,
                },
            ),
            None => None,
        },
        _ => None,
    }
}

/// An array whose items must all decode as announcements.
pub open spec fn spec_announcements(items: Seq<JsonValue>) -> Option<Seq<AnnouncementModel>> {
    if forall|i: int| 0 <= i < items.len() ==> spec_announcement(#[trigger] items[i]) is Some {
        Some(Seq::new(items.len(), |i: int| spec_announcement(items[i]).unwrap()))
    } else {
        None
    }
}

/// The query object: a name, a capability array, and an optional cap.
pub open spec fn spec_query(v: JsonValue) -> Option<QueryModel> {
    match (
        spec_str_field(v, "service_name"@),
        spec_caps_field(v, "required_capabilities"@),
        spec_opt_usize_field(v, "max_results"@),
    ) {
        (Some(name), Some(req), Some(max)) => Some(
            QueryModel { service_name: name, required_capabilities: req, max_results: max },
        ),
        _ => None,
    }
}

/// The query-response object: an announcement array, the query it
/// answers, and its own timestamp.
pub open spec fn spec_response(v: JsonValue) -> Option<ResponseModel> {
    match (spec_field(v, "services"@), spec_str_field(v, "query_id"@), spec_u64_field(v, "timestamp"@)) {
        (Some(JsonValue::Arr(items)), Some(qid), Some(ts)) => match spec_announcements(items@) {
            Some(anns) => Some(ResponseModel { services: anns, query_id: qid, timestamp: ts }),
            None => None,
        },
        _ => None,
    }
}

/// The tagged envelope: `type` selects one of the three shapes, whose
/// payload sits under `data` (plus `query_id` beside a query). Any other
/// tag, and any payload of the wrong shape, decodes to nothing.
pub open spec fn spec_envelope(v: JsonValue) -> Option<EnvelopeModel> {
    match spec_str_field(v, "type"@) {
        Some(t) => if t == "service_announcement"@ {
            match spec_field(v, "data"@) {
                Some(d) => match spec_announcement(d) {
                    Some(a) => Some(EnvelopeModel::Announcement(a)),
                    None => None,
                },
                None => None,
            }
        } else if t == "service_query"@ {
            match (spec_str_field(v, "query_id"@), spec_field(v, "data"@)) {
                (Some(qid), Some(d)) => match spec_query(d) {
                    Some(q) => Some(EnvelopeModel::Query { query_id: qid, query: q }),
                    None => None,
                },
                _ => None,
            }
        } else if t == "service_query_response"@ {
            match spec_field(v, "data"@) {
                Some(d) => match spec_response(d) {
                    Some(r) => Some(EnvelopeModel::QueryResponse(r)),
                    None => None,
                },
                None => None,
            }
        } else {
            None
        },
        None => None,
    }
}

/// The text of a string item; arbitrary on items of another kind.
pub open spec fn spec_str_of(x: JsonValue) -> Seq<char> {
    match x {
        JsonValue::Str(s) => s@,
        _ => Seq::<char>::empty(),
    }
}

proof fn lemma_obj_get_after(fields: Seq<(String, JsonValue)>, key: Seq<char>, i: int)
    requires
        0 <= i <= fields.len(),
        forall|j: int| 0 <= j < i ==> fields[j].0@ != key,
    ensures
        spec_obj_get(fields, key) == spec_obj_get(fields.skip(i), key),
    decreases i,
{
    if i > 0 {
        assert(fields.drop_first() =~= fields.skip(1));
        assert(forall|j: int| 0 <= j < i - 1 ==> fields.skip(1)[j].0@ != key);
        lemma_obj_get_after(fields.skip(1), key, i - 1);
        assert(fields.skip(1).skip(i - 1) =~= fields.skip(i));
    } else {
        assert(fields.skip(0) =~= fields);
    }
}

fn obj_get<'a>(fields: &'a Vec<(String, JsonValue)>, key: &str) -> (r: Option<&'a JsonValue>)
    ensures
        match r {
            Some(x) => spec_obj_get(fields@, key@) == Some(*x),
            None => spec_obj_get(fields@, key@) is None,
        },
{
    let k: String = key.to_owned();
    let mut i: usize = 0;
    while i < fields.len()
        invariant
            0 <= i <= fields.len(),
            k@ == key@,
            forall|j: int| 0 <= j < i ==> fields@[j].0@ != key@,
        decreases fields.len() - i,
    {
        if fields[i].0.eq(&k) {
            proof {
                lemma_obj_get_after(fields@, key@, i as int);
                assert(fields@.skip(i as int)[0] == fields@[i as int]);
            }
            return Some(&fields[i].1);
        }
        i += 1;
    }
    proof {
        lemma_obj_get_after(fields@, key@, fields@.len() as int);
        assert(fields@.skip(fields@.len() as int) =~= Seq::<(String, JsonValue)>::empty());
    }
    None
}

fn get_field<'a>(v: &'a JsonValue, key: &str) -> (r: Option<&'a JsonValue>)
    ensures
        match r {
            Some(x) => spec_field(*v, key@) == Some(*x),
            None => spec_field(*v, key@) is None,
        },
{
    match v {
        JsonValue::Obj(fields) => obj_get(fields, key),
        _ => None,
    }
}

fn get_str_field(v: &JsonValue, key: &str) -> (r: Option<String>)
    ensures
        match r {
            Some(s) => spec_str_field(*v, key@) == Some(s@),
            None => spec_str_field(*v, key@) is None,
        },
{
    match get_field(v, key) {
        Some(JsonValue::Str(s)) => Some(s.clone()),
        _ => None,
    }
}

fn get_u64_field(v: &JsonValue, key: &str) -> (r: Option<u64>)
    ensures
        r == spec_u64_field(*v, key@),
{
    match get_field(v, key) {
        Some(JsonValue::UInt(n)) => Some(*n),
        _ => None,
    }
}

fn get_opt_str_field(v: &JsonValue, key: &str) -> (r: Option<Option<String>>)
    ensures
        match r {
            Some(os) => spec_opt_str_field(*v, key@) == Some(os.deep_view()),
            None => spec_opt_str_field(*v, key@) is None,
        },
{
    match get_field(v, key) {
        Some(JsonValue::Str(s)) => Some(Some(s.clone())),
        Some(JsonValue::Null) => Some(None),
        _ => None,
    }
}

fn get_opt_usize_field(v: &JsonValue, key: &str) -> (r: Option<Option<usize>>)
    ensures
        r == spec_opt_usize_field(*v, key@),
{
    match get_field(v, key) {
        Some(JsonValue::UInt(n)) => if *n <= usize::MAX as u64 {
            Some(Some(*n as usize))
        } else {
            None
        },
        Some(JsonValue::Null) => Some(None),
        _ => None,
    }
}

fn decode_strings(items: &Vec<JsonValue>) -> (r: Option<Vec<String>>)
    ensures
        match r {
            Some(ss) => spec_strings(items@) == Some(ss.deep_view()),
            None => spec_strings(items@) is None,
        },
{
    let mut out: Vec<String> = Vec::new();
    let mut i: usize = 0;
    while i < items.len()
        invariant
            0 <= i <= items.len(),
            out@.len() == i,
            forall|j: int| 0 <= j < i ==> items@[j] is Str,
            forall|j: int| 0 <= j < i ==> out@[j]@ == spec_str_of(#[trigger] items@[j]),
        decreases items.len() - i,
    {
        match &items[i] {
            JsonValue::Str(s) => {
                out.push(s.clone());
                proof {
                    assert(out@[i as int]@ == spec_str_of(items@[i as int]));
                }
            },
            _ => {
                proof {
                    assert(!(items@[i as int] is Str));
                }
                return None;
            },
        }
        i += 1;
    }
    proof {
        let m = spec_strings(items@).unwrap();
        assert(m =~= out.deep_view());
    }
    Some(out)
}



fn decode_endpoint(v: &JsonValue) -> (r: Option<ServiceEndpoint>)
    ensures
        match r {
            Some(e) => spec_endpoint(*v) == Some(e@),
            None => spec_endpoint(*v) is None,
        },
{
    let node_addr = match get_str_field(v, "node_addr") {
        Some(s) => s,
        None => {
            return None;
        },
    };
    let http_endpoint = match get_opt_str_field(v, "http_endpoint") {
        Some(x) => x,
        None => {
            return None;
        },
    };
    let health_check_path = match get_opt_str_field(v, "health_check_path") {
        Some(x) => x,
        None => {
            return None;
        },
    };
    Some(ServiceEndpoint { node_addr, http_endpoint, health_check_path })
}

fn decode_announcement(v: &JsonValue) -> (r: Option<ServiceAnnouncement>)
    ensures
        match r {
            Some(a) => spec_announcement(*v) == Some(a@),
            None => spec_announcement(*v) is None,
        },
{
    let service_id = match get_str_field(v, "service_id") {
        Some(s) => s,
        None => {
            return None;
        },
    };
    let node_id = match get_str_field(v, "node_id") {
        Some(s) => s,
        None => {
            return None;
        },
    };
    let service_name = match get_str_field(v, "service_name") {
        Some(s) => s,
        None => {
            return None;
        },
    };
    let capabilities = match get_field(v, "capabilities") {
        Some(JsonValue::Arr(items)) => match decode_strings(items) {
            Some(c) => c,
            None => {
                return None;
            },
        },
        _ => {
            return None;
        },
    };
    let endpoint_info = match get_field(v, "endpoint_info") {
        Some(ep) => match decode_endpoint(ep) {
            Some(e) => e,
            None => {
                return None;
            },
        },
        None => {
            return None;
        },
    };
    let timestamp = match get_u64_field(v, "timestamp") {
        Some(n) => n,
        None => {
            return None;
        },
    };
    let ttl = match get_u64_field(v, "ttl") {
        Some(n) => n,
        None => {
            return None;
        },
    };
    Some(
        ServiceAnnouncement {
            service_id,
            node_id,
            service_name,
            capabilities,
            endpoint_info,
            timestamp,
            ttl,
        },
    )
}

fn decode_announcements(items: &Vec<JsonValue>) -> (r: Option<Vec<ServiceAnnouncement>>)
    ensures
        match r {
            Some(anns) => spec_announcements(items@) == Some(anns.deep_view()),
            None => spec_announcements(items@) is None,
        },
{
    let mut out: Vec<ServiceAnnouncement> = Vec::new();
    let mut i: usize = 0;
    while i < items.len()
        invariant
            0 <= i <= items.len(),
            out@.len() == i,
            forall|j: int| 0 <= j < i ==> spec_announcement(#[trigger] items@[j]) is Some,
            forall|j: int|
                0 <= j < i ==> out@[j]@ == spec_announcement(#[trigger] items@[j]).unwrap(),
        decreases items.len() - i,
    {
        match decode_announcement(&items[i]) {
            Some(a) => {
                out.push(a);
                proof {
                    assert(out@[i as int]@ == spec_announcement(items@[i as int]).unwrap());
                }
            },
            None => {
                proof {
                    assert(spec_announcement(items@[i as int]) is None);
                }
                return None;
            },
        }
        i += 1;
    }
    proof {
        let m = spec_announcements(items@).unwrap();
        assert(m =~= out.deep_view());
    }
    Some(out)
}

fn decode_query(v: &JsonValue) -> (r: Option<ServiceQuery>)
    ensures
        match r {
            Some(q) => spec_query(*v) == Some(q@),
            None => spec_query(*v) is None,
        },
{
    let service_name = match get_str_field(v, "service_name") {
        Some(s) => s,
        None => {
            return None;
        },
    };
    let required_capabilities = match get_field(v, "required_capabilities") {
        Some(JsonValue::Arr(items)) => match decode_strings(items) {
            Some(c) => c,
            None => {
                return None;
            },
        },
        _ => {
            return None;
        },
    };
    let max_results = match get_opt_usize_field(v, "max_results") {
        Some(x) => x,
        None => {
            return None;
        },
    };
    Some(ServiceQuery { service_name, required_capabilities, max_results })
}

fn decode_response(v: &JsonValue) -> (r: Option<ServiceQueryResponse>)
    ensures
        match r {
            Some(resp) => spec_response(*v) == Some(resp@),
            None => spec_response(*v) is None,
        },
{
    let services = match get_field(v, "services") {
        Some(JsonValue::Arr(items)) => match decode_announcements(items) {
            Some(a) => a,
            None => {
                return None;
            },
        },
        _ => {
            return None;
        },
    };
    let query_id = match get_str_field(v, "query_id") {
        Some(s) => s,
        None => {
            return None;
        },
    };
    let timestamp = match get_u64_field(v, "timestamp") {
        Some(n) => n,
        None => {
            return None;
        },
    };
    Some(ServiceQueryResponse { services, query_id, timestamp })
}

proof fn lemma_obj_get_at(fields: Seq<(String, JsonValue)>, key: Seq<char>, i: int)
    requires
        0 <= i < fields.len(),
        forall|j: int| 0 <= j < i ==> fields[j].0@ != key,
        fields[i].0@ == key,
    ensures
        spec_obj_get(fields, key) == Some(fields[i].1),
{
    lemma_obj_get_after(fields, key, i);
    assert(fields.skip(i)[0] == fields[i]);
}

fn opt_str_json(o: &Option<String>) -> (r: JsonValue)
    ensures
        match *o {
            Some(s) => r matches JsonValue::Str(t) && t@ == s@,
            None => r == JsonValue::Null,
        },
{
    match o {
        Some(s) => JsonValue::Str(s.clone()),
        None => JsonValue::Null,
    }
}

fn encode_strings(v: &Vec<String>) -> (r: Vec<JsonValue>)
    ensures
        spec_strings(r@) == Some(v.deep_view()),
{
    let mut out: Vec<JsonValue> = Vec::new();
    let mut i: usize = 0;
    while i < v.len()
        invariant
            0 <= i <= v.len(),
            out@.len() == i,
            forall|j: int| 0 <= j < i ==> #[trigger] out@[j] is Str,
            forall|j: int| 0 <= j < i ==> spec_str_of(#[trigger] out@[j]) == v@[j]@,
        decreases v.len() - i,
    {
        out.push(JsonValue::Str(v[i].clone()));
        proof {
            assert(spec_str_of(out@[i as int]) == v@[i as int]@);
        }
        i += 1;
    }
    proof {
        assert(spec_strings(out@).unwrap() =~= v.deep_view());
    }
    out
}

/// Render an endpoint as its wire object.
pub fn encode_endpoint(e: &ServiceEndpoint) -> (r: JsonValue)
    ensures
        spec_endpoint(r) == Some(e@),
{
    let mut fields: Vec<(String, JsonValue)> = Vec::new();
    fields.push(("node_addr".to_owned(), JsonValue::Str(e.node_addr.clone())));
    fields.push(("http_endpoint".to_owned(), opt_str_json(&e.http_endpoint)));
    fields.push(("health_check_path".to_owned(), opt_str_json(&e.health_check_path)));
    let ghost f = fields@;
    let r = JsonValue::Obj(fields);
    proof {
        reveal_strlit("node_addr");
        reveal_strlit("http_endpoint");
        reveal_strlit("health_check_path");
        assert("node_addr"@.len() == 9);
        assert("http_endpoint"@.len() == 13);
        assert("health_check_path"@.len() == 17);
        assert("node_addr"@ != "http_endpoint"@);
        assert("node_addr"@ != "health_check_path"@);
        assert("http_endpoint"@ != "health_check_path"@);
        lemma_obj_get_at(f, "node_addr"@, 0);
        lemma_obj_get_at(f, "http_endpoint"@, 1);
        lemma_obj_get_at(f, "health_check_path"@, 2);
        assert(spec_endpoint(r).unwrap() =~= e@);
    }
    r
}

/// Render an announcement as its wire object.
pub fn encode_announcement(a: &ServiceAnnouncement) -> (r: JsonValue)
    ensures
        spec_announcement(r) == Some(a@),
{
    let mut fields: Vec<(String, JsonValue)> = Vec::new();
    fields.push(("service_id".to_owned(), JsonValue::Str(a.service_id.clone())));
    fields.push(("node_id".to_owned(), JsonValue::Str(a.node_id.clone())));
    fields.push(("service_name".to_owned(), JsonValue::Str(a.service_name.clone())));
    fields.push(("capabilities".to_owned(), JsonValue::Arr(encode_strings(&a.capabilities))));
    fields.push(("endpoint_info".to_owned(), encode_endpoint(&a.endpoint_info)));
    fields.push(("timestamp".to_owned(), JsonValue::UInt(a.timestamp)));
    fields.push(("ttl".to_owned(), JsonValue::UInt(a.ttl)));
    let ghost f = fields@;
    let r = JsonValue::Obj(fields);
    proof {
        reveal_strlit("service_id");
        reveal_strlit("node_id");
        reveal_strlit("service_name");
        reveal_strlit("capabilities");
        reveal_strlit("endpoint_info");
        reveal_strlit("timestamp");
        reveal_strlit("ttl");
        assert("service_id"@.len() == 10);
        assert("node_id"@.len() == 7);
        assert("service_name"@.len() == 12);
        assert("capabilities"@.len() == 12);
        assert("service_name"@[0] == 's');
        assert("capabilities"@[0] == 'c');
        assert("endpoint_info"@.len() == 13);
        assert("timestamp"@.len() == 9);
        assert("ttl"@.len() == 3);
        assert("service_id"@ != "node_id"@);
        assert("service_id"@ != "service_name"@);
        assert("service_id"@ != "capabilities"@);
        assert("service_id"@ != "endpoint_info"@);
        assert("service_id"@ != "timestamp"@);
        assert("service_id"@ != "ttl"@);
        assert("node_id"@ != "service_name"@);
        assert("node_id"@ != "capabilities"@);
        assert("node_id"@ != "endpoint_info"@);
        assert("node_id"@ != "timestamp"@);
        assert("node_id"@ != "ttl"@);
        assert("service_name"@ != "capabilities"@);
        assert("service_name"@ != "endpoint_info"@);
        assert("service_name"@ != "timestamp"@);
        assert("service_name"@ != "ttl"@);
        assert("capabilities"@ != "endpoint_info"@);
        assert("capabilities"@ != "timestamp"@);
        assert("capabilities"@ != "ttl"@);
        assert("endpoint_info"@ != "timestamp"@);
        assert("endpoint_info"@ != "ttl"@);
        assert("timestamp"@ != "ttl"@);
        lemma_obj_get_at(f, "service_id"@, 0);
        lemma_obj_get_at(f, "node_id"@, 1);
        lemma_obj_get_at(f, "service_name"@, 2);
        lemma_obj_get_at(f, "capabilities"@, 3);
        lemma_obj_get_at(f, "endpoint_info"@, 4);
        lemma_obj_get_at(f, "timestamp"@, 5);
        lemma_obj_get_at(f, "ttl"@, 6);
        assert(spec_announcement(r).unwrap() =~= a@);
    }
    r
}

/// Render a query as its wire object.
pub fn encode_query(q: &ServiceQuery) -> (r: JsonValue)
    ensures
        spec_query(r) == Some(q@),
{
    let max_results = match q.max_results {
        Some(m) => JsonValue::UInt(m as u64),
        None => JsonValue::Null,
    };
    let mut fields: Vec<(String, JsonValue)> = Vec::new();
    fields.push(("service_name".to_owned(), JsonValue::Str(q.service_name.clone())));
    fields.push(
        (
            "required_capabilities".to_owned(),
            JsonValue::Arr(encode_strings(&q.required_capabilities)),
        ),
    );
    fields.push(("max_results".to_owned(), max_results));
    let ghost f = fields@;
    let r = JsonValue::Obj(fields);
    proof {
        reveal_strlit("service_name");
        reveal_strlit("required_capabilities");
        reveal_strlit("max_results");
        assert("service_name"@.len() == 12);
        assert("required_capabilities"@.len() == 21);
        assert("max_results"@.len() == 11);
        assert("service_name"@ != "required_capabilities"@);
        assert("service_name"@ != "max_results"@);
        assert("required_capabilities"@ != "max_results"@);
        lemma_obj_get_at(f, "service_name"@, 0);
        lemma_obj_get_at(f, "required_capabilities"@, 1);
        lemma_obj_get_at(f, "max_results"@, 2);
        assert(spec_query(r).unwrap() =~= q@);
    }
    r
}

fn encode_announcements(v: &Vec<ServiceAnnouncement>) -> (r: Vec<JsonValue>)
    ensures
        spec_announcements(r@) == Some(v.deep_view()),
{
    let mut out: Vec<JsonValue> = Vec::new();
    let mut i: usize = 0;
    while i < v.len()
        invariant
            0 <= i <= v.len(),
            out@.len() == i,
            forall|j: int| 0 <= j < i ==> spec_announcement(#[trigger] out@[j]) is Some,
            forall|j: int|
                0 <= j < i ==> spec_announcement(#[trigger] out@[j]).unwrap() == v@[j]@,
        decreases v.len() - i,
    {
        out.push(encode_announcement(&v[i]));
        proof {
            assert(spec_announcement(out@[i as int]).unwrap() == v@[i as int]@);
        }
        i += 1;
    }
    proof {
        assert(spec_announcements(out@).unwrap() =~= v.deep_view());
    }
    out
}

/// Render a query response as its wire object.
pub fn encode_response(resp: &ServiceQueryResponse) -> (r: JsonValue)
    ensures
        spec_response(r) == Some(resp@),
{
    let mut fields: Vec<(String, JsonValue)> = Vec::new();
    fields.push(("services".to_owned(), JsonValue::Arr(encode_announcements(&resp.services))));
    fields.push(("query_id".to_owned(), JsonValue::Str(resp.query_id.clone())));
    fields.push(("timestamp".to_owned(), JsonValue::UInt(resp.timestamp)));
    let ghost f = fields@;
    let r = JsonValue::Obj(fields);
    proof {
        reveal_strlit("services");
        reveal_strlit("query_id");
        reveal_strlit("timestamp");
        assert("services"@.len() == 8);
        assert("query_id"@.len() == 8);
        assert("services"@[0] == 's');
        assert("query_id"@[0] == 'q');
        assert("timestamp"@.len() == 9);
        assert("services"@ != "query_id"@);
        assert("services"@ != "timestamp"@);
        assert("query_id"@ != "timestamp"@);
        lemma_obj_get_at(f, "services"@, 0);
        lemma_obj_get_at(f, "query_id"@, 1);
        lemma_obj_get_at(f, "timestamp"@, 2);
        assert(spec_response(r).unwrap() =~= resp@);
    }
    r
}

/// Render an envelope as its tagged wire object. The ensured equation is
/// the round-trip law: what this function produces, the decoder reads
/// back as the very value that went in.
pub fn encode_envelope(env: &Envelope) -> (r: JsonValue)
    ensures
        spec_envelope(r) == Some(env@),
{
    match env {
        Envelope::Announcement(a) => {
            let mut fields: Vec<(String, JsonValue)> = Vec::new();
            fields.push(("type".to_owned(), JsonValue::Str("service_announcement".to_owned())));
            fields.push(("data".to_owned(), encode_announcement(a)));
            let ghost f = fields@;
            let r = JsonValue::Obj(fields);
            proof {
                reveal_strlit("type");
                reveal_strlit("data");
                assert("type"@.len() == 4);
                assert("data"@.len() == 4);
                assert("type"@[0] == 't');
                assert("data"@[0] == 'd');
                assert("type"@ != "data"@);
                lemma_obj_get_at(f, "type"@, 0);
                lemma_obj_get_at(f, "data"@, 1);
                assert(spec_envelope(r).unwrap() =~= env@);
            }
            r
        },
        Envelope::Query { query_id, query } => {
            let mut fields: Vec<(String, JsonValue)> = Vec::new();
            fields.push(("type".to_owned(), JsonValue::Str("service_query".to_owned())));
            fields.push(("query_id".to_owned(), JsonValue::Str(query_id.clone())));
            fields.push(("data".to_owned(), encode_query(query)));
            let ghost f = fields@;
            let r = JsonValue::Obj(fields);
            proof {
                reveal_strlit("type");
                reveal_strlit("query_id");
                reveal_strlit("data");
                reveal_strlit("service_announcement");
                reveal_strlit("service_query");
                assert("type"@.len() == 4);
                assert("query_id"@.len() == 8);
                assert("data"@.len() == 4);
                assert("type"@[0] == 't');
                assert("data"@[0] == 'd');
                assert("service_announcement"@.len() == 20);
                assert("service_query"@.len() == 13);
                assert("type"@ != "query_id"@);
                assert("type"@ != "data"@);
                assert("query_id"@ != "data"@);
                lemma_obj_get_at(f, "type"@, 0);
                lemma_obj_get_at(f, "query_id"@, 1);
                lemma_obj_get_at(f, "data"@, 2);
                assert("service_query"@ != "service_announcement"@);
                assert(spec_envelope(r).unwrap() =~= env@);
            }
            r
        },
        Envelope::QueryResponse(resp) => {
            let mut fields: Vec<(String, JsonValue)> = Vec::new();
            fields.push(("type".to_owned(), JsonValue::Str("service_query_response".to_owned())));
            fields.push(("data".to_owned(), encode_response(resp)));
            let ghost f = fields@;
            let r = JsonValue::Obj(fields);
            proof {
                reveal_strlit("type");
                reveal_strlit("data");
                reveal_strlit("service_announcement");
                reveal_strlit("service_query");
                reveal_strlit("service_query_response");
                assert("type"@.len() == 4);
                assert("data"@.len() == 4);
                assert("type"@[0] == 't');
                assert("data"@[0] == 'd');
                assert("service_announcement"@.len() == 20);
                assert("service_query"@.len() == 13);
                assert("service_query_response"@.len() == 22);
                assert("type"@ != "data"@);
                lemma_obj_get_at(f, "type"@, 0);
                lemma_obj_get_at(f, "data"@, 1);
                assert("service_query_response"@ != "service_announcement"@);
                assert("service_query_response"@ != "service_query"@);
                assert(spec_envelope(r).unwrap() =~= env@);
            }
            r
        },
    }
}

/// Turn a received value into one of the three message shapes; anything
/// else — an unknown tag, a missing field, a field of the wrong kind —
/// decodes to nothing and is ignored by the listener.
pub fn decode_envelope(v: &JsonValue) -> (r: Option<Envelope>)
    ensures
        match r {
            Some(env) => spec_envelope(*v) == Some(env@),
            None => spec_envelope(*v) is None,
        },
{
    let t = match get_str_field(v, "type") {
        Some(s) => s,
        None => {
            return None;
        },
    };
    if t.eq(&"service_announcement".to_owned()) {
        match get_field(v, "data") {
            Some(d) => match decode_announcement(d) {
                Some(a) => Some(Envelope::Announcement(a)),
                None => None,
            },
            None => None,
        }
    } else if t.eq(&"service_query".to_owned()) {
        let query_id = match get_str_field(v, "query_id") {
            Some(s) => s,
            None => {
                return None;
            },
        };
        match get_field(v, "data") {
            Some(d) => match decode_query(d) {
                Some(q) => Some(Envelope::Query { query_id, query: q }),
                None => None,
            },
            None => None,
        }
    } else if t.eq(&"service_query_response".to_owned()) {
        match get_field(v, "data") {
            Some(d) => match decode_response(d) {
                Some(resp) => Some(Envelope::QueryResponse(resp)),
                None => None,
            },
            None => None,
        }
    } else {
        None
    }
}

} // verus!
