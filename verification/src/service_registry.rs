use vstd::prelude::*;

use crate::codec::decode_envelope;
use crate::codec::spec_envelope;
use crate::codec::Envelope;
use crate::codec::EnvelopeModel;
use crate::codec::JsonValue;
use crate::directory::map_contents;
use crate::directory::map_entries;
use crate::directory::map_get;
use crate::directory::map_insert;
use crate::directory::map_new;
use crate::directory::map_remove;
use crate::directory::empty_contents;
use crate::directory::DirectoryMap;

verus! {

/// Default lifetime of a registration, in seconds.
pub const DEFAULT_TTL_SECONDS: u64 = 300;

/// Default cap on discovery results when a query names none.
pub const DEFAULT_MAX_RESULTS: usize = 10;

/// Period of the cleanup task, in seconds.
pub const CLEANUP_INTERVAL_SECONDS: u64 = 60;

/// Period of the re-announcement heartbeat, in seconds.
pub const ANNOUNCE_INTERVAL_SECONDS: u64 = 120;

/// How long discovery waits for gossip-relayed answers, in milliseconds.
pub const DISCOVERY_WAIT_MILLIS: u64 = 500;

/// The well-known gossip topic that carries every discovery message.
pub fn discovery_topic() -> (r: &'static str)
    ensures
        r@ == "service-discovery"@,
{
    "service-discovery"
}

/// Reachability descriptor carried inside an announcement; the registry
/// passes it through without interpreting it.
#[derive(Debug, PartialEq, Eq)]
pub struct ServiceEndpoint {
    pub node_addr: String,
    pub http_endpoint: Option<String>,
    pub health_check_path: Option<String>,
}

/// The fact "node `node_id` offers service `service_name` with
/// `capabilities`, reachable at `endpoint_info`, valid for `ttl` seconds
/// past `timestamp`".
#[derive(Debug, PartialEq, Eq)]
pub struct ServiceAnnouncement {
    pub service_id: String,
    pub node_id: String,
    pub service_name: String,
    pub capabilities: Vec<String>,
    pub endpoint_info: ServiceEndpoint,
    pub timestamp: u64,
    pub ttl: u64,
}

/// A request for services: exact name match, superset capability match,
/// optional cap on the number of results.
#[derive(Debug, PartialEq, Eq)]
pub struct ServiceQuery {
    pub service_name: String,
    pub required_capabilities: Vec<String>,
    pub max_results: Option<usize>,
}

/// A bundle of announcements answering the query named by `query_id`.
#[derive(Debug, PartialEq, Eq)]
pub struct ServiceQueryResponse {
    pub services: Vec<ServiceAnnouncement>,
    pub query_id: String,
    pub timestamp: u64,
}

/// Mathematical image of a `ServiceEndpoint`.
#[verifier::ext_equal]
pub struct EndpointModel {
    pub node_addr: Seq<char>,
    pub http_endpoint: Option<Seq<char>>,
    pub health_check_path: Option<Seq<char>>,
}

/// Mathematical image of a `ServiceAnnouncement`.
#[verifier::ext_equal]
pub struct AnnouncementModel {
    pub service_id: Seq<char>,
    pub node_id: Seq<char>,
    pub service_name: Seq<char>,
    pub capabilities: Seq<Seq<char>>,
    pub endpoint_info: EndpointModel,
    pub timestamp: u64,
    pub ttl: u64,
}

/// Mathematical image of a `ServiceQuery`.
#[verifier::ext_equal]
pub struct QueryModel {
    pub service_name: Seq<char>,
    pub required_capabilities: Seq<Seq<char>>,
    pub max_results: Option<usize>,
}

/// Mathematical image of a `ServiceQueryResponse`.
#[verifier::ext_equal]
pub struct ResponseModel {
    pub services: Seq<AnnouncementModel>,
    pub query_id: Seq<char>,
    pub timestamp: u64,
}

impl View for ServiceEndpoint {
    type V = EndpointModel;

    open spec fn view(&self) -> EndpointModel {
        EndpointModel {
            node_addr: self.node_addr@,
            http_endpoint: self.http_endpoint.deep_view(),
            health_check_path: self.health_check_path.deep_view(),
        }
    }
}

impl DeepView for ServiceEndpoint {
    type V = EndpointModel;

    open spec fn deep_view(&self) -> EndpointModel {
        self.view()
    }
}

impl View for ServiceAnnouncement {
    type V = AnnouncementModel;

    open spec fn view(&self) -> AnnouncementModel {
        AnnouncementModel {
            service_id: self.service_id@,
            node_id: self.node_id@,
            service_name: self.service_name@,
            capabilities: self.capabilities.deep_view(),
            endpoint_info: self.endpoint_info@,
            timestamp: self.timestamp,
            ttl: self.ttl,
        }
    }
}

impl DeepView for ServiceAnnouncement {
    type V = AnnouncementModel;

    open spec fn deep_view(&self) -> AnnouncementModel {
        self.view()
    }
}

impl View for ServiceQuery {
    type V = QueryModel;

    open spec fn view(&self) -> QueryModel {
        QueryModel {
            service_name: self.service_name@,
            required_capabilities: self.required_capabilities.deep_view(),
            max_results: self.max_results,
        }
    }
}

impl DeepView for ServiceQuery {
    type V = QueryModel;

    open spec fn deep_view(&self) -> QueryModel {
        self.view()
    }
}

impl View for ServiceQueryResponse {
    type V = ResponseModel;

    open spec fn view(&self) -> ResponseModel {
        ResponseModel {
            services: self.services.deep_view(),
            query_id: self.query_id@,
            timestamp: self.timestamp,
        }
    }
}

impl DeepView for ServiceQueryResponse {
    type V = ResponseModel;

    open spec fn deep_view(&self) -> ResponseModel {
        self.view()
    }
}

impl Clone for ServiceEndpoint {
    fn clone(&self) -> (res: Self)
        ensures
            res == *self,
    {
        ServiceEndpoint {
            node_addr: self.node_addr.clone(),
            http_endpoint: match &self.http_endpoint {
                Some(s) => Some(s.clone()),
                None => None,
            },
            health_check_path: match &self.health_check_path {
                Some(s) => Some(s.clone()),
                None => None,
            },
        }
    }
}

impl Clone for ServiceAnnouncement {
    fn clone(&self) -> (res: Self)
        ensures
            res@ == self@,
            res.service_id == self.service_id,
            res.node_id == self.node_id,
            res.service_name == self.service_name,
            res.capabilities@ == self.capabilities@,
            res.endpoint_info == self.endpoint_info,
            res.timestamp == self.timestamp,
            res.ttl == self.ttl,
    {
        let caps = self.capabilities.clone();
        proof {
            assert(caps@ =~= self.capabilities@);
            assert(caps.deep_view() =~= self.capabilities.deep_view());
        }
        let res = ServiceAnnouncement {
            service_id: self.service_id.clone(),
            node_id: self.node_id.clone(),
            service_name: self.service_name.clone(),
            capabilities: caps,
            endpoint_info: self.endpoint_info.clone(),
            timestamp: self.timestamp,
            ttl: self.ttl,
        };
        res
    }
}

impl Clone for ServiceQuery {
    fn clone(&self) -> (res: Self)
        ensures
            res@ == self@,
            res.service_name == self.service_name,
            res.required_capabilities@ == self.required_capabilities@,
            res.max_results == self.max_results,
    {
        let caps = self.required_capabilities.clone();
        proof {
            assert(caps@ =~= self.required_capabilities@);
            assert(caps.deep_view() =~= self.required_capabilities.deep_view());
        }
        ServiceQuery {
            service_name: self.service_name.clone(),
            required_capabilities: caps,
            max_results: self.max_results,
        }
    }
}

impl Clone for ServiceQueryResponse {
    fn clone(&self) -> (res: Self)
        ensures
            res@ == self@,
    {
        let services = self.services.clone();
        proof {
            assert(services.deep_view() =~= self.services.deep_view());
        }
        ServiceQueryResponse {
            services,
            query_id: self.query_id.clone(),
            timestamp: self.timestamp,
        }
    }
}

/// A record is live at `now` iff its lifetime has not elapsed.
pub open spec fn spec_announcement_live(a: AnnouncementModel, now: u64) -> bool {
    now <= a.timestamp + a.ttl
}

/// Every required tag is present among the offered tags; order and
/// duplication are irrelevant on both sides.
pub open spec fn spec_caps_satisfied(caps: Seq<Seq<char>>, required: Seq<Seq<char>>) -> bool {
    forall|i: int| 0 <= i < required.len() ==> caps.contains(#[trigger] required[i])
}

/// The match rule minus liveness: exact name match plus capability
/// superset containment.
pub open spec fn spec_matches_name_caps(a: AnnouncementModel, q: QueryModel) -> bool {
    a.service_name == q.service_name && spec_caps_satisfied(a.capabilities, q.required_capabilities)
}

/// The full match rule used on the local-scan path: name, capabilities,
/// and liveness at `now`.
pub open spec fn spec_matches(a: AnnouncementModel, q: QueryModel, now: u64) -> bool {
    spec_matches_name_caps(a, q) && spec_announcement_live(a, now)
}

/// Two sequences with the same multiset contain the same elements.
proof fn lemma_same_multiset_same_contains(s1: Seq<Seq<char>>, s2: Seq<Seq<char>>)
    requires
        s1.to_multiset() == s2.to_multiset(),
    ensures
        forall|x: Seq<char>| s1.contains(x) <==> s2.contains(x),
{
    broadcast use vstd::seq_lib::group_to_multiset_ensures;

    assert forall|x: Seq<char>| s1.contains(x) <==> s2.contains(x) by {
        assert(s1.contains(x) <==> s1.to_multiset().count(x) > 0);
        assert(s2.contains(x) <==> s2.to_multiset().count(x) > 0);
    };
}

/// Matching is insensitive to the order (and repetition) of capability
/// tags, on the record side and on the query side alike: two
/// announcements and two queries that agree except for a reordering of
/// their capability lists match, or fail to match, together.
pub proof fn lemma_matching_capability_order(
    a1: AnnouncementModel,
    a2: AnnouncementModel,
    q1: QueryModel,
    q2: QueryModel,
    now: u64,
)
    requires
        a1.capabilities.to_multiset() == a2.capabilities.to_multiset(),
        q1.required_capabilities.to_multiset() == q2.required_capabilities.to_multiset(),
        a1.service_name == a2.service_name,
        a1.timestamp == a2.timestamp,
        a1.ttl == a2.ttl,
        q1.service_name == q2.service_name,
    ensures
        spec_matches(a1, q1, now) == spec_matches(a2, q2, now),
        spec_matches_name_caps(a1, q1) == spec_matches_name_caps(a2, q2),
{
    lemma_same_multiset_same_contains(a1.capabilities, a2.capabilities);
    lemma_same_multiset_same_contains(q1.required_capabilities, q2.required_capabilities);
    if spec_caps_satisfied(a1.capabilities, q1.required_capabilities) {
        assert forall|i: int| 0 <= i < q2.required_capabilities.len() implies a2.capabilities.contains(
            #[trigger] q2.required_capabilities[i],
        ) by {
            let x = q2.required_capabilities[i];
            assert(q2.required_capabilities.contains(x));
            assert(q1.required_capabilities.contains(x));
            let j = choose|j: int|
                0 <= j < q1.required_capabilities.len() && q1.required_capabilities[j] == x;
            assert(a1.capabilities.contains(q1.required_capabilities[j]));
        };
    }
    if spec_caps_satisfied(a2.capabilities, q2.required_capabilities) {
        assert forall|i: int| 0 <= i < q1.required_capabilities.len() implies a1.capabilities.contains(
            #[trigger] q1.required_capabilities[i],
        ) by {
            let x = q1.required_capabilities[i];
            assert(q1.required_capabilities.contains(x));
            assert(q2.required_capabilities.contains(x));
            let j = choose|j: int|
                0 <= j < q2.required_capabilities.len() && q2.required_capabilities[j] == x;
            assert(a2.capabilities.contains(q2.required_capabilities[j]));
        };
    }
}

/// Overflow-free liveness check: `now <= timestamp + ttl` in exact arithmetic.
pub fn is_live(timestamp: u64, ttl: u64, now: u64) -> (r: bool)
    ensures
        r == (now <= timestamp + ttl),
{
    if now <= timestamp {
        true
    } else {
        now - timestamp <= ttl
    }
}

/// Whether some element of `v` reads as `s`.
fn contains_string(v: &Vec<String>, s: &String) -> (r: bool)
    ensures
        r == v.deep_view().contains(s@),
{
    let mut i: usize = 0;
    while i < v.len()
        invariant
            0 <= i <= v.len(),
            forall|j: int| 0 <= j < i ==> v.deep_view()[j] != s@,
        decreases v.len() - i,
    {
        proof {
            assert(v.deep_view()[i as int] == v@[i as int]@);
        }
        if v[i].eq(s) {
            return true;
        }
        i += 1;
    }
    assert(forall|j: int| 0 <= j < v.deep_view().len() ==> v.deep_view()[j] != s@);
    false
}

/// Whether every tag in `required` occurs in `caps`.
pub fn capabilities_satisfied(caps: &Vec<String>, required: &Vec<String>) -> (r: bool)
    ensures
        r == spec_caps_satisfied(caps.deep_view(), required.deep_view()),
{
    let mut i: usize = 0;
    while i < required.len()
        invariant
            0 <= i <= required.len(),
            forall|j: int| 0 <= j < i ==> caps.deep_view().contains(#[trigger] required.deep_view()[j]),
        decreases required.len() - i,
    {
        if !contains_string(caps, &required[i]) {
            assert(!caps.deep_view().contains(required.deep_view()[i as int]));
            return false;
        }
        i += 1;
    }
    true
}

/// Relies on std::time::SystemTime::now: seconds elapsed since the Unix
/// epoch, or zero if the clock reads earlier than the epoch. Nothing is
/// assumed of the value.
#[verifier::external_body]
pub fn current_timestamp() -> u64 {
    match std::time::SystemTime::now().duration_since(std::time::UNIX_EPOCH) {
        Ok(d) => d.as_secs(),
        Err(_) => 0,
    }
}

/// Relies on uuid::Uuid::new_v4 and its hyphenated rendering: a fresh
/// random identifier, 36 characters long. Nothing more is assumed of it;
/// in particular not that it differs from any earlier one.
#[verifier::external_body]
fn fresh_service_id() -> (r: String)
    ensures
        r@.len() == 36,
{
    uuid::Uuid::new_v4().to_string()
}

/// The same record with its timestamp advanced to `now`.
pub open spec fn spec_refreshed(m: AnnouncementModel, now: u64) -> AnnouncementModel {
    AnnouncementModel {
        service_id: m.service_id,
        node_id: m.node_id,
        service_name: m.service_name,
        capabilities: m.capabilities,
        endpoint_info: m.endpoint_info,
        timestamp: now,
        ttl: m.ttl,
    }
}

/// The directory after upserting each record of `s` in order, each under
/// its own identifier: a later record for the same identifier replaces an
/// earlier one without creating a second entry.
pub open spec fn spec_insert_all(
    dir: Map<Seq<char>, AnnouncementModel>,
    s: Seq<AnnouncementModel>,
) -> Map<Seq<char>, AnnouncementModel>
    decreases s.len(),
{
    if s.len() == 0 {
        dir
    } else {
        spec_insert_all(dir.insert(s[0].service_id, s[0]), s.drop_first())
    }
}

proof fn lemma_insert_all_push(
    dir: Map<Seq<char>, AnnouncementModel>,
    s: Seq<AnnouncementModel>,
    x: AnnouncementModel,
)
    ensures
        spec_insert_all(dir, s.push(x)) == spec_insert_all(dir, s).insert(x.service_id, x),
    decreases s.len(),
{
    if s.len() == 0 {
        assert(s.push(x).drop_first() =~= Seq::<AnnouncementModel>::empty());
        assert(s.push(x)[0] == x);
        assert(spec_insert_all(dir, s.push(x)) == spec_insert_all(
            dir.insert(x.service_id, x),
            s.push(x).drop_first(),
        ));
        assert(spec_insert_all(dir.insert(x.service_id, x), s.push(x).drop_first()) == dir.insert(
            x.service_id,
            x,
        ));
        assert(spec_insert_all(dir, s) == dir);
    } else {
        assert(s.push(x)[0] == s[0]);
        assert(s.push(x).drop_first() =~= s.drop_first().push(x));
        lemma_insert_all_push(dir.insert(s[0].service_id, s[0]), s.drop_first(), x);
        assert(spec_insert_all(dir, s.push(x)) == spec_insert_all(
            dir.insert(s[0].service_id, s[0]),
            s.drop_first().push(x),
        ));
        assert(spec_insert_all(dir, s) == spec_insert_all(
            dir.insert(s[0].service_id, s[0]),
            s.drop_first(),
        ));
    }
}

/// Upserting records keyed by their own identifiers preserves the
/// key-equals-identifier invariant of a directory.
proof fn lemma_insert_all_wf(dir: Map<Seq<char>, AnnouncementModel>, s: Seq<AnnouncementModel>)
    requires
        forall|k: Seq<char>| #[trigger] dir.dom().contains(k) ==> dir[k].service_id == k,
    ensures
        forall|k: Seq<char>| #[trigger]
            spec_insert_all(dir, s).dom().contains(k) ==> spec_insert_all(dir, s)[k].service_id
                == k,
    decreases s.len(),
{
    if s.len() > 0 {
        lemma_insert_all_wf(dir.insert(s[0].service_id, s[0]), s.drop_first());
    }
}

/// Insertion sort, newest first; the result holds exactly the input's
/// records, as a multiset of their images.
fn sort_by_timestamp_desc(v: &Vec<ServiceAnnouncement>) -> (r: Vec<ServiceAnnouncement>)
    ensures
        r.deep_view().to_multiset() == v.deep_view().to_multiset(),
        r@.len() == v@.len(),
        forall|i: int, j: int|
            0 <= i <= j < r@.len() ==> (#[trigger] r@[i]).timestamp >= (#[trigger] r@[j]).timestamp,
{
    let mut out: Vec<ServiceAnnouncement> = Vec::new();
    let mut i: usize = 0;
    proof {
        assert(out.deep_view() =~= v.deep_view().take(0));
    }
    while i < v.len()
        invariant
            0 <= i <= v.len(),
            out@.len() == i,
            out.deep_view().to_multiset() == v.deep_view().take(i as int).to_multiset(),
            forall|p: int, q: int|
                0 <= p <= q < out@.len() ==> (#[trigger] out@[p]).timestamp >= (
                #[trigger] out@[q]).timestamp,
        decreases v.len() - i,
    {
        let x = v[i].clone();
        let ghost xm = x@;
        let ghost pre = out.deep_view();
        let ghost pres = out@;
        let mut k: usize = 0;
        while k < out.len() && out[k].timestamp >= x.timestamp
            invariant
                0 <= k <= out@.len(),
                out@ == pres,
                x@ == xm,
                x.timestamp == xm.timestamp,
                forall|p: int| 0 <= p < k ==> (#[trigger] out@[p]).timestamp >= x.timestamp,
            decreases out@.len() - k,
        {
            k += 1;
        }
        out.insert(k, x);
        proof {
            broadcast use vstd::seq_lib::group_to_multiset_ensures;

            assert(out.deep_view() =~= pre.insert(k as int, xm));
            assert(xm == v.deep_view()[i as int]);
            assert(v.deep_view().take(i + 1 as int) =~= v.deep_view().take(i as int).push(xm));
            assert(out.deep_view().to_multiset() =~= v.deep_view().take(
                i + 1 as int,
            ).to_multiset());
            assert forall|p: int, q: int| 0 <= p <= q < out@.len() implies (
            #[trigger] out@[p]).timestamp >= (#[trigger] out@[q]).timestamp by {
                if p < k as int && q > k as int {
                    assert(pres[p].timestamp >= pres[q - 1].timestamp);
                }
                if p == k as int && q > k as int {
                    assert(pres[k as int].timestamp < x.timestamp);
                    assert(pres[k as int].timestamp >= pres[q - 1].timestamp);
                }
                if p > k as int && q > k as int {
                    assert(pres[p - 1].timestamp >= pres[q - 1].timestamp);
                }
            };
        }
        i += 1;
    }
    proof {
        assert(v.deep_view().take(v@.len() as int) =~= v.deep_view());
    }
    out
}

/// Sorting a duplicate-free list of matching directory records keeps
/// them matching, in the directory, and duplicate-free.
proof fn lemma_sorted_transfer(
    dir: Map<Seq<char>, AnnouncementModel>,
    q: QueryModel,
    now: u64,
    fnd: Seq<AnnouncementModel>,
    srt: Seq<AnnouncementModel>,
)
    requires
        srt.to_multiset() == fnd.to_multiset(),
        fnd.no_duplicates(),
        forall|p: int|
            0 <= p < fnd.len() ==> dir.contains_pair((#[trigger] fnd[p]).service_id, fnd[p])
                && spec_matches(fnd[p], q, now),
    ensures
        forall|i: int|
            0 <= i < srt.len() ==> dir.contains_pair((#[trigger] srt[i]).service_id, srt[i])
                && spec_matches(srt[i], q, now),
        forall|i: int, j: int|
            0 <= i < j < srt.len() ==> (#[trigger] srt[i]).service_id != (
            #[trigger] srt[j]).service_id,
        forall|m: AnnouncementModel| fnd.contains(m) ==> #[trigger] srt.contains(m),
{
    broadcast use vstd::seq_lib::group_to_multiset_ensures;

    fnd.lemma_multiset_has_no_duplicates();
    assert forall|i: int| 0 <= i < srt.len() implies dir.contains_pair(
        (#[trigger] srt[i]).service_id,
        srt[i],
    ) && spec_matches(srt[i], q, now) by {
        let m = srt[i];
        assert(srt.contains(m));
        assert(srt.to_multiset().count(m) > 0);
        assert(fnd.contains(m));
        let p = choose|p: int| 0 <= p < fnd.len() && fnd[p] == m;
        assert(dir.contains_pair(fnd[p].service_id, fnd[p]));
    };
    assert(srt.no_duplicates()) by {
        assert(forall|m: AnnouncementModel| #[trigger] srt.to_multiset().count(m) <= 1);
        srt.lemma_multiset_has_no_duplicates_conv();
    };
    assert forall|i: int, j: int| 0 <= i < j < srt.len() implies (#[trigger] srt[i]).service_id != (
    #[trigger] srt[j]).service_id by {
        if srt[i].service_id == srt[j].service_id {
            assert(dir.contains_pair(srt[i].service_id, srt[i]));
            assert(dir.contains_pair(srt[j].service_id, srt[j]));
            assert(srt[i] == srt[j]);
            assert(false);
        }
    };
    assert forall|m: AnnouncementModel| fnd.contains(m) implies #[trigger] srt.contains(m) by {
        assert(fnd.to_multiset().count(m) > 0);
        assert(srt.to_multiset().count(m) > 0);
    };
}

/// One node's view of the network: every service it has heard of, keyed
/// by service identifier, beside the store of its own registrations.
pub struct ServiceRegistry {
    node_id: String,
    services: DirectoryMap,
    my_services: DirectoryMap,
}

impl ServiceRegistry {
    /// Every service this node knows of, own registrations aside.
    pub closed spec fn directory(self) -> Map<Seq<char>, AnnouncementModel> {
        map_contents(self.services)
    }

    /// The services this node itself registered.
    pub closed spec fn own(self) -> Map<Seq<char>, AnnouncementModel> {
        map_contents(self.my_services)
    }

    /// The identity this registry announces under.
    pub closed spec fn node(self) -> Seq<char> {
        self.node_id@
    }

    /// Every record sits under its own service identifier.
    pub closed spec fn wf(self) -> bool {
        &&& forall|k: Seq<char>| #[trigger]
            self.directory().dom().contains(k) ==> self.directory()[k].service_id == k
        &&& forall|k: Seq<char>| #[trigger] self.own().dom().contains(k) ==> self.own()[k].service_id
            == k
    }

    /// A registry that knows of nothing yet, announcing as `node_id`.
    pub fn new(node_id: String) -> (r: Self)
        ensures
            r.wf(),
            r.node() == node_id@,
            r.directory() == empty_contents(),
            r.own() == empty_contents(),
    {
        ServiceRegistry { node_id, services: map_new(), my_services: map_new() }
    }

    /// The local-scan match rule: exact name, liveness at `now`, and
    /// capability superset containment.
    pub fn matches_query(&self, announcement: &ServiceAnnouncement, query: &ServiceQuery, now: u64) -> (r:
        bool)
        ensures
            r == spec_matches(announcement@, query@, now),
    {
        if !announcement.service_name.eq(&query.service_name) {
            return false;
        }
        if !is_live(announcement.timestamp, announcement.ttl, now) {
            return false;
        }
        capabilities_satisfied(&announcement.capabilities, &query.required_capabilities)
    }

    /// The match rule applied to the own-services store when answering a
    /// remote query: name and capabilities, without the liveness check —
    /// a node is taken as authoritative about its own services.
    pub fn service_matches_query(announcement: &ServiceAnnouncement, query: &ServiceQuery) -> (r:
        bool)
        ensures
            r == spec_matches_name_caps(announcement@, query@),
    {
        if !announcement.service_name.eq(&query.service_name) {
            return false;
        }
        capabilities_satisfied(&announcement.capabilities, &query.required_capabilities)
    }

    /// Record a registration under a caller-supplied identifier in the
    /// own-services store and hand back the announcement to broadcast.
    /// The directory of remote services is untouched.
    pub fn register_service_with_id(
        &mut self,
        service_id: String,
        service_name: String,
        capabilities: Vec<String>,
        endpoint_info: ServiceEndpoint,
        now: u64,
        ttl: u64,
    ) -> (r: ServiceAnnouncement)
        requires
            old(self).wf(),
        ensures
            final(self).wf(),
            final(self).node() == old(self).node(),
            final(self).directory() == old(self).directory(),
            final(self).own() == old(self).own().insert(service_id@, r@),
            r@ == (AnnouncementModel {
                service_id: service_id@,
                node_id: old(self).node(),
                service_name: service_name@,
                capabilities: capabilities.deep_view(),
                endpoint_info: endpoint_info@,
                timestamp: now,
                ttl: ttl,
            }),
    {
        let announcement = ServiceAnnouncement {
            service_id: service_id.clone(),
            node_id: self.node_id.clone(),
            service_name,
            capabilities,
            endpoint_info,
            timestamp: now,
            ttl,
        };
        let ret = announcement.clone();
        map_insert(&mut self.my_services, service_id, announcement);
        ret
    }

    /// Register a service: generate a fresh identifier, store the
    /// announcement among this node's own services, and hand it back so
    /// the caller can broadcast it on the discovery topic.
    pub fn register_service(
        &mut self,
        service_name: String,
        capabilities: Vec<String>,
        endpoint_info: ServiceEndpoint,
        now: u64,
        ttl: u64,
    ) -> (r: ServiceAnnouncement)
        requires
            old(self).wf(),
        ensures
            final(self).wf(),
            final(self).node() == old(self).node(),
            final(self).directory() == old(self).directory(),
            final(self).own() == old(self).own().insert(r@.service_id, r@),
            r@.node_id == old(self).node(),
            r@.service_name == service_name@,
            r@.capabilities == capabilities.deep_view(),
            r@.endpoint_info == endpoint_info@,
            r@.timestamp == now,
            r@.ttl == ttl,
    {
        let id = fresh_service_id();
        self.register_service_with_id(id, service_name, capabilities, endpoint_info, now, ttl)
    }

    /// Look one service up in the directory by its identifier.
    pub fn get_service(&self, service_id: &str) -> (r: Option<ServiceAnnouncement>)
        ensures
            match r {
                Some(a) => self.directory().contains_pair(service_id@, a@),
                None => !self.directory().dom().contains(service_id@),
            },
    {
        map_get(&self.services, service_id)
    }

    /// Snapshot of every known service, in no particular order: one
    /// record per directory entry, each under its own identifier.
    pub fn get_all_services(&self) -> (r: Vec<ServiceAnnouncement>)
        requires
            self.wf(),
        ensures
            forall|i: int|
                0 <= i < r@.len() ==> self.directory().contains_pair(
                    (#[trigger] r@[i])@.service_id,
                    r@[i]@,
                ),
            forall|k: Seq<char>| #[trigger]
                self.directory().dom().contains(k) ==> exists|i: int|
                    0 <= i < r@.len() && r@[i]@.service_id == k,
            forall|i: int, j: int| 0 <= i < j < r@.len() ==> r@[i]@.service_id != r@[j]@.service_id,
    {
        let entries = map_entries(&self.services);
        let ghost dir = self.directory();
        let ghost es = entries@;
        let mut out: Vec<ServiceAnnouncement> = Vec::new();
        let mut i: usize = 0;
        while i < entries.len()
            invariant
                0 <= i <= entries.len(),
                out@.len() == i,
                es == entries@,
                forall|j: int| 0 <= j < es.len() ==> dir.contains_pair(#[trigger] es[j].0@, es[j].1@),
                forall|j: int| 0 <= j < i ==> (#[trigger] out@[j])@ == es[j].1@,
            decreases entries.len() - i,
        {
            out.push(entries[i].1.clone());
            i += 1;
        }
        proof {
            assert forall|i2: int| 0 <= i2 < out@.len() implies dir.contains_pair(
                (#[trigger] out@[i2])@.service_id,
                out@[i2]@,
            ) by {
                assert(dir.contains_pair(es[i2].0@, es[i2].1@));
                assert(dir[es[i2].0@].service_id == es[i2].0@);
            };
            assert forall|k: Seq<char>| #[trigger] dir.dom().contains(k) implies exists|i2: int|
                0 <= i2 < out@.len() && out@[i2]@.service_id == k by {
                let j = choose|j: int| 0 <= j < es.len() && es[j].0@ == k;
                assert(dir.contains_pair(es[j].0@, es[j].1@));
                assert(out@[j]@.service_id == k);
            };
            assert forall|i2: int, j2: int| 0 <= i2 < j2 < out@.len() implies out@[i2]@.service_id
                != out@[j2]@.service_id by {
                assert(dir.contains_pair(es[i2].0@, es[i2].1@));
                assert(dir.contains_pair(es[j2].0@, es[j2].1@));
            };
        }
        out
    }

    /// Snapshot of this node's own registrations, in no particular order.
    pub fn get_my_services(&self) -> (r: Vec<ServiceAnnouncement>)
        requires
            self.wf(),
        ensures
            forall|i: int|
                0 <= i < r@.len() ==> self.own().contains_pair(
                    (#[trigger] r@[i])@.service_id,
                    r@[i]@,
                ),
            forall|k: Seq<char>| #[trigger]
                self.own().dom().contains(k) ==> exists|i: int|
                    0 <= i < r@.len() && r@[i]@.service_id == k,
            forall|i: int, j: int| 0 <= i < j < r@.len() ==> r@[i]@.service_id != r@[j]@.service_id,
    {
        let entries = map_entries(&self.my_services);
        let ghost dir = self.own();
        let ghost es = entries@;
        let mut out: Vec<ServiceAnnouncement> = Vec::new();
        let mut i: usize = 0;
        while i < entries.len()
            invariant
                0 <= i <= entries.len(),
                out@.len() == i,
                es == entries@,
                forall|j: int| 0 <= j < es.len() ==> dir.contains_pair(#[trigger] es[j].0@, es[j].1@),
                forall|j: int| 0 <= j < i ==> (#[trigger] out@[j])@ == es[j].1@,
            decreases entries.len() - i,
        {
            out.push(entries[i].1.clone());
            i += 1;
        }
        proof {
            assert forall|i2: int| 0 <= i2 < out@.len() implies dir.contains_pair(
                (#[trigger] out@[i2])@.service_id,
                out@[i2]@,
            ) by {
                assert(dir.contains_pair(es[i2].0@, es[i2].1@));
                assert(dir[es[i2].0@].service_id == es[i2].0@);
            };
            assert forall|k: Seq<char>| #[trigger] dir.dom().contains(k) implies exists|i2: int|
                0 <= i2 < out@.len() && out@[i2]@.service_id == k by {
                let j = choose|j: int| 0 <= j < es.len() && es[j].0@ == k;
                assert(dir.contains_pair(es[j].0@, es[j].1@));
                assert(out@[j]@.service_id == k);
            };
            assert forall|i2: int, j2: int| 0 <= i2 < j2 < out@.len() implies out@[i2]@.service_id
                != out@[j2]@.service_id by {
                assert(dir.contains_pair(es[i2].0@, es[i2].1@));
                assert(dir.contains_pair(es[j2].0@, es[j2].1@));
            };
        }
        out
    }

    /// Collect every directory record, out of the given snapshot, that
    /// matches the query and is live at `now`.
    #[verifier::spinoff_prover]
    fn collect_matches(&self, all: &Vec<ServiceAnnouncement>, query: &ServiceQuery, now: u64) -> (found: Vec<ServiceAnnouncement>)
        requires
            self.wf(),
            forall|j: int|
                0 <= j < all@.len() ==> self.directory().contains_pair(
                    (#[trigger] all@[j])@.service_id,
                    all@[j]@,
                ),
            forall|k: Seq<char>| #[trigger]
                self.directory().dom().contains(k) ==> exists|j: int|
                    0 <= j < all@.len() && all@[j]@.service_id == k,
            forall|p: int, q: int|
                0 <= p < q < all@.len() ==> all@[p]@.service_id != all@[q]@.service_id,
        ensures
            forall|p: int|
                0 <= p < found@.len() ==> self.directory().contains_pair(
                    (#[trigger] found@[p])@.service_id,
                    found@[p]@,
                ) && spec_matches(found@[p]@, query@, now),
            forall|p: int, q: int|
                0 <= p < q < found@.len() ==> found@[p]@.service_id != found@[q]@.service_id,
            forall|k: Seq<char>|
                #[trigger] self.directory().dom().contains(k) && spec_matches(
                    self.directory()[k],
                    query@,
                    now,
                ) ==> exists|p: int|
                    0 <= p < found@.len() && found@[p]@.service_id == k,
    {
        let ghost dir = self.directory();
        let ghost alls = all@;
        let mut found: Vec<ServiceAnnouncement> = Vec::new();
        let mut i: usize = 0;
        while i < all.len()
            invariant
                0 <= i <= all.len(),
                alls == all@,
                self.wf(),
                dir == self.directory(),
                forall|j: int|
                    0 <= j < alls.len() ==> dir.contains_pair(
                        (#[trigger] alls[j])@.service_id,
                        alls[j]@,
                    ),
                forall|p: int, q: int|
                    0 <= p < q < alls.len() ==> alls[p]@.service_id != alls[q]@.service_id,
                forall|p: int|
                    0 <= p < found@.len() ==> dir.contains_pair(
                        (#[trigger] found@[p])@.service_id,
                        found@[p]@,
                    ) && spec_matches(found@[p]@, query@, now),
                forall|p: int|
                    0 <= p < found@.len() ==> exists|j: int|
                        0 <= j < i && (#[trigger] found@[p])@.service_id == alls[j]@.service_id,
                forall|p: int, q: int|
                    0 <= p < q < found@.len() ==> found@[p]@.service_id != found@[q]@.service_id,
                forall|j: int|
                    0 <= j < i && spec_matches((#[trigger] alls[j])@, query@, now) ==> exists|p: int|
                        0 <= p < found@.len() && found@[p]@.service_id == alls[j]@.service_id,
            decreases all.len() - i,
        {
            let ghost fl = found@;
            let matched = self.matches_query(&all[i], query, now);
            if matched {
                proof {
                    assert forall|p: int| 0 <= p < found@.len() implies (
                    #[trigger] found@[p])@.service_id != alls[i as int]@.service_id by {
                        let j = choose|j: int|
                            0 <= j < i && found@[p]@.service_id == alls[j]@.service_id;
                        assert(alls[j]@.service_id != alls[i as int]@.service_id);
                    };
                }
                found.push(all[i].clone());
                proof {
                    assert(found@[fl.len() as int]@ == alls[i as int]@);
                }
            }
            proof {
                assert forall|j: int|
                    0 <= j < i + 1 && spec_matches((#[trigger] alls[j])@, query@, now) implies exists|p: int|
                    0 <= p < found@.len() && found@[p]@.service_id == alls[j]@.service_id by {
                    if j < i {
                        let p = choose|p: int|
                            0 <= p < fl.len() && fl[p]@.service_id == alls[j]@.service_id;
                        assert(found@[p]@.service_id == alls[j]@.service_id);
                    } else {
                        assert(matched);
                        assert(found@[fl.len() as int]@.service_id == alls[i as int]@.service_id);
                    }
                };
            }
            i += 1;
        }
        found
    }

    /// Scan the directory for records that match the query and are live
    /// at `now`, sort them newest first, and cut the list at the query's
    /// cap. Every match is returned unless the cap was reached, and then
    /// only records at least as fresh as the omitted ones are kept.
    #[verifier::rlimit(100)]
    #[verifier::spinoff_prover]
    pub fn discover_services(&self, query: &ServiceQuery, now: u64) -> (r: Vec<
        ServiceAnnouncement,
    >)
        requires
            self.wf(),
        ensures
            query.max_results matches Some(m) ==> r@.len() <= m,
            forall|i: int, j: int|
                0 <= i <= j < r@.len() ==> (#[trigger] r@[i]).timestamp >= (
                #[trigger] r@[j]).timestamp,
            forall|i: int|
                0 <= i < r@.len() ==> self.directory().contains_pair(
                    (#[trigger] r@[i])@.service_id,
                    r@[i]@,
                ) && spec_matches(r@[i]@, query@, now),
            forall|i: int, j: int| 0 <= i < j < r@.len() ==> r@[i]@.service_id != r@[j]@.service_id,
            forall|k: Seq<char>|
                #[trigger] self.directory().dom().contains(k) && spec_matches(
                    self.directory()[k],
                    query@,
                    now,
                ) ==> (exists|i: int| 0 <= i < r@.len() && r@[i]@.service_id == k) || (
                query.max_results matches Some(m) && r@.len() == m && forall|i: int|
                    0 <= i < r@.len() ==> (#[trigger] r@[i]).timestamp
                        >= self.directory()[k].timestamp),
    {
        let ghost dir = self.directory();
        let all = self.get_all_services();
        let found = self.collect_matches(&all, query, now);
        let ghost fnd = found.deep_view();
        proof {
            assert(fnd.no_duplicates()) by {
                assert forall|p: int, q: int|
                    0 <= p < fnd.len() && 0 <= q < fnd.len() && p != q implies fnd[p] != fnd[q] by {
                    if p < q {
                        assert(found@[p]@.service_id != found@[q]@.service_id);
                    } else {
                        assert(found@[q]@.service_id != found@[p]@.service_id);
                    }
                };
            };
            assert forall|p: int| 0 <= p < fnd.len() implies dir.contains_pair(
                (#[trigger] fnd[p]).service_id,
                fnd[p],
            ) && spec_matches(fnd[p], query@, now) by {
                assert(fnd[p] == found@[p]@);
            };
        }
        let sorted = sort_by_timestamp_desc(&found);
        let ghost srt = sorted.deep_view();
        proof {
            lemma_sorted_transfer(dir, query@, now, fnd, srt);
            assert forall|i: int| 0 <= i < sorted@.len() implies dir.contains_pair(
                (#[trigger] sorted@[i])@.service_id,
                sorted@[i]@,
            ) && spec_matches(sorted@[i]@, query@, now) by {
                assert(srt[i] == sorted@[i]@);
            };
            assert forall|i2: int, j2: int| 0 <= i2 < j2 < sorted@.len() implies sorted@[i2]@.service_id
                != sorted@[j2]@.service_id by {
                assert(srt[i2] == sorted@[i2]@);
                assert(srt[j2] == sorted@[j2]@);
            };
            assert forall|k: Seq<char>|
                #[trigger] dir.dom().contains(k) && spec_matches(dir[k], query@, now) implies exists|i: int|
                0 <= i < sorted@.len() && sorted@[i]@.service_id == k by {
                let p = choose|p: int|
                    0 <= p < found@.len() && (#[trigger] found@[p])@.service_id == k;
                assert(fnd[p] == found@[p]@);
                assert(fnd.contains(fnd[p]));
                assert(srt.contains(fnd[p]));
                let q = choose|q: int| 0 <= q < srt.len() && srt[q] == fnd[p];
                assert(sorted@[q]@.service_id == k);
            };
        }
        let mut result = sorted;
        let ghost full = result@;
        match query.max_results {
            Some(m) => {
                if result.len() > m {
                    result.truncate(m);
                    proof {
                        assert(result@ =~= full.subrange(0, m as int));
                        assert(forall|i2: int|
                            0 <= i2 < result@.len() ==> result@[i2] == #[trigger] full[i2]);
                        assert forall|k: Seq<char>|
                            #[trigger] dir.dom().contains(k) && spec_matches(dir[k], query@, now)
                                && !(exists|i2: int|
                                0 <= i2 < result@.len() && result@[i2]@.service_id == k) implies forall|
                            i2: int,
                        |
                            0 <= i2 < result@.len() ==> (#[trigger] result@[i2]).timestamp
                                >= dir[k].timestamp by {
                            let p = choose|p: int|
                                0 <= p < full.len() && (#[trigger] full[p])@.service_id == k;
                            if p < m as int {
                                assert(result@[p]@.service_id == k);
                                assert(false);
                            }
                            assert forall|i2: int|
                                0 <= i2 < result@.len() implies (#[trigger] result@[i2]).timestamp
                                    >= dir[k].timestamp by {
                                assert(full[i2].timestamp >= full[p].timestamp);
                                assert(full[p]@ == dir[k]);
                            };
                        };
                    }
                }
            },
            None => {},
        }
        result
    }

    /// One tick of the cleanup task: evict every directory record whose
    /// lifetime has elapsed at `now`. Own registrations are never evicted
    /// by their own node; only remote copies expire.
    #[verifier::spinoff_prover]
    pub fn cleanup_expired(&mut self, now: u64)
        requires
            old(self).wf(),
        ensures
            final(self).wf(),
            final(self).node() == old(self).node(),
            final(self).own() == old(self).own(),
            forall|k: Seq<char>|
                final(self).directory().dom().contains(k) <==> (#[trigger] old(
                    self,
                ).directory().dom().contains(k)) && spec_announcement_live(
                    old(self).directory()[k],
                    now,
                ),
            forall|k: Seq<char>| #[trigger]
                final(self).directory().dom().contains(k) ==> final(self).directory()[k] == old(
                    self,
                ).directory()[k],
    {
        let ghost dir0 = self.directory();
        let entries = map_entries(&self.services);
        let ghost es = entries@;
        let mut i: usize = 0;
        while i < entries.len()
            invariant
                0 <= i <= entries.len(),
                es == entries@,
                self.own() == old(self).own(),
                self.node() == old(self).node(),
                dir0 == old(self).directory(),
                forall|j: int|
                    0 <= j < es.len() ==> dir0.contains_pair((#[trigger] es[j]).0@, es[j].1@),
                forall|k: Seq<char>| #[trigger]
                    dir0.dom().contains(k) ==> exists|j: int|
                        0 <= j < es.len() && es[j].0@ == k,
                forall|p: int, q: int| 0 <= p < q < es.len() ==> es[p].0@ != es[q].0@,
                forall|k: Seq<char>| #[trigger]
                    self.directory().dom().contains(k) ==> dir0.dom().contains(k)
                        && self.directory()[k] == dir0[k],
                forall|j: int|
                    0 <= j < i && !spec_announcement_live((#[trigger] es[j]).1@, now)
                        ==> !self.directory().dom().contains(es[j].0@),
                forall|k: Seq<char>|
                    #[trigger] dir0.dom().contains(k) && !self.directory().dom().contains(k)
                        ==> exists|j: int|
                        0 <= j < i && es[j].0@ == k && !spec_announcement_live(es[j].1@, now),
            decreases entries.len() - i,
        {
            if !is_live(entries[i].1.timestamp, entries[i].1.ttl, now) {
                let _removed = map_remove(&mut self.services, entries[i].0.as_str());
            }
            i += 1;
        }
        proof {
            assert forall|k: Seq<char>|
                #[trigger] dir0.dom().contains(k) && spec_announcement_live(dir0[k], now) implies self.directory().dom().contains(
                k,
            ) by {
                if !self.directory().dom().contains(k) {
                    let j = choose|j: int|
                        0 <= j < i && es[j].0@ == k && !spec_announcement_live(es[j].1@, now);
                    assert(dir0.contains_pair(es[j].0@, es[j].1@));
                }
            };
            assert forall|k: Seq<char>|
                self.directory().dom().contains(k) implies (#[trigger] dir0.dom().contains(k))
                && spec_announcement_live(dir0[k], now) by {
                if !spec_announcement_live(dir0[k], now) {
                    let j = choose|j: int| 0 <= j < es.len() && (#[trigger] es[j]).0@ == k;
                    assert(dir0.contains_pair(es[j].0@, es[j].1@));
                    assert(es[j].1@ == dir0[k]);
                }
            };
        }
    }

    /// One tick of the heartbeat: every own registration, with its
    /// timestamp refreshed to `now`, ready to be broadcast again. The
    /// stores themselves do not change.
    #[verifier::spinoff_prover]
    pub fn refresh_announcements(&self, now: u64) -> (r: Vec<ServiceAnnouncement>)
        requires
            self.wf(),
        ensures
            forall|i: int|
                0 <= i < r@.len() ==> self.own().dom().contains((#[trigger] r@[i])@.service_id)
                    && r@[i]@ == spec_refreshed(self.own()[r@[i]@.service_id], now),
            forall|k: Seq<char>| #[trigger]
                self.own().dom().contains(k) ==> exists|i: int|
                    0 <= i < r@.len() && r@[i]@.service_id == k,
            forall|i: int, j: int| 0 <= i < j < r@.len() ==> r@[i]@.service_id != r@[j]@.service_id,
    {
        let ghost own0 = self.own();
        let entries = map_entries(&self.my_services);
        let ghost es = entries@;
        let mut out: Vec<ServiceAnnouncement> = Vec::new();
        let mut i: usize = 0;
        while i < entries.len()
            invariant
                0 <= i <= entries.len(),
                es == entries@,
                out@.len() == i,
                self.wf(),
                own0 == self.own(),
                forall|j: int|
                    0 <= j < es.len() ==> own0.contains_pair((#[trigger] es[j]).0@, es[j].1@),
                forall|p: int, q: int| 0 <= p < q < es.len() ==> es[p].0@ != es[q].0@,
                forall|j: int|
                    0 <= j < i ==> (#[trigger] out@[j])@ == spec_refreshed(es[j].1@, now)
                        && out@[j]@.service_id == es[j].0@,
            decreases entries.len() - i,
        {
            let mut refreshed = entries[i].1.clone();
            refreshed.timestamp = now;
            proof {
                assert(refreshed@ =~= spec_refreshed(es[i as int].1@, now));
                assert(own0.contains_pair(es[i as int].0@, es[i as int].1@));
                assert(own0[es[i as int].0@].service_id == es[i as int].0@);
            }
            out.push(refreshed);
            i += 1;
        }
        proof {
            assert forall|i2: int| 0 <= i2 < out@.len() implies own0.dom().contains(
                (#[trigger] out@[i2])@.service_id,
            ) && out@[i2]@ == spec_refreshed(own0[out@[i2]@.service_id], now) by {
                assert(own0.contains_pair(es[i2].0@, es[i2].1@));
            };
            assert forall|k: Seq<char>| #[trigger] own0.dom().contains(k) implies exists|i2: int|
                0 <= i2 < out@.len() && out@[i2]@.service_id == k by {
                let j = choose|j: int| 0 <= j < es.len() && (#[trigger] es[j]).0@ == k;
                assert(out@[j]@.service_id == k);
            };
        }
        out
    }

    /// Every own registration that matches the query by name and
    /// capabilities; liveness is deliberately not checked on this path.
    #[verifier::spinoff_prover]
    fn collect_own_matches(&self, query: &ServiceQuery) -> (matching: Vec<ServiceAnnouncement>)
        requires
            self.wf(),
        ensures
            forall|p: int|
                0 <= p < matching@.len() ==> self.own().contains_pair(
                    (#[trigger] matching@[p])@.service_id,
                    matching@[p]@,
                ) && spec_matches_name_caps(matching@[p]@, query@),
            forall|p: int, q: int|
                0 <= p < q < matching@.len() ==> matching@[p]@.service_id
                    != matching@[q]@.service_id,
            forall|k: Seq<char>|
                #[trigger] self.own().dom().contains(k) && spec_matches_name_caps(
                    self.own()[k],
                    query@,
                ) ==> exists|p: int|
                    0 <= p < matching@.len() && matching@[p]@.service_id == k,
    {
        let ghost own0 = self.own();
        let mine = self.get_my_services();
        let ghost ms = mine@;
        let mut matching: Vec<ServiceAnnouncement> = Vec::new();
        let mut i: usize = 0;
        while i < mine.len()
            invariant
                0 <= i <= mine.len(),
                ms == mine@,
                self.wf(),
                own0 == self.own(),
                forall|j: int|
                    0 <= j < ms.len() ==> own0.contains_pair(
                        (#[trigger] ms[j])@.service_id,
                        ms[j]@,
                    ),
                forall|k: Seq<char>| #[trigger]
                    own0.dom().contains(k) ==> exists|j: int|
                        0 <= j < ms.len() && ms[j]@.service_id == k,
                forall|p: int, q: int|
                    0 <= p < q < ms.len() ==> ms[p]@.service_id != ms[q]@.service_id,
                forall|p: int|
                    0 <= p < matching@.len() ==> own0.contains_pair(
                        (#[trigger] matching@[p])@.service_id,
                        matching@[p]@,
                    ) && spec_matches_name_caps(matching@[p]@, query@),
                forall|p: int|
                    0 <= p < matching@.len() ==> exists|j: int|
                        0 <= j < i && (#[trigger] matching@[p])@.service_id == ms[j]@.service_id,
                forall|p: int, q: int|
                    0 <= p < q < matching@.len() ==> matching@[p]@.service_id
                        != matching@[q]@.service_id,
                forall|j: int|
                    0 <= j < i && spec_matches_name_caps((#[trigger] ms[j])@, query@)
                        ==> exists|p: int|
                        0 <= p < matching@.len() && matching@[p]@.service_id
                            == ms[j]@.service_id,
            decreases mine.len() - i,
        {
            let ghost fl = matching@;
            let matched = Self::service_matches_query(&mine[i], query);
            if matched {
                proof {
                    assert forall|p: int| 0 <= p < matching@.len() implies (
                    #[trigger] matching@[p])@.service_id != ms[i as int]@.service_id by {
                        let j = choose|j: int|
                            0 <= j < i && matching@[p]@.service_id == ms[j]@.service_id;
                        assert(ms[j]@.service_id != ms[i as int]@.service_id);
                    };
                }
                matching.push(mine[i].clone());
                proof {
                    assert(matching@[fl.len() as int]@ == ms[i as int]@);
                }
            }
            proof {
                assert forall|j: int|
                    0 <= j < i + 1 && spec_matches_name_caps(
                        (#[trigger] ms[j])@,
                        query@,
                    ) implies exists|p: int|
                    0 <= p < matching@.len() && matching@[p]@.service_id
                        == ms[j]@.service_id by {
                    if j < i {
                        let p = choose|p: int|
                            0 <= p < fl.len() && fl[p]@.service_id == ms[j]@.service_id;
                        assert(matching@[p]@.service_id == ms[j]@.service_id);
                    } else {
                        assert(matched);
                        assert(matching@[fl.len() as int]@.service_id
                            == ms[i as int]@.service_id);
                    }
                };
            }
            i += 1;
        }
        proof {
            assert forall|k: Seq<char>|
                #[trigger] own0.dom().contains(k) && spec_matches_name_caps(
                    own0[k],
                    query@,
                ) implies exists|p: int|
                0 <= p < matching@.len() && matching@[p]@.service_id == k by {
                let j = choose|j: int| 0 <= j < ms.len() && ms[j]@.service_id == k;
                assert(own0.contains_pair(ms[j]@.service_id, ms[j]@));
                assert(ms[j]@ == own0[k]);
            };
        }
        matching
    }

    /// Process one inbound message from the discovery topic, already
    /// parsed into a wire value: upsert announcements from other nodes
    /// (own echoes are ignored), upsert every record of a query response,
    /// and answer queries from the own-services store. A value that is
    /// not one of the three shapes changes nothing and is dropped. The
    /// returned envelope, if any, is the answer to broadcast back.
    #[verifier::rlimit(100)]
    #[verifier::spinoff_prover]
    pub fn handle_discovery_message(&mut self, v: &JsonValue, now: u64) -> (r: Option<Envelope>)
        requires
            old(self).wf(),
        ensures
            final(self).wf(),
            final(self).node() == old(self).node(),
            final(self).own() == old(self).own(),
            match spec_envelope(*v) {
                Some(EnvelopeModel::Announcement(a)) => r is None && final(self).directory() == (
                if a.node_id != old(self).node() {
                    old(self).directory().insert(a.service_id, a)
                } else {
                    old(self).directory()
                }),
                Some(EnvelopeModel::Query { query_id, query }) => final(self).directory() == old(
                    self,
                ).directory() && (match r {
                    Some(env) => env@ matches EnvelopeModel::QueryResponse(resp) && {
                        &&& resp.query_id == query_id
                        &&& resp.timestamp == now
                        &&& resp.services.len() > 0
                        &&& forall|i: int|
                            0 <= i < resp.services.len() ==> old(self).own().contains_pair(
                                (#[trigger] resp.services[i]).service_id,
                                resp.services[i],
                            ) && spec_matches_name_caps(resp.services[i], query)
                        &&& forall|i: int, j: int|
                            0 <= i < j < resp.services.len() ==> (
                            #[trigger] resp.services[i]).service_id != (
                            #[trigger] resp.services[j]).service_id
                        &&& forall|k: Seq<char>|
                            #[trigger] old(self).own().dom().contains(k) && spec_matches_name_caps(
                                old(self).own()[k],
                                query,
                            ) ==> exists|i: int|
                                0 <= i < resp.services.len() && resp.services[i].service_id == k
                    },
                    None => forall|k: Seq<char>| #[trigger]
                        old(self).own().dom().contains(k) ==> !spec_matches_name_caps(
                            old(self).own()[k],
                            query,
                        ),
                }),
                Some(EnvelopeModel::QueryResponse(resp)) => r is None && final(self).directory()
                    == spec_insert_all(old(self).directory(), resp.services),
                None => r is None && final(self).directory() == old(self).directory(),
            },
    {
        let decoded = decode_envelope(v);
        match decoded {
            None => None,
            Some(Envelope::Announcement(a)) => {
                if !a.node_id.eq(&self.node_id) {
                    let ghost am = a@;
                    let key = a.service_id.clone();
                    map_insert(&mut self.services, key, a);
                }
                None
            },
            Some(Envelope::Query { query_id, query }) => {
                let ghost own0 = self.own();
                let matching = self.collect_own_matches(&query);
                if matching.len() > 0 {
                    proof {
                        assert forall|k: Seq<char>|
                            #[trigger] own0.dom().contains(k) && spec_matches_name_caps(
                                own0[k],
                                query@,
                            ) implies exists|i: int|
                            0 <= i < matching.deep_view().len() && matching.deep_view()[i].service_id
                                == k by {
                            let p = choose|p: int|
                                0 <= p < matching@.len() && (#[trigger] matching@[p])@.service_id
                                    == k;
                            assert(matching.deep_view()[p] == matching@[p]@);
                        };
                    }
                    let response = ServiceQueryResponse {
                        services: matching,
                        query_id,
                        timestamp: now,
                    };
                    Some(Envelope::QueryResponse(response))
                } else {
                    proof {
                        assert forall|k: Seq<char>| #[trigger]
                            own0.dom().contains(k) implies !spec_matches_name_caps(
                            own0[k],
                            query@,
                        ) by {
                            if spec_matches_name_caps(own0[k], query@) {
                                assert(exists|p: int|
                                    0 <= p < matching@.len() && matching@[p]@.service_id == k);
                                assert(false);
                            }
                        };
                    }
                    None
                }
            },
            Some(Envelope::QueryResponse(resp)) => {
                let ghost dir0 = self.directory();
                let ghost sv = resp.services.deep_view();
                let mut i: usize = 0;
                while i < resp.services.len()
                    invariant
                        0 <= i <= resp.services.len(),
                        sv == resp.services.deep_view(),
                        resp.services@.len() == sv.len(),
                        self.wf(),
                        self.own() == old(self).own(),
                        self.node() == old(self).node(),
                        self.directory() == spec_insert_all(dir0, sv.take(i as int)),
                    decreases resp.services.len() - i,
                {
                    let a = resp.services[i].clone();
                    let ghost am = a@;
                    let key = a.service_id.clone();
                    map_insert(&mut self.services, key, a);
                    proof {
                        assert(am == sv[i as int]);
                        assert(sv.take(i + 1 as int) =~= sv.take(i as int).push(am));
                        lemma_insert_all_push(dir0, sv.take(i as int), am);
                    }
                    i += 1;
                }
                proof {
                    assert(sv.take(sv.len() as int) =~= sv);
                    lemma_insert_all_wf(dir0, sv);
                }
                None
            },
        }
    }

    /// Remove a service, both from the directory and from this node's own
    /// registrations; hand back the record that was removed, preferring
    /// the directory copy where both stores held the identifier.
    pub fn remove_service(&mut self, service_id: &str) -> (r: Option<ServiceAnnouncement>)
        requires
            old(self).wf(),
        ensures
            final(self).wf(),
            final(self).node() == old(self).node(),
            final(self).directory() == old(self).directory().remove(service_id@),
            final(self).own() == old(self).own().remove(service_id@),
            match r {
                Some(a) => old(self).directory().contains_pair(service_id@, a@) || (!old(
                    self,
                ).directory().dom().contains(service_id@) && old(self).own().contains_pair(
                    service_id@,
                    a@,
                )),
                None => !old(self).directory().dom().contains(service_id@) && !old(
                    self,
                ).own().dom().contains(service_id@),
            },
    {
        let from_directory = map_remove(&mut self.services, service_id);
        let from_own = map_remove(&mut self.my_services, service_id);
        match from_directory {
            Some(a) => Some(a),
            None => from_own,
        }
    }
}

} // verus!
