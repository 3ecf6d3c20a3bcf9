use vstd::prelude::*;

use crate::service_registry::AnnouncementModel;
use crate::service_registry::ServiceAnnouncement;

verus! {

#[verifier::external_type_specification]
#[verifier::external_body]
#[verifier::reject_recursive_types(K)]
#[verifier::reject_recursive_types(V)]
#[verifier::reject_recursive_types(S)]
pub struct ExDashMap<K, V, S>(dashmap::DashMap<K, V, S>);

/// A concurrent directory map from service identifier to record.
pub type DirectoryMap = dashmap::DashMap<String, ServiceAnnouncement>;

/// What a directory map holds: each key bound to the image of its record.
pub uninterp spec fn map_contents(m: DirectoryMap) -> Map<Seq<char>, AnnouncementModel>;

/// The empty directory contents.
pub open spec fn empty_contents() -> Map<Seq<char>, AnnouncementModel> {
    Map::empty()
}

/// Relies on dashmap::DashMap::new: the new map is empty.
#[verifier::external_body]
pub fn map_new() -> (r: DirectoryMap)
    ensures
        map_contents(r) == empty_contents(),
{
    dashmap::DashMap::new()
}

/// Relies on dashmap::DashMap::insert: binds the key to the value,
/// replacing any earlier binding of the same key.
#[verifier::external_body]
pub fn map_insert(m: &mut DirectoryMap, key: String, value: ServiceAnnouncement)
    ensures
        map_contents(*final(m)) == map_contents(*old(m)).insert(key@, value@),
{
    m.insert(key, value);
}

/// Relies on dashmap::DashMap::get: returns a clone of the record bound
/// to the key, if any.
#[verifier::external_body]
pub fn map_get(m: &DirectoryMap, key: &str) -> (r: Option<ServiceAnnouncement>)
    ensures
        match r {
            Some(a) => map_contents(*m).contains_pair(key@, a@),
            None => !map_contents(*m).dom().contains(key@),
        },
{
    m.get(key).map(|e| e.value().clone())
}

/// Relies on dashmap::DashMap::remove: unbinds the key and hands back the
/// record it was bound to, if any.
#[verifier::external_body]
pub fn map_remove(m: &mut DirectoryMap, key: &str) -> (r: Option<ServiceAnnouncement>)
    ensures
        map_contents(*final(m)) == map_contents(*old(m)).remove(key@),
        match r {
            Some(a) => map_contents(*old(m)).contains_pair(key@, a@),
            None => !map_contents(*old(m)).dom().contains(key@),
        },
{
    m.remove(key).map(|(_, a)| a)
}

/// Relies on dashmap::DashMap::iter: visits every entry exactly once.
/// The order of the walk is arbitrary and no contract names it.
#[verifier::external_body]
pub fn map_entries(m: &DirectoryMap) -> (r: Vec<(String, ServiceAnnouncement)>)
    ensures
        forall|i: int|
            0 <= i < r@.len() ==> map_contents(*m).contains_pair(#[trigger] r@[i].0@, r@[i].1@),
        forall|k: Seq<char>|
            #[trigger] map_contents(*m).dom().contains(k) ==> exists|i: int|
                0 <= i < r@.len() && r@[i].0@ == k,
        forall|i: int, j: int| 0 <= i < j < r@.len() ==> r@[i].0@ != r@[j].0@,
{
    m.iter().map(|e| (e.key().clone(), e.value().clone())).collect()
}

} // verus!
