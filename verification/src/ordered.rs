//! The insertion-ordered hash map of the `ordermap` crate, as the cluster of a
//! connection and the registry of connections use it. Nothing in this file is
//! proved: each function calls the map and states what the call does to the
//! entries.

use crate::entries::distinct_keys;
use crate::entries::has_key;
use crate::entries::position;
use crate::entries::put;
use crate::entries::swap_removed;
use crate::config::Registration;
use crate::config::RegistrationView;
use crate::server::Server;
use crate::server::ServerView;
use ordermap::OrderMap;
use vstd::prelude::*;

verus! {

/// `ordermap::OrderMap`: a hash map that keeps its entries in one sequence,
/// whose order follows from the insertions and removals alone.
#[verifier::external_type_specification]
#[verifier::external_body]
#[verifier::reject_recursive_types(K)]
#[verifier::reject_recursive_types(V)]
#[verifier::reject_recursive_types(S)]
pub struct ExOrderMap<K, V, S>(OrderMap<K, V, S>);

/// The entries of a map of servers by name, in the map's order.
pub uninterp spec fn cluster_entries(m: OrderMap<String, Server>) -> Seq<(Seq<char>, ServerView)>;

/// `OrderMap::new`: a map without entries.
#[verifier::external_body]
pub(crate) fn cluster_map_new() -> (m: OrderMap<String, Server>)
    ensures
        cluster_entries(m) == Seq::<(Seq<char>, ServerView)>::empty(),
{
    OrderMap::new()
}

/// `OrderMap::len`: the number of entries.
#[verifier::external_body]
pub(crate) fn cluster_map_len(m: &OrderMap<String, Server>) -> (n: usize)
    ensures
        n == cluster_entries(*m).len(),
{
    m.len()
}

/// `OrderMap::insert`, on a map whose keys are distinct: the value of a key
/// that is present is replaced where it stands, a new key is appended.
#[verifier::external_body]
pub(crate) fn cluster_map_insert(m: &mut OrderMap<String, Server>, key: String, value: Server)
    requires
        distinct_keys(cluster_entries(*old(m))),
    ensures
        cluster_entries(*final(m)) == put(cluster_entries(*old(m)), key@, value@),
{
    m.insert(key, value);
}

/// `OrderMap::remove`, on a map whose keys are distinct: the entry of the key
/// leaves and the last entry takes its place; without the key nothing changes.
#[verifier::external_body]
pub(crate) fn cluster_map_remove(m: &mut OrderMap<String, Server>, key: &str)
    requires
        distinct_keys(cluster_entries(*old(m))),
    ensures
        cluster_entries(*final(m)) == swap_removed(cluster_entries(*old(m)), key@),
{
    m.remove(key);
}

/// `OrderMap::get`, on a map whose keys are distinct: the value of the key,
/// where it is present.
#[verifier::external_body]
pub(crate) fn cluster_map_get<'a>(m: &'a OrderMap<String, Server>, key: &str) -> (r: Option<&'a Server>)
    requires
        distinct_keys(cluster_entries(*m)),
    ensures
        r is Some <==> has_key(cluster_entries(*m), key@),
        r is Some ==> r.unwrap()@ == cluster_entries(*m)[position(cluster_entries(*m), key@)].1,
{
    m.get(key)
}

/// `OrderMap::get_index`: the value of the entry at a place within the map.
#[verifier::external_body]
pub(crate) fn cluster_map_get_index<'a>(m: &'a OrderMap<String, Server>, index: usize) -> (r: Option<&'a Server>)
    ensures
        r is Some <==> index < cluster_entries(*m).len(),
        r is Some ==> r.unwrap()@ == cluster_entries(*m)[index as int].1,
{
    m.get_index(index).map(|entry| entry.1)
}

/// `OrderMap::get_index_mut`: the value of the entry at a place within the map,
/// to be changed where it stands; the key and the other entries stay.
#[verifier::external_body]
pub(crate) fn cluster_map_get_index_mut<'a>(m: &'a mut OrderMap<String, Server>, index: usize) -> (r: Option<&'a mut Server>)
    ensures
        r is Some <==> index < cluster_entries(*old(m)).len(),
        r is Some ==> (*r.unwrap())@ == cluster_entries(*old(m))[index as int].1
            && cluster_entries(*final(m)) == cluster_entries(*old(m)).update(
            index as int,
            (cluster_entries(*old(m))[index as int].0, (*final(r.unwrap()))@),
        ),
        r is None ==> cluster_entries(*final(m)) == cluster_entries(*old(m)),
{
    m.get_index_mut(index).map(|entry| entry.1)
}

/// `OrderMap::clone`: a map with the same entries in the same order.
#[verifier::external_body]
pub(crate) fn cluster_map_clone(m: &OrderMap<String, Server>) -> (r: OrderMap<String, Server>)
    ensures
        cluster_entries(r) == cluster_entries(*m),
{
    m.clone()
}

/// The entries of a map of registrations by handle, in the map's order.
pub uninterp spec fn registry_entries(m: OrderMap<u128, Registration>) -> Seq<
    (u128, RegistrationView),
>;

/// `OrderMap::new`: a map without entries.
#[verifier::external_body]
pub(crate) fn registry_map_new() -> (m: OrderMap<u128, Registration>)
    ensures
        registry_entries(m) == Seq::<(u128, RegistrationView)>::empty(),
{
    OrderMap::new()
}

/// `OrderMap::len`: the number of entries.
#[verifier::external_body]
pub(crate) fn registry_map_len(m: &OrderMap<u128, Registration>) -> (n: usize)
    ensures
        n == registry_entries(*m).len(),
{
    m.len()
}

/// `OrderMap::insert`, on a map whose keys are distinct: the value of a key
/// that is present is replaced where it stands, a new key is appended.
#[verifier::external_body]
pub(crate) fn registry_map_insert(m: &mut OrderMap<u128, Registration>, key: u128, value: Registration)
    requires
        distinct_keys(registry_entries(*old(m))),
    ensures
        registry_entries(*final(m)) == put(registry_entries(*old(m)), key, value@),
{
    m.insert(key, value);
}

/// `OrderMap::remove`, on a map whose keys are distinct: the entry of the key
/// leaves and the last entry takes its place; without the key nothing changes.
#[verifier::external_body]
pub(crate) fn registry_map_remove(m: &mut OrderMap<u128, Registration>, key: u128)
    requires
        distinct_keys(registry_entries(*old(m))),
    ensures
        registry_entries(*final(m)) == swap_removed(registry_entries(*old(m)), key),
{
    m.remove(&key);
}

/// `OrderMap::get`, on a map whose keys are distinct: the value of the key,
/// where it is present.
#[verifier::external_body]
pub(crate) fn registry_map_get<'a>(m: &'a OrderMap<u128, Registration>, key: u128) -> (r: Option<
    &'a Registration,
>)
    requires
        distinct_keys(registry_entries(*m)),
    ensures
        r is Some <==> has_key(registry_entries(*m), key),
        r is Some ==> r.unwrap()@ == registry_entries(*m)[position(registry_entries(*m), key)].1,
{
    m.get(&key)
}

/// `OrderMap::get_mut`, on a map whose keys are distinct: the value of the
/// key, where it is present, to be changed where it stands; the key and the
/// other entries stay.
#[verifier::external_body]
pub(crate) fn registry_map_get_mut<'a>(m: &'a mut OrderMap<u128, Registration>, key: u128) -> (r:
    Option<&'a mut Registration>)
    requires
        distinct_keys(registry_entries(*old(m))),
    ensures
        r is Some <==> has_key(registry_entries(*old(m)), key),
        r is Some ==> (*r.unwrap())@ == registry_entries(*old(m))[position(
            registry_entries(*old(m)),
            key,
        )].1 && registry_entries(*final(m)) == registry_entries(*old(m)).update(
            position(registry_entries(*old(m)), key),
            (key, (*final(r.unwrap()))@),
        ),
        r is None ==> registry_entries(*final(m)) == registry_entries(*old(m)),
{
    m.get_mut(&key)
}

} // verus!
