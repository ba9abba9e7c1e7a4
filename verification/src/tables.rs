//! Concurrent maps of the `dashmap` crate that hold the library's tables.
//!
//! The map type is declared to Verus as an opaque type. What a map holds is
//! given a name per table (a function of the map value), and each map method
//! the library calls has a wrapper whose contract states, over that name,
//! what the method does to the contents and what it returns, as the crate's
//! documentation and source describe it.
use vstd::prelude::*;
use dashmap::DashMap;
use crate::types::FdEntry;
use crate::termination::TerminationRecord;
use crate::wasm_logs::WasmLogRing;
use crate::types::UserStreamChannel;
use crate::user_stream::UserStreamHub;

verus! {

/// The `dashmap::DashMap` type, opaque to Verus.
#[verifier::external_type_specification]
#[verifier::external_body]
#[verifier::reject_recursive_types(K)]
#[verifier::reject_recursive_types(V)]
#[verifier::reject_recursive_types(S)]
pub struct ExDashMap<K, V, S>(DashMap<K, V, S>);

/// The descriptors held by a descriptor map: descriptor number to entry.
pub uninterp spec fn fd_map_contents(m: DashMap<i32, FdEntry>) -> Map<i32, FdEntry>;

/// `DashMap::new`: an empty map.
#[verifier::external_body]
pub(crate) fn fd_map_new() -> (r: DashMap<i32, FdEntry>)
    ensures
        forall|k: i32| !fd_map_contents(r).contains_key(k),
{
    DashMap::new()
}

/// `DashMap::insert`: binds `key` to `value`, replacing and returning an
/// earlier value of `key`.
#[verifier::external_body]
pub(crate) fn fd_map_insert(m: &mut DashMap<i32, FdEntry>, key: i32, value: FdEntry) -> (r: Option<FdEntry>)
    ensures
        fd_map_contents(*final(m)) == fd_map_contents(*old(m)).insert(key, value),
        match r {
            Some(v) => fd_map_contents(*old(m)).contains_key(key) && v == fd_map_contents(*old(m))[key],
            None => !fd_map_contents(*old(m)).contains_key(key),
        },
{
    m.insert(key, value)
}

/// `DashMap::remove`: unbinds `key`, returning the key and its value if it
/// was bound.
#[verifier::external_body]
pub(crate) fn fd_map_remove(m: &mut DashMap<i32, FdEntry>, key: i32) -> (r: Option<(i32, FdEntry)>)
    ensures
        fd_map_contents(*final(m)) == fd_map_contents(*old(m)).remove(key),
        match r {
            Some((k, v)) => k == key && fd_map_contents(*old(m)).contains_key(key) && v
                == fd_map_contents(*old(m))[key],
            None => !fd_map_contents(*old(m)).contains_key(key),
        },
{
    m.remove(&key)
}

/// `DashMap::contains_key`.
#[verifier::external_body]
pub(crate) fn fd_map_contains(m: &DashMap<i32, FdEntry>, key: i32) -> (r: bool)
    ensures
        r == fd_map_contents(*m).contains_key(key),
{
    m.contains_key(&key)
}

/// The keys that `DashMap::iter` visits: every bound key once, in an order
/// the map chooses.
#[verifier::external_body]
pub(crate) fn fd_map_keys(m: &DashMap<i32, FdEntry>) -> (r: Vec<i32>)
    ensures
        r@.to_set() == fd_map_contents(*m).dom(),
        r@.no_duplicates(),
{
    m.iter().map(|e| *e.key()).collect()
}

/// The records held by a termination map: key text to record.
pub uninterp spec fn termination_map_contents(m: DashMap<String, TerminationRecord>) -> Map<Seq<char>, TerminationRecord>;

/// `DashMap::new`: an empty map.
#[verifier::external_body]
pub(crate) fn termination_map_new() -> (r: DashMap<String, TerminationRecord>)
    ensures
        forall|k: Seq<char>| !termination_map_contents(r).contains_key(k),
{
    DashMap::new()
}

/// `DashMap::insert`: binds `key` to `value`, replacing an earlier value.
#[verifier::external_body]
pub(crate) fn termination_map_insert(m: &mut DashMap<String, TerminationRecord>, key: String, value: TerminationRecord)
    ensures
        termination_map_contents(*final(m)) == termination_map_contents(*old(m)).insert(key@, value),
{
    let _ = m.insert(key, value);
}

/// `DashMap::remove`: unbinds `key`, returning its value if it was bound.
#[verifier::external_body]
pub(crate) fn termination_map_remove(m: &mut DashMap<String, TerminationRecord>, key: &str) -> (r: Option<TerminationRecord>)
    ensures
        termination_map_contents(*final(m)) == termination_map_contents(*old(m)).remove(key@),
        match r {
            Some(v) => termination_map_contents(*old(m)).contains_key(key@) && v == termination_map_contents(*old(m))[key@],
            None => !termination_map_contents(*old(m)).contains_key(key@),
        },
{
    m.remove(key).map(|(_, v)| v)
}

/// The rings held by a log map: key text to ring.
pub uninterp spec fn log_map_contents(m: DashMap<String, WasmLogRing>) -> Map<Seq<char>, WasmLogRing>;

/// `DashMap::new`: an empty map.
#[verifier::external_body]
pub(crate) fn log_map_new() -> (r: DashMap<String, WasmLogRing>)
    ensures
        forall|k: Seq<char>| !log_map_contents(r).contains_key(k),
{
    DashMap::new()
}

/// `DashMap::insert`: binds `key` to `value`, replacing an earlier value.
#[verifier::external_body]
pub(crate) fn log_map_insert(m: &mut DashMap<String, WasmLogRing>, key: String, value: WasmLogRing)
    ensures
        log_map_contents(*final(m)) == log_map_contents(*old(m)).insert(key@, value),
{
    let _ = m.insert(key, value);
}

/// `DashMap::remove`: unbinds `key`, returning its value if it was bound.
#[verifier::external_body]
pub(crate) fn log_map_remove(m: &mut DashMap<String, WasmLogRing>, key: &str) -> (r: Option<WasmLogRing>)
    ensures
        log_map_contents(*final(m)) == log_map_contents(*old(m)).remove(key@),
        match r {
            Some(v) => log_map_contents(*old(m)).contains_key(key@) && v == log_map_contents(*old(m))[key@],
            None => !log_map_contents(*old(m)).contains_key(key@),
        },
{
    m.remove(key).map(|(_, v)| v)
}

/// The channels held by a stream map: stream id to channel.
pub uninterp spec fn stream_map_contents(m: DashMap<u32, UserStreamChannel>) -> Map<u32, UserStreamChannel>;

/// `DashMap::new`: an empty map.
#[verifier::external_body]
pub(crate) fn stream_map_new() -> (r: DashMap<u32, UserStreamChannel>)
    ensures
        forall|k: u32| !stream_map_contents(r).contains_key(k),
{
    DashMap::new()
}

/// `DashMap::insert`: binds `key` to `value`, replacing an earlier value.
#[verifier::external_body]
pub(crate) fn stream_map_insert(m: &mut DashMap<u32, UserStreamChannel>, key: u32, value: UserStreamChannel)
    ensures
        stream_map_contents(*final(m)) == stream_map_contents(*old(m)).insert(key, value),
{
    let _ = m.insert(key, value);
}

/// `DashMap::remove`: unbinds `key`, returning its value if it was bound.
#[verifier::external_body]
pub(crate) fn stream_map_remove(m: &mut DashMap<u32, UserStreamChannel>, key: u32) -> (r: Option<UserStreamChannel>)
    ensures
        stream_map_contents(*final(m)) == stream_map_contents(*old(m)).remove(key),
        match r {
            Some(v) => stream_map_contents(*old(m)).contains_key(key) && v == stream_map_contents(*old(m))[key],
            None => !stream_map_contents(*old(m)).contains_key(key),
        },
{
    m.remove(&key).map(|(_, v)| v)
}

/// `DashMap::contains_key`.
#[verifier::external_body]
pub(crate) fn stream_map_contains(m: &DashMap<u32, UserStreamChannel>, key: u32) -> (r: bool)
    ensures
        r == stream_map_contents(*m).contains_key(key),
{
    m.contains_key(&key)
}

/// The keys that `DashMap::iter` visits: every bound key once, in an order
/// the map chooses.
#[verifier::external_body]
pub(crate) fn stream_map_keys(m: &DashMap<u32, UserStreamChannel>) -> (r: Vec<u32>)
    ensures
        r@.to_set() == stream_map_contents(*m).dom(),
        r@.no_duplicates(),
{
    m.iter().map(|e| *e.key()).collect()
}

/// The hubs held by a hub map: execution id to hub.
pub uninterp spec fn hub_map_contents(m: DashMap<String, UserStreamHub>) -> Map<Seq<char>, UserStreamHub>;

/// `DashMap::new`: an empty map.
#[verifier::external_body]
pub(crate) fn hub_map_new() -> (r: DashMap<String, UserStreamHub>)
    ensures
        forall|k: Seq<char>| !hub_map_contents(r).contains_key(k),
{
    DashMap::new()
}

/// `DashMap::insert`: binds `key` to `value`, replacing an earlier value.
#[verifier::external_body]
pub(crate) fn hub_map_insert(m: &mut DashMap<String, UserStreamHub>, key: String, value: UserStreamHub)
    ensures
        hub_map_contents(*final(m)) == hub_map_contents(*old(m)).insert(key@, value),
{
    let _ = m.insert(key, value);
}

/// `DashMap::remove`: unbinds `key`, returning its value if it was bound.
#[verifier::external_body]
pub(crate) fn hub_map_remove(m: &mut DashMap<String, UserStreamHub>, key: &str) -> (r: Option<UserStreamHub>)
    ensures
        hub_map_contents(*final(m)) == hub_map_contents(*old(m)).remove(key@),
        match r {
            Some(v) => hub_map_contents(*old(m)).contains_key(key@) && v == hub_map_contents(*old(m))[key@],
            None => !hub_map_contents(*old(m)).contains_key(key@),
        },
{
    m.remove(key).map(|(_, v)| v)
}

} // verus!
