//! The four concurrent maps of the shared state, each seen through the
//! entries it holds.
//!
//! Every function here is a thin call into `dashmap`; its contract is taken
//! on trust from that crate's behaviour under exclusive (`&mut`) or shared
//! read-only (`&`) access, and is what the rest of the crate is proved from.
//! Where a value is handed out, it is a copy made by the value's own
//! `clone`, which is proved to keep what the value holds.

use crate::machine::{ActiveView, ClientView};
use crate::models::StreamView;
use crate::state::{AccountState, ActiveChannel, ChannelRouting, ClientState};
use dashmap::DashMap;
use vstd::prelude::*;

verus! {

#[verifier::external_type_specification]
#[verifier::external_body]
#[verifier::reject_recursive_types(K)]
#[verifier::reject_recursive_types(V)]
#[verifier::reject_recursive_types(S)]
pub struct ExDashMap<K, V, S>(DashMap<K, V, S>);

/// The models of a list of keys, in the list's order.
pub open spec fn key_views(keys: Seq<String>) -> Seq<Seq<char>> {
    keys.map_values(|k: String| k@)
}

/// The routing table without entries.
pub open spec fn no_routes() -> Map<Seq<char>, Seq<StreamView>> {
    Map::empty()
}

/// The live-channel table without entries.
pub open spec fn no_actives() -> Map<Seq<char>, ActiveView> {
    Map::empty()
}

/// The account table without entries.
pub open spec fn no_accounts() -> Map<u64, AccountState> {
    Map::empty()
}

/// The client table without entries.
pub open spec fn no_clients() -> Map<Seq<char>, ClientView> {
    Map::empty()
}

/// The routing that a routing table holds for each channel id.
pub uninterp spec fn route_entries(m: DashMap<String, ChannelRouting>) -> Map<
    Seq<char>,
    Seq<StreamView>,
>;

/// The live channel that a table holds for each channel id.
pub uninterp spec fn active_entries(m: DashMap<String, ActiveChannel>) -> Map<Seq<char>, ActiveView>;

/// The quota bucket that a table holds for each account id.
pub uninterp spec fn account_entries(m: DashMap<u64, AccountState>) -> Map<u64, AccountState>;

/// The client that a table holds for each client id.
pub uninterp spec fn client_entries(m: DashMap<String, ClientState>) -> Map<Seq<char>, ClientView>;

// ---------------------------------------------------------------- routes

/// `DashMap::new`: a table without entries.
#[verifier::external_body]
pub(crate) fn routes_new() -> (made: DashMap<String, ChannelRouting>)
    ensures
        route_entries(made) == no_routes(),
{
    DashMap::new()
}

/// `DashMap::get`: a copy of the value stored under `key`, if there is one.
#[verifier::external_body]
pub(crate) fn routes_get(m: &DashMap<String, ChannelRouting>, key: &str) -> (found: Option<
    ChannelRouting,
>)
    ensures
        found.is_some() == route_entries(*m).contains_key(key@),
        found.is_some() ==> found.unwrap()@ == route_entries(*m)[key@],
{
    m.get(key).map(|e| e.value().clone())
}

/// `DashMap::insert`: the entry for `key` becomes `value`, every other entry
/// stays.
#[verifier::external_body]
pub(crate) fn routes_insert(m: &mut DashMap<String, ChannelRouting>, key: String, value: ChannelRouting)
    ensures
        route_entries(*final(m)) == route_entries(*old(m)).insert(key@, value@),
{
    m.insert(key, value);
}

/// `DashMap::remove`: the entry for `key` leaves, every other entry stays.
#[verifier::external_body]
pub(crate) fn routes_remove(m: &mut DashMap<String, ChannelRouting>, key: &str)
    ensures
        route_entries(*final(m)) == route_entries(*old(m)).remove(key@),
{
    m.remove(key);
}

/// `DashMap::iter`: every key of the table exactly once, in no stated order.
#[verifier::external_body]
pub(crate) fn routes_keys(m: &DashMap<String, ChannelRouting>) -> (keys: Vec<String>)
    ensures
        key_views(keys@).no_duplicates(),
        key_views(keys@).to_set() == route_entries(*m).dom(),
{
    m.iter().map(|e| e.key().clone()).collect()
}

// ---------------------------------------------------------------- actives

/// `DashMap::new`: a table without entries.
#[verifier::external_body]
pub(crate) fn actives_new() -> (made: DashMap<String, ActiveChannel>)
    ensures
        active_entries(made) == no_actives(),
{
    DashMap::new()
}

/// `DashMap::get`: a copy of the value stored under `key`, if there is one.
#[verifier::external_body]
pub(crate) fn actives_get(m: &DashMap<String, ActiveChannel>, key: &str) -> (found: Option<
    ActiveChannel,
>)
    ensures
        found.is_some() == active_entries(*m).contains_key(key@),
        found.is_some() ==> found.unwrap()@ == active_entries(*m)[key@],
{
    m.get(key).map(|e| e.value().clone())
}

/// `DashMap::insert`: the entry for `key` becomes `value`, every other entry
/// stays.
#[verifier::external_body]
pub(crate) fn actives_insert(m: &mut DashMap<String, ActiveChannel>, key: String, value: ActiveChannel)
    ensures
        active_entries(*final(m)) == active_entries(*old(m)).insert(key@, value@),
{
    m.insert(key, value);
}

/// `DashMap::remove`: the entry for `key` leaves and its value is returned,
/// every other entry stays.
#[verifier::external_body]
pub(crate) fn actives_remove(m: &mut DashMap<String, ActiveChannel>, key: &str) -> (taken: Option<
    ActiveChannel,
>)
    ensures
        active_entries(*final(m)) == active_entries(*old(m)).remove(key@),
        taken.is_some() == active_entries(*old(m)).contains_key(key@),
        taken.is_some() ==> taken.unwrap()@ == active_entries(*old(m))[key@],
{
    m.remove(key).map(|e| e.1)
}

/// `DashMap::iter`: every key of the table exactly once, in no stated order.
#[verifier::external_body]
pub(crate) fn actives_keys(m: &DashMap<String, ActiveChannel>) -> (keys: Vec<String>)
    ensures
        key_views(keys@).no_duplicates(),
        key_views(keys@).to_set() == active_entries(*m).dom(),
{
    m.iter().map(|e| e.key().clone()).collect()
}

// ---------------------------------------------------------------- accounts

/// `DashMap::new`: a table without entries.
#[verifier::external_body]
pub(crate) fn accounts_new() -> (made: DashMap<u64, AccountState>)
    ensures
        account_entries(made) == no_accounts(),
{
    DashMap::new()
}

/// `DashMap::get`: a copy of the value stored under `key`, if there is one.
#[verifier::external_body]
pub(crate) fn accounts_get(m: &DashMap<u64, AccountState>, key: u64) -> (found: Option<AccountState>)
    ensures
        found.is_some() == account_entries(*m).contains_key(key),
        found.is_some() ==> found.unwrap() == account_entries(*m)[key],
{
    m.get(&key).map(|e| *e.value())
}

/// `DashMap::insert`: the entry for `key` becomes `value`, every other entry
/// stays.
#[verifier::external_body]
pub(crate) fn accounts_insert(m: &mut DashMap<u64, AccountState>, key: u64, value: AccountState)
    ensures
        account_entries(*final(m)) == account_entries(*old(m)).insert(key, value),
{
    m.insert(key, value);
}

/// `DashMap::remove`: the entry for `key` leaves, every other entry stays.
#[verifier::external_body]
pub(crate) fn accounts_remove(m: &mut DashMap<u64, AccountState>, key: u64)
    ensures
        account_entries(*final(m)) == account_entries(*old(m)).remove(key),
{
    m.remove(&key);
}

/// `DashMap::iter`: every key of the table exactly once, in no stated order.
#[verifier::external_body]
pub(crate) fn accounts_keys(m: &DashMap<u64, AccountState>) -> (keys: Vec<u64>)
    ensures
        keys@.no_duplicates(),
        keys@.to_set() == account_entries(*m).dom(),
{
    m.iter().map(|e| *e.key()).collect()
}

// ---------------------------------------------------------------- clients

/// `DashMap::new`: a table without entries.
#[verifier::external_body]
pub(crate) fn clients_new() -> (made: DashMap<String, ClientState>)
    ensures
        client_entries(made) == no_clients(),
{
    DashMap::new()
}

/// `DashMap::get`: a copy of the value stored under `key`, if there is one.
#[verifier::external_body]
pub(crate) fn clients_get(m: &DashMap<String, ClientState>, key: &str) -> (found: Option<ClientState>)
    ensures
        found.is_some() == client_entries(*m).contains_key(key@),
        found.is_some() ==> found.unwrap()@ == client_entries(*m)[key@],
{
    m.get(key).map(|e| e.value().clone())
}

/// `DashMap::insert`: the entry for `key` becomes `value`, every other entry
/// stays.
#[verifier::external_body]
pub(crate) fn clients_insert(m: &mut DashMap<String, ClientState>, key: String, value: ClientState)
    ensures
        client_entries(*final(m)) == client_entries(*old(m)).insert(key@, value@),
{
    m.insert(key, value);
}

/// `DashMap::remove`: the entry for `key` leaves, every other entry stays.
#[verifier::external_body]
pub(crate) fn clients_remove(m: &mut DashMap<String, ClientState>, key: &str)
    ensures
        client_entries(*final(m)) == client_entries(*old(m)).remove(key@),
{
    m.remove(key);
}

/// `DashMap::iter`: every key of the table exactly once, in no stated order.
#[verifier::external_body]
pub(crate) fn clients_keys(m: &DashMap<String, ClientState>) -> (keys: Vec<String>)
    ensures
        key_views(keys@).no_duplicates(),
        key_views(keys@).to_set() == client_entries(*m).dom(),
{
    m.iter().map(|e| e.key().clone()).collect()
}

} // verus!
