//! The shared state store: routing tables, account quotas, live channels,
//! and the policy that picks an upstream.

use crate::machine::{
    choice_at, eligible, fallback, first_eligible, first_fallback, is_failed, is_slot,
    lemma_seen_step, lemma_select_is, lemma_select_next_is, past_failed, precedes, ActiveView,
    Choice, ClientView, StateView,
};
use crate::models::{StreamConfig, StreamView};
use crate::table::{
    account_entries, accounts_get, accounts_insert, accounts_new, active_entries, actives_new,
    client_entries, clients_get, clients_insert, clients_keys, clients_new, key_views,
    route_entries, routes_get, routes_new,
};
use bytes::Bytes;
use dashmap::DashMap;
use tokio::sync::{broadcast, watch};
use vstd::prelude::*;

verus! {

/// An account's quota bucket. `max_connections == 0` means unlimited;
/// `active_connections` counts held upstream slots, not clients.
#[derive(Clone, Copy, Debug)]
pub struct AccountState {
    pub max_connections: u32,
    pub active_connections: u32,
}

/// One attached client. `connected_since` is a reading of the monotonic
/// clock in nanoseconds.
#[derive(Debug)]
pub struct ClientState {
    pub id: String,
    pub connected_since: u64,
    pub bytes_sent: u64,
    pub remote_addr: String,
}

impl View for ClientState {
    type V = ClientView;

    open spec fn view(&self) -> ClientView {
        ClientView {
            id: self.id@,
            connected_since: self.connected_since,
            bytes_sent: self.bytes_sent,
            remote_addr: self.remote_addr@,
        }
    }
}

impl Clone for ClientState {
    fn clone(&self) -> (copy: ClientState)
        ensures
            copy@ == self@,
    {
        ClientState {
            id: self.id.clone(),
            connected_since: self.connected_since,
            bytes_sent: self.bytes_sent,
            remote_addr: self.remote_addr.clone(),
        }
    }
}

/// The routing of one channel; stream order, then URL order within a
/// stream, is the failover order.
#[derive(Debug)]
pub struct ChannelRouting {
    pub streams: Vec<StreamConfig>,
}

impl View for ChannelRouting {
    type V = Seq<StreamView>;

    open spec fn view(&self) -> Seq<StreamView> {
        self.streams@.map_values(|s: StreamConfig| s@)
    }
}

impl Clone for ChannelRouting {
    fn clone(&self) -> (copy: ChannelRouting)
        ensures
            copy@ == self@,
    {
        let streams = self.streams.clone();
        assert(streams@.map_values(|s: StreamConfig| s@) =~= self.streams@.map_values(
            |s: StreamConfig| s@,
        ));
        ChannelRouting { streams }
    }
}

/// One live upstream fetch with its subscribers. `sender` is the sending
/// end of its broadcast bus and `stop_tx` that of its stop signal;
/// `stop_signal` records that the stop signal was raised.
#[derive(Debug)]
pub struct ActiveChannel {
    pub stream_id: u64,
    pub account_id: u64,
    pub url: String,
    pub connected_since: u64,
    pub bytes_transferred: u64,
    pub sender: broadcast::Sender<Bytes>,
    pub clients: DashMap<String, ClientState>,
    pub stop_tx: watch::Sender<bool>,
    pub stop_signal: bool,
}

impl View for ActiveChannel {
    type V = ActiveView;

    open spec fn view(&self) -> ActiveView {
        ActiveView {
            stream_id: self.stream_id,
            account_id: self.account_id,
            url: self.url@,
            connected_since: self.connected_since,
            bytes_transferred: self.bytes_transferred,
            clients: client_entries(self.clients),
            stop_signal: self.stop_signal,
        }
    }
}

/// A client table of its own with the entries of `clients`.
fn copy_clients(clients: &DashMap<String, ClientState>) -> (copy: DashMap<String, ClientState>)
    ensures
        client_entries(copy) == client_entries(*clients),
{
    let keys = clients_keys(clients);
    let ghost ids = key_views(keys@);
    let mut copy = clients_new();
    let mut i: usize = 0;
    while i < keys.len()
        invariant
            i <= keys.len(),
            ids == key_views(keys@),
            ids.no_duplicates(),
            ids.to_set() == client_entries(*clients).dom(),
            client_entries(copy) == client_entries(*clients).restrict(ids.take(i as int).to_set()),
        decreases keys.len() - i,
    {
        proof {
            lemma_seen_step(ids, i as int);
            assert(ids.to_set().contains(ids[i as int]));
        }
        match clients_get(clients, keys[i].as_str()) {
            Some(client) => {
                clients_insert(&mut copy, keys[i].clone(), client);
            },
            None => {},
        }
        i += 1;
    }
    proof {
        assert(ids.take(i as int) =~= ids);
        assert(client_entries(copy) =~= client_entries(*clients));
    }
    copy
}

impl Clone for ActiveChannel {
    /// A record of its own that holds what this one holds, with handles on
    /// the same bus and the same stop signal.
    fn clone(&self) -> (copy: ActiveChannel)
        ensures
            copy@ == self@,
    {
        ActiveChannel {
            stream_id: self.stream_id,
            account_id: self.account_id,
            url: self.url.clone(),
            connected_since: self.connected_since,
            bytes_transferred: self.bytes_transferred,
            sender: self.sender.clone(),
            clients: copy_clients(&self.clients),
            stop_tx: self.stop_tx.clone(),
            stop_signal: self.stop_signal,
        }
    }
}

/// The process-wide state. `start_time` is a reading of the monotonic clock
/// in nanoseconds.
pub struct AppState {
    pub start_time: u64,
    pub channel_routes: DashMap<String, ChannelRouting>,
    pub active_channels: DashMap<String, ActiveChannel>,
    pub accounts: DashMap<u64, AccountState>,
}

impl View for AppState {
    type V = StateView;

    open spec fn view(&self) -> StateView {
        StateView {
            start_time: self.start_time,
            routes: route_entries(self.channel_routes),
            actives: active_entries(self.active_channels),
            accounts: account_entries(self.accounts),
        }
    }
}

/// The model of an optional choice.
pub open spec fn choice_view(chosen: Option<(u64, u64, String)>) -> Option<Choice> {
    match chosen {
        Some(c) => Some((c.0, c.1, c.2@)),
        None => None,
    }
}

/// Whether `account` admits one more upstream, `None` standing for an
/// unknown account.
fn admits(account: Option<AccountState>) -> (yes: bool)
    ensures
        yes == (account.is_none() || account.unwrap().max_connections == 0
            || account.unwrap().active_connections < account.unwrap().max_connections),
{
    match account {
        Some(a) => a.max_connections == 0 || a.active_connections < a.max_connections,
        None => true,
    }
}

impl AppState {
    /// An empty state for a process that started at `now`.
    pub fn new(now: u64) -> (state: AppState)
        ensures
            state@ == StateView::empty(now),
    {
        AppState {
            start_time: now,
            channel_routes: routes_new(),
            active_channels: actives_new(),
            accounts: accounts_new(),
        }
    }

    /// The first upstream of `channel_id`, in failover order, whose account
    /// admits one more connection: `(stream_id, account_id, url)`. `None`
    /// when the channel is not routed or every account is at its cap.
    pub fn select_stream(&self, channel_id: &str) -> (chosen: Option<(u64, u64, String)>)
        ensures
            choice_view(chosen) == self@.select_stream(channel_id@),
            match chosen {
                Some(c) => self@.routes.contains_key(channel_id@) && exists|i: int, j: int|
                    first_eligible(self@.routes[channel_id@], self@.accounts, i, j) && (
                    c.0,
                    c.1,
                    c.2@,
                ) == choice_at(self@.routes[channel_id@], i, j),
                None => !self@.routes.contains_key(channel_id@) || forall|i: int, j: int|
                    !eligible(self@.routes[channel_id@], self@.accounts, i, j),
            },
    {
        let routing = match routes_get(&self.channel_routes, channel_id) {
            Some(r) => r,
            None => {
                return None;
            },
        };
        let ghost r = routing@;
        let ghost acc = self@.accounts;
        let mut i: usize = 0;
        while i < routing.streams.len()
            invariant
                i <= routing.streams.len(),
                r == routing@,
                acc == account_entries(self.accounts),
                self@.routes.contains_key(channel_id@),
                r == self@.routes[channel_id@],
                forall|i2: int, j2: int| i2 < i ==> !#[trigger] eligible(r, acc, i2, j2),
            decreases routing.streams.len() - i,
        {
            let stream = &routing.streams[i];
            let mut j: usize = 0;
            while j < stream.urls.len()
                invariant
                    i < routing.streams.len(),
                    j <= stream.urls.len(),
                    r == routing@,
                    *stream == routing.streams[i as int],
                    acc == account_entries(self.accounts),
                    self@.routes.contains_key(channel_id@),
                    r == self@.routes[channel_id@],
                    forall|i2: int, j2: int|
                        precedes(i2, j2, i as int, j as int) ==> !#[trigger] eligible(
                            r,
                            acc,
                            i2,
                            j2,
                        ),
                decreases stream.urls.len() - j,
            {
                let entry = &stream.urls[j];
                if admits(accounts_get(&self.accounts, entry.account_id)) {
                    proof {
                        lemma_select_is(r, acc, i as int, j as int);
                    }
                    return Some((stream.id, entry.account_id, entry.url.clone()));
                }
                j += 1;
            }
            i += 1;
        }
        None
    }

    /// The upstream of `channel_id` that takes over after the pair
    /// `(failed_stream_id, failed_account_id)` failed: the first one, in
    /// failover order, that lies after the first occurrence of the failed
    /// pair, is not that pair again, and whose account admits one more
    /// connection. The cursor is positional in the routing as it is now:
    /// when the failed pair is no longer routed, the answer is `None`.
    pub fn select_next_stream(
        &self,
        channel_id: &str,
        failed_stream_id: u64,
        failed_account_id: u64,
    ) -> (chosen: Option<(u64, u64, String)>)
        ensures
            choice_view(chosen) == self@.select_next_stream(
                channel_id@,
                failed_stream_id,
                failed_account_id,
            ),
            match chosen {
                Some(c) => self@.routes.contains_key(channel_id@) && exists|i: int, j: int|
                    first_fallback(
                        self@.routes[channel_id@],
                        self@.accounts,
                        failed_stream_id,
                        failed_account_id,
                        i,
                        j,
                    ) && (c.0, c.1, c.2@) == choice_at(self@.routes[channel_id@], i, j),
                None => !self@.routes.contains_key(channel_id@) || forall|i: int, j: int|
                    !fallback(
                        self@.routes[channel_id@],
                        self@.accounts,
                        failed_stream_id,
                        failed_account_id,
                        i,
                        j,
                    ),
            },
    {
        let routing = match routes_get(&self.channel_routes, channel_id) {
            Some(r) => r,
            None => {
                return None;
            },
        };
        let ghost r = routing@;
        let ghost acc = self@.accounts;
        let mut past: bool = false;
        let mut i: usize = 0;
        while i < routing.streams.len()
            invariant
                i <= routing.streams.len(),
                r == routing@,
                acc == account_entries(self.accounts),
                self@.routes.contains_key(channel_id@),
                r == self@.routes[channel_id@],
                past == past_failed(r, failed_stream_id, failed_account_id, i as int, 0),
                forall|i2: int, j2: int|
                    i2 < i ==> !#[trigger] fallback(
                        r,
                        acc,
                        failed_stream_id,
                        failed_account_id,
                        i2,
                        j2,
                    ),
            decreases routing.streams.len() - i,
        {
            let stream = &routing.streams[i];
            let mut j: usize = 0;
            while j < stream.urls.len()
                invariant
                    i < routing.streams.len(),
                    j <= stream.urls.len(),
                    r == routing@,
                    *stream == routing.streams[i as int],
                    acc == account_entries(self.accounts),
                    self@.routes.contains_key(channel_id@),
                    r == self@.routes[channel_id@],
                    past == past_failed(r, failed_stream_id, failed_account_id, i as int, j as int),
                    forall|i2: int, j2: int|
                        precedes(i2, j2, i as int, j as int) ==> !#[trigger] fallback(
                            r,
                            acc,
                            failed_stream_id,
                            failed_account_id,
                            i2,
                            j2,
                        ),
                decreases stream.urls.len() - j,
            {
                let entry = &stream.urls[j];
                if stream.id == failed_stream_id && entry.account_id == failed_account_id {
                    past = true;
                } else if past && admits(accounts_get(&self.accounts, entry.account_id)) {
                    proof {
                        lemma_select_next_is(
                            r,
                            acc,
                            failed_stream_id,
                            failed_account_id,
                            i as int,
                            j as int,
                        );
                    }
                    return Some((stream.id, entry.account_id, entry.url.clone()));
                }
                proof {
                    lemma_past_failed_step(
                        r,
                        failed_stream_id,
                        failed_account_id,
                        i as int,
                        j as int,
                    );
                }
                j += 1;
            }
            proof {
                lemma_past_failed_wrap(r, failed_stream_id, failed_account_id, i as int);
            }
            i += 1;
        }
        None
    }

    /// Takes one slot of `account_id`. An unknown account is not counted.
    pub fn increment_connections(&mut self, account_id: u64)
        ensures
            final(self)@ == old(self)@.acquire(account_id),
    {
        match accounts_get(&self.accounts, account_id) {
            Some(a) => {
                accounts_insert(
                    &mut self.accounts,
                    account_id,
                    AccountState {
                        max_connections: a.max_connections,
                        active_connections: a.active_connections.wrapping_add(1),
                    },
                );
            },
            None => {},
        }
    }

    /// Gives back one slot of `account_id`. A counter that is already zero
    /// stays zero, and an unknown account is left alone.
    pub fn decrement_connections(&mut self, account_id: u64)
        ensures
            final(self)@ == old(self)@.release(account_id),
            final(self)@.accounts.dom() == old(self)@.accounts.dom(),
            old(self)@.accounts.contains_key(account_id) ==> final(self)@.accounts[account_id].active_connections
                <= old(self)@.accounts[account_id].active_connections,
    {
        match accounts_get(&self.accounts, account_id) {
            Some(a) => {
                if a.active_connections > 0 {
                    accounts_insert(
                        &mut self.accounts,
                        account_id,
                        AccountState {
                            max_connections: a.max_connections,
                            active_connections: a.active_connections - 1,
                        },
                    );
                }
            },
            None => {},
        }
    }
}

/// Moving one URL on, a slot lies past the failed pair exactly when it did
/// before or the slot just left is the failed pair.
proof fn lemma_past_failed_step(routing: Seq<StreamView>, stream_id: u64, account_id: u64, i: int, j: int)
    requires
        is_slot(routing, i, j),
    ensures
        past_failed(routing, stream_id, account_id, i, j + 1) == (past_failed(
            routing,
            stream_id,
            account_id,
            i,
            j,
        ) || is_failed(routing, stream_id, account_id, i, j)),
{
}

/// Moving on to the next stream changes nothing about what lies behind.
proof fn lemma_past_failed_wrap(routing: Seq<StreamView>, stream_id: u64, account_id: u64, i: int)
    requires
        0 <= i < routing.len(),
    ensures
        past_failed(routing, stream_id, account_id, i + 1, 0) == past_failed(
            routing,
            stream_id,
            account_id,
            i,
            routing[i].urls.len() as int,
        ),
{
}

} // verus!
