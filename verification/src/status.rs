//! The status surface: read-only reports on channels, clients, accounts
//! and the process.

use crate::machine::{
    add_clients, client_total, decimal, digit_char, lemma_seen_step, ActiveView, ClientView,
    StateView,
};
use crate::models::{
    AccountStatus, ChannelDetailResponse, ChannelStatus, ChannelsResponse, ClientInfo,
    HealthResponse, UpstreamStatus,
};
use crate::state::{ActiveChannel, AppState, ClientState};
use crate::table::{
    accounts_get, accounts_keys, active_entries, actives_get, actives_keys, client_entries,
    clients_get, clients_keys, key_views, routes_get, routes_keys,
};
use dashmap::DashMap;
use vstd::arithmetic::div_mod::lemma_fundamental_div_mod_converse;
use vstd::prelude::*;
use vstd::set::fold::{lemma_fold_empty, lemma_fold_insert};
use vstd::string::StringExecFns;

verus! {

/// One reading of the clocks: the monotonic clock in nanoseconds, and the
/// wall clock as seconds and nanoseconds since the Unix epoch.
#[derive(Clone, Copy, Debug)]
pub struct Clock {
    pub monotonic: u64,
    pub unix_secs: i64,
    pub unix_nanos: u32,
}

/// Why a status report could not be given.
#[derive(Clone, Copy, Debug)]
pub enum StatusError {
    /// The channel is neither routed nor live.
    NotFound,
}

impl StatusError {
    /// The response status that reports this error: 404.
    pub fn status(&self) -> (code: u16)
        ensures
            code == 404,
    {
        404
    }
}

/// The RFC 3339 text of the UTC moment `secs` seconds and `nanos`
/// nanoseconds after the Unix epoch, or `None` where the calendar of
/// `chrono` does not reach.
pub uninterp spec fn rfc3339_utc(secs: i64, nanos: u32) -> Option<Seq<char>>;

/// `chrono::DateTime::from_timestamp`, then `to_rfc3339` on the moment it
/// gives: the text is a function of the two numbers alone.
#[verifier::external_body]
fn format_utc(secs: i64, nanos: u32) -> (text: Option<String>)
    ensures
        text.is_some() == rfc3339_utc(secs, nanos).is_some(),
        text.is_some() ==> text.unwrap()@ == rfc3339_utc(secs, nanos).unwrap(),
{
    chrono::DateTime::from_timestamp(secs, nanos).map(|moment| moment.to_rfc3339())
}

/// The nanoseconds in a second.
pub const NANOS_PER_SEC: u64 = 1_000_000_000;

/// The time that passed on the monotonic clock from `instant` to `now`, in
/// nanoseconds; none, if `instant` is not in the past.
pub open spec fn elapsed_since(instant: u64, now: u64) -> nat {
    if now >= instant {
        (now - instant) as nat
    } else {
        0
    }
}

/// The wall-clock moment of `instant`, in nanoseconds since the Unix epoch:
/// the wall clock now, less the time that passed since `instant`.
pub open spec fn wall_moment(instant: u64, now: Clock) -> int {
    now.unix_secs * NANOS_PER_SEC + now.unix_nanos - elapsed_since(instant, now.monotonic)
}

/// The text of `instant`: its wall-clock moment in RFC 3339, or the empty
/// text where that moment cannot be written.
pub open spec fn instant_text(instant: u64, now: Clock) -> Seq<char> {
    let moment = wall_moment(instant, now);
    let secs = moment / NANOS_PER_SEC as int;
    let nanos = moment % NANOS_PER_SEC as int;
    if i64::MIN <= secs <= i64::MAX && rfc3339_utc(secs as i64, nanos as u32).is_some() {
        rfc3339_utc(secs as i64, nanos as u32).unwrap()
    } else {
        Seq::empty()
    }
}

/// Writes the monotonic `instant` as a wall-clock time in RFC 3339, UTC.
pub fn format_instant(instant: u64, now: &Clock) -> (text: String)
    ensures
        text@ == instant_text(instant, *now),
{
    let elapsed: u64 = if now.monotonic >= instant {
        now.monotonic - instant
    } else {
        0
    };
    let wall: i128 = (now.unix_secs as i128) * 1_000_000_000 + (now.unix_nanos as i128);
    let moment: i128 = wall - (elapsed as i128);
    let secs: i128;
    let nanos: u32;
    if moment >= 0 {
        let m = moment as u128;
        secs = (m / 1_000_000_000) as i128;
        nanos = (m % 1_000_000_000) as u32;
    } else {
        let m = (-moment) as u128;
        let q = m / 1_000_000_000;
        let r = m % 1_000_000_000;
        if r == 0 {
            secs = -(q as i128);
            nanos = 0;
        } else {
            secs = -(q as i128) - 1;
            nanos = (1_000_000_000 - r) as u32;
        }
    }
    proof {
        lemma_fundamental_div_mod_converse(moment as int, 1_000_000_000, secs as int, nanos as int);
    }
    if secs < -9223372036854775808 || secs > 9223372036854775807 {
        return String::new();
    }
    match format_utc(secs as i64, nanos) {
        Some(text) => text,
        None => String::new(),
    }
}

/// The number of clients as a report gives it: cut to 32 bits.
pub open spec fn client_count(clients: Map<Seq<char>, ClientView>) -> u32 {
    (clients.dom().len() % 0x1_0000_0000) as u32
}

/// `upstream` reports what `active` is connected to.
pub open spec fn upstream_is(upstream: UpstreamStatus, active: ActiveView, now: Clock) -> bool {
    &&& upstream.stream_id == active.stream_id
    &&& upstream.account_id == active.account_id
    &&& upstream.url@ == active.url
    &&& upstream.connected_since@ == instant_text(active.connected_since, now)
    &&& upstream.bytes_transferred == active.bytes_transferred
}

/// `status` reports the live channel `active`.
pub open spec fn active_status_is(status: ChannelStatus, active: ActiveView, now: Clock) -> bool {
    &&& status.state@ == "active"@
    &&& status.clients == client_count(active.clients)
    &&& status.upstream.is_some()
    &&& upstream_is(status.upstream.unwrap(), active, now)
}

/// `status` reports a channel that is not live.
pub open spec fn idle_status_is(status: ChannelStatus) -> bool {
    &&& status.state@ == "idle"@
    &&& status.clients == 0
    &&& status.upstream.is_none()
}

/// `status` reports the channel `channel_id` of `state`.
pub open spec fn status_is(status: ChannelStatus, state: StateView, channel_id: Seq<char>, now: Clock) -> bool {
    if state.actives.contains_key(channel_id) {
        active_status_is(status, state.actives[channel_id], now)
    } else {
        idle_status_is(status)
    }
}

/// `info` reports `client`.
pub open spec fn client_is(info: ClientInfo, client: ClientView, now: Clock) -> bool {
    &&& info.id@ == client.id
    &&& info.connected_since@ == instant_text(client.connected_since, now)
    &&& info.bytes_sent == client.bytes_sent
    &&& info.remote_addr@ == client.remote_addr
}

/// `infos` reports every client of `clients` once: there is a list of
/// the table's keys, each once, that `infos` follows item by item.
pub open spec fn clients_are(infos: Seq<ClientInfo>, clients: Map<Seq<char>, ClientView>, now: Clock) -> bool {
    exists|keys: Seq<Seq<char>>|
        #![auto]
        keys.no_duplicates() && keys.to_set() == clients.dom() && keys.len() == infos.len()
            && forall|i: int|
            0 <= i < keys.len() ==> client_is(infos[i], clients[#[trigger] keys[i]], now)
}

/// The ids of a list of channel reports, in the list's order.
pub open spec fn reported_ids(channels: Seq<(String, ChannelStatus)>) -> Seq<Seq<char>> {
    channels.map_values(|e: (String, ChannelStatus)| e.0@)
}

/// The keys of a list of account reports, in the list's order.
pub open spec fn reported_keys(accounts: Seq<(String, AccountStatus)>) -> Seq<Seq<char>> {
    accounts.map_values(|e: (String, AccountStatus)| e.0@)
}

/// The keys under which a status report lists `ids`, in their order.
pub open spec fn keys_of(ids: Seq<u64>) -> Seq<Seq<char>> {
    ids.map_values(|id: u64| decimal(id as nat))
}

/// `accounts` reports every account of `state` once, under the decimal
/// text of its id: there is a list of the ids, each once, that `accounts`
/// follows item by item.
pub open spec fn accounts_are(accounts: Seq<(String, AccountStatus)>, state: StateView) -> bool {
    exists|ids: Seq<u64>|
        #![auto]
        ids.no_duplicates() && ids.to_set() == state.accounts.dom() && reported_keys(accounts)
            == keys_of(ids) && forall|i: int|
            0 <= i < ids.len() ==> accounts[i].1.active_connections
                == state.accounts[#[trigger] ids[i]].active_connections
                && accounts[i].1.max_connections == state.accounts[ids[i]].max_connections
}

/// The text of one decimal digit.
fn digit_text(d: u64) -> (text: &'static str)
    requires
        d < 10,
    ensures
        text@ == seq![digit_char(d as nat)],
{
    proof {
        reveal_strlit("0");
        reveal_strlit("1");
        reveal_strlit("2");
        reveal_strlit("3");
        reveal_strlit("4");
        reveal_strlit("5");
        reveal_strlit("6");
        reveal_strlit("7");
        reveal_strlit("8");
        reveal_strlit("9");
    }
    let text = if d == 0 {
        "0"
    } else if d == 1 {
        "1"
    } else if d == 2 {
        "2"
    } else if d == 3 {
        "3"
    } else if d == 4 {
        "4"
    } else if d == 5 {
        "5"
    } else if d == 6 {
        "6"
    } else if d == 7 {
        "7"
    } else if d == 8 {
        "8"
    } else {
        "9"
    };
    assert(text@ =~= seq![digit_char(d as nat)]);
    text
}

/// The key under which a status report lists the account `id`: its
/// decimal text.
pub fn account_key(id: u64) -> (key: String)
    ensures
        key@ == decimal(id as nat),
{
    let mut key: String = digit_text(id % 10).to_owned();
    let mut rest: u64 = id / 10;
    while rest > 0
        invariant
            decimal(id as nat) == (if rest > 0 {
                decimal(rest as nat) + key@
            } else {
                key@
            }),
        decreases rest,
    {
        let digit: String = digit_text(rest % 10).to_owned();
        proof {
            if rest >= 10 {
                assert(decimal(rest as nat) + key@ =~= decimal((rest / 10) as nat) + (digit@ + key@));
            } else {
                assert(decimal(rest as nat) + key@ =~= digit@ + key@);
            }
        }
        key = digit.concat(key.as_str());
        rest = rest / 10;
    }
    key
}

/// The number of entries of a client table.
fn count_clients(clients: &DashMap<String, ClientState>) -> (n: usize)
    ensures
        n == client_entries(*clients).dom().len(),
        client_entries(*clients).dom().finite(),
{
    let keys = clients_keys(clients);
    proof {
        key_views(keys@).unique_seq_to_set();
        vstd::seq_lib::seq_to_set_is_finite(key_views(keys@));
    }
    keys.len()
}

/// Cuts a count to 32 bits.
fn cut_count(n: usize) -> (cut: u32)
    ensures
        cut == (n as int % 0x1_0000_0000) as u32,
{
    ((n as u64) % 0x1_0000_0000u64) as u32
}

/// The report on a live channel.
fn active_status(active: &ActiveChannel, now: &Clock) -> (status: ChannelStatus)
    ensures
        active_status_is(status, active@, *now),
{
    ChannelStatus {
        state: "active".to_owned(),
        clients: cut_count(count_clients(&active.clients)),
        upstream: Some(
            UpstreamStatus {
                stream_id: active.stream_id,
                account_id: active.account_id,
                url: active.url.clone(),
                connected_since: format_instant(active.connected_since, now),
                bytes_transferred: active.bytes_transferred,
            },
        ),
    }
}

/// The report on a channel that is not live.
fn idle_status() -> (status: ChannelStatus)
    ensures
        idle_status_is(status),
{
    ChannelStatus { state: "idle".to_owned(), clients: 0, upstream: None }
}

/// Reports every routed channel, live or idle, and every account. Each
/// appears once; the order is not fixed.
pub fn channels_status(state: &AppState, now: &Clock) -> (report: ChannelsResponse)
    ensures
        reported_ids(report.channels@).no_duplicates(),
        reported_ids(report.channels@).to_set() == state@.routes.dom(),
        forall|i: int|
            0 <= i < report.channels@.len() ==> status_is(
                (#[trigger] report.channels@[i]).1,
                state@,
                report.channels@[i].0@,
                *now,
            ),
        accounts_are(report.accounts@, state@),
{
    let ids = routes_keys(&state.channel_routes);
    let mut channels: Vec<(String, ChannelStatus)> = Vec::new();
    let mut i: usize = 0;
    while i < ids.len()
        invariant
            i <= ids.len(),
            channels@.len() == i,
            reported_ids(channels@) == key_views(ids@).take(i as int),
            forall|k: int|
                0 <= k < i ==> status_is((#[trigger] channels@[k]).1, state@, channels@[k].0@, *now),
        decreases ids.len() - i,
    {
        let id = ids[i].clone();
        let status = match actives_get(&state.active_channels, id.as_str()) {
            Some(active) => active_status(&active, now),
            None => idle_status(),
        };
        channels.push((id, status));
        i += 1;
    }
    proof {
        assert(key_views(ids@).take(i as int) =~= key_views(ids@));
    }
    let account_ids = accounts_keys(&state.accounts);
    let mut accounts: Vec<(String, AccountStatus)> = Vec::new();
    let mut j: usize = 0;
    while j < account_ids.len()
        invariant
            j <= account_ids.len(),
            accounts@.len() == j,
            account_ids@.to_set() == state@.accounts.dom(),
            reported_keys(accounts@) == keys_of(account_ids@.take(j as int)),
            forall|k: int|
                0 <= k < j ==> accounts@[k].1.active_connections
                    == state@.accounts[#[trigger] account_ids@[k]].active_connections
                    && accounts@[k].1.max_connections
                    == state@.accounts[account_ids@[k]].max_connections,
        decreases account_ids.len() - j,
    {
        let id: u64 = account_ids[j];
        match accounts_get(&state.accounts, id) {
            Some(account) => {
                proof {
                    assert(keys_of(account_ids@.take(j + 1)) =~= keys_of(
                        account_ids@.take(j as int),
                    ).push(decimal(id as nat)));
                }
                accounts.push(
                    (
                        account_key(id),
                        AccountStatus {
                            active_connections: account.active_connections,
                            max_connections: account.max_connections,
                        },
                    ),
                );
            },
            None => {},
        }
        j += 1;
    }
    proof {
        assert(account_ids@.take(j as int) =~= account_ids@);
    }
    ChannelsResponse { channels, accounts }
}

/// Reports one channel with its clients: a live channel with each client
/// once, in no fixed order; a routed channel that is not live as idle,
/// without clients; a channel that is neither as not found.
pub fn channel_detail(state: &AppState, channel_id: &str, now: &Clock) -> (report: Result<
    ChannelDetailResponse,
    StatusError,
>)
    ensures
        report.is_err() == (!state@.actives.contains_key(channel_id@)
            && !state@.routes.contains_key(channel_id@)),
        report.is_ok() ==> status_is(report.unwrap().status, state@, channel_id@, *now),
        report.is_ok() && state@.actives.contains_key(channel_id@) ==> clients_are(
            report.unwrap().clients@,
            state@.actives[channel_id@].clients,
            *now,
        ),
        report.is_ok() && !state@.actives.contains_key(channel_id@)
            ==> report.unwrap().clients@.len() == 0,
{
    match actives_get(&state.active_channels, channel_id) {
        Some(active) => {
            let keys = clients_keys(&active.clients);
            let mut clients: Vec<ClientInfo> = Vec::new();
            let mut i: usize = 0;
            while i < keys.len()
                invariant
                    i <= keys.len(),
                    clients@.len() == i,
                    key_views(keys@).to_set() == client_entries(active.clients).dom(),
                    forall|k: int|
                        0 <= k < i ==> client_is(
                            clients@[k],
                            client_entries(active.clients)[#[trigger] key_views(keys@)[k]],
                            *now,
                        ),
                decreases keys.len() - i,
            {
                proof {
                    assert(key_views(keys@).to_set().contains(key_views(keys@)[i as int]));
                }
                match clients_get(&active.clients, keys[i].as_str()) {
                    Some(client) => {
                        clients.push(
                            ClientInfo {
                                id: client.id.clone(),
                                connected_since: format_instant(client.connected_since, now),
                                bytes_sent: client.bytes_sent,
                                remote_addr: client.remote_addr.clone(),
                            },
                        );
                    },
                    None => {},
                }
                i += 1;
            }
            let status = active_status(&active, now);
            Ok(ChannelDetailResponse { status, clients })
        },
        None => {
            if routes_get(&state.channel_routes, channel_id).is_some() {
                Ok(ChannelDetailResponse { status: idle_status(), clients: Vec::new() })
            } else {
                Err(StatusError::NotFound)
            }
        },
    }
}

/// The uptime that a health report gives: whole seconds from `start` to
/// `now` on the monotonic clock.
pub open spec fn uptime(start: u64, now: u64) -> u64 {
    (elapsed_since(start, now) / NANOS_PER_SEC as nat) as u64
}

/// Reports that the process is up, for how long, with how many live
/// channels, and with how many clients on them in all, cut to 32 bits.
pub fn health(state: &AppState, now: u64) -> (report: HealthResponse)
    ensures
        report.status@ == "ok"@,
        report.uptime_seconds == uptime(state@.start_time, now),
        state@.actives.dom().finite(),
        report.active_channels == state@.actives.dom().len(),
        report.total_clients == (client_total(state@.actives, state@.actives.dom())
            % 0x1_0000_0000) as u32,
{
    let elapsed: u64 = if now >= state.start_time {
        now - state.start_time
    } else {
        0
    };
    let keys = actives_keys(&state.active_channels);
    let ghost ids = key_views(keys@);
    let ghost actives = state@.actives;
    let mut total: u32 = 0;
    let mut i: usize = 0;
    proof {
        ids.unique_seq_to_set();
        vstd::seq_lib::seq_to_set_is_finite(ids);
        assert(ids.take(0).to_set() =~= Set::<Seq<char>>::empty());
        lemma_fold_empty(0nat, add_clients(actives));
    }
    while i < keys.len()
        invariant
            i <= keys.len(),
            ids == key_views(keys@),
            ids.no_duplicates(),
            ids.to_set() == actives.dom(),
            actives == active_entries(state.active_channels),
            total == (client_total(actives, ids.take(i as int).to_set()) % 0x1_0000_0000) as u32,
        decreases keys.len() - i,
    {
        proof {
            lemma_seen_step(ids, i as int);
            lemma_fold_insert(ids.take(i as int).to_set(), 0nat, add_clients(actives), ids[i as int]);
        }
        match actives_get(&state.active_channels, keys[i].as_str()) {
            Some(active) => {
                let n: usize = count_clients(&active.clients);
                total = total.wrapping_add(cut_count(n));
            },
            None => {},
        }
        i += 1;
    }
    proof {
        assert(ids.take(i as int) =~= ids);
    }
    HealthResponse {
        status: "ok".to_owned(),
        uptime_seconds: elapsed / NANOS_PER_SEC,
        active_channels: keys.len(),
        total_clients: total,
    }
}

} // verus!
