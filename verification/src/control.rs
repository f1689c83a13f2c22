//! The control surface: the operations by which the control plane reshapes
//! routes and accounts.

use crate::machine::{
    all_digits, declared_limits, declared_routes, digits_value, is_digit, lemma_drop_none,
    lemma_drop_step, lemma_push_fresh, lemma_seen_step, listed_limits, parse_digits, parse_id,
    untouched_where_routed,
};
use crate::models::{channel_views, limit_views, AccountConfig, ChannelConfig, SyncRequest};
use crate::signal::stop_send;
use crate::state::{AccountState, AppState, ChannelRouting};
use crate::table::{
    accounts_get, accounts_insert, accounts_keys, accounts_remove, actives_remove, key_views,
    routes_insert, routes_keys, routes_remove,
};
use vstd::prelude::*;
use vstd::string::StrSliceExecFns;

verus! {

/// Replaces the routing of `channel_id`. A live channel is not disturbed:
/// the new routing takes effect at the next selection.
pub fn put_channel(state: &mut AppState, channel_id: String, config: ChannelConfig)
    ensures
        final(state)@ == old(state)@.put_channel(channel_id@, config@),
{
    routes_insert(&mut state.channel_routes, channel_id, ChannelRouting { streams: config.streams });
}

/// Removes the route of `channel_id` and stops its live channel, if there
/// is one: its stop signal is sent and the slot of its account given back.
/// Returns whether a live channel was stopped.
pub fn delete_channel(state: &mut AppState, channel_id: &str) -> (stopped: bool)
    ensures
        final(state)@ == old(state)@.delete_channel(channel_id@),
        stopped == old(state)@.actives.contains_key(channel_id@),
        !final(state)@.routes.contains_key(channel_id@),
        !final(state)@.actives.contains_key(channel_id@),
{
    routes_remove(&mut state.channel_routes, channel_id);
    match actives_remove(&mut state.active_channels, channel_id) {
        Some(active) => {
            stop_send(&active.stop_tx, true);
            state.decrement_connections(active.account_id);
            true
        },
        None => {
            false
        },
    }
}

/// Sets the cap of `account_id`. A known account keeps its counter of held
/// slots; an unknown one is created with none held.
pub fn put_account(state: &mut AppState, account_id: u64, config: AccountConfig)
    ensures
        final(state)@ == old(state)@.put_account(account_id, config.max_connections),
{
    let held: u32 = match accounts_get(&state.accounts, account_id) {
        Some(existing) => existing.active_connections,
        None => 0,
    };
    accounts_insert(
        &mut state.accounts,
        account_id,
        AccountState { max_connections: config.max_connections, active_connections: held },
    );
}

/// A payload declares the channel of each of its entries.
proof fn lemma_declared_has(channels: Seq<(Seq<char>, Seq<crate::models::StreamView>)>, i: int)
    requires
        0 <= i < channels.len(),
    ensures
        declared_routes(channels).contains_key(channels[i].0),
    decreases channels.len(),
{
    if i < channels.len() - 1 {
        lemma_declared_has(channels.drop_last(), i);
    }
}

/// Whether `channels` declares `channel_id`.
fn declares(channels: &Vec<(String, ChannelConfig)>, channel_id: &String) -> (yes: bool)
    ensures
        yes == declared_routes(channel_views(channels@)).contains_key(channel_id@),
{
    let ghost views = channel_views(channels@);
    let mut i: usize = 0;
    while i < channels.len()
        invariant
            i <= channels.len(),
            views == channel_views(channels@),
            !declared_routes(views.take(i as int)).contains_key(channel_id@),
        decreases channels.len() - i,
    {
        if channels[i].0 == *channel_id {
            proof {
                lemma_declared_has(views, i as int);
            }
            return true;
        }
        proof {
            assert(views.take(i + 1).drop_last() =~= views.take(i as int));
        }
        i += 1;
    }
    assert(views.take(i as int) =~= views);
    false
}

/// Deletes every routed channel that `channels` does not declare. Returns
/// the ids of the live channels stopped by this.
fn drop_undeclared(state: &mut AppState, channels: &Vec<(String, ChannelConfig)>) -> (stopped: Vec<
    String,
>)
    ensures
        final(state)@ == old(state)@.drop_undeclared(
            declared_routes(channel_views(channels@)).dom(),
        ),
        key_views(stopped@).no_duplicates(),
        key_views(stopped@).to_set() == old(state)@.undeclared(
            old(state)@.routes.dom(),
            declared_routes(channel_views(channels@)).dom(),
        ),
{
    let ids = routes_keys(&state.channel_routes);
    let ghost declared = declared_routes(channel_views(channels@)).dom();
    let ghost keys = key_views(ids@);
    let ghost start = state@;
    let mut stopped: Vec<String> = Vec::new();
    let mut i: usize = 0;
    proof {
        assert(keys.take(0).to_set() =~= Set::<Seq<char>>::empty());
        lemma_drop_none(start, declared);
    }
    while i < ids.len()
        invariant
            i <= ids.len(),
            start == old(state)@,
            keys == key_views(ids@),
            keys.no_duplicates(),
            keys.to_set() == start.routes.dom(),
            declared == declared_routes(channel_views(channels@)).dom(),
            state@ == start.drop_among(keys.take(i as int).to_set(), declared),
            key_views(stopped@).no_duplicates(),
            key_views(stopped@).to_set() == start.undeclared(keys.take(i as int).to_set(), declared),
        decreases ids.len() - i,
    {
        let id = &ids[i];
        proof {
            lemma_seen_step(keys, i as int);
            lemma_drop_step(start, keys.take(i as int).to_set(), declared, id@);
        }
        if !declares(channels, id) {
            let was_live = delete_channel(state, id.as_str());
            if was_live {
                proof {
                    lemma_push_fresh(key_views(stopped@), id@);
                    assert(key_views(stopped@.push(*id)) =~= key_views(stopped@).push(id@));
                }
                stopped.push(id.clone());
            }
        }
        i += 1;
    }
    proof {
        assert(keys.take(i as int) =~= keys);
    }
    stopped
}

/// Puts every route of `channels` into the table, in the payload's order.
fn install_routes(state: &mut AppState, channels: Vec<(String, ChannelConfig)>)
    ensures
        final(state)@ == old(state)@.install_routes(declared_routes(channel_views(channels@))),
{
    let ghost all = channel_views(channels@);
    let ghost start = state@;
    for entry in it: channels
        invariant
            start == old(state)@,
            it.seq() == channels@,
            all == channel_views(channels@),
            state@ == start.install_routes(declared_routes(all.take(it.index() as int))),
    {
        proof {
            let i = it.index() as int;
            assert(all.take(i + 1).drop_last() =~= all.take(i));
        }
        routes_insert(
            &mut state.channel_routes,
            entry.0,
            ChannelRouting { streams: entry.1.streams },
        );
    }
    proof {
        assert(all.take(all.len() as int) =~= all);
    }
}

/// The caps that `accounts` declares, as a list of account id and cap in
/// the payload's order, without the entries whose key is no account id.
fn parsed_limits(accounts: &Vec<(String, AccountConfig)>) -> (limits: Vec<(u64, u32)>)
    ensures
        listed_limits(limits@) == declared_limits(limit_views(accounts@)),
{
    let ghost views = limit_views(accounts@);
    let mut limits: Vec<(u64, u32)> = Vec::new();
    let mut i: usize = 0;
    while i < accounts.len()
        invariant
            i <= accounts.len(),
            views == limit_views(accounts@),
            listed_limits(limits@) == declared_limits(views.take(i as int)),
        decreases accounts.len() - i,
    {
        proof {
            assert(views.take(i + 1).drop_last() =~= views.take(i as int));
        }
        match parse_account_id(accounts[i].0.as_str()) {
            Some(id) => {
                proof {
                    assert(limits@.push((id, accounts[i as int].1.max_connections)).drop_last()
                        =~= limits@);
                }
                limits.push((id, accounts[i].1.max_connections));
            },
            None => {},
        }
        i += 1;
    }
    proof {
        assert(views.take(i as int) =~= views);
    }
    limits
}

/// A list of caps sets the cap of each account it names.
proof fn lemma_listed_has(limits: Seq<(u64, u32)>, i: int)
    requires
        0 <= i < limits.len(),
    ensures
        listed_limits(limits).contains_key(limits[i].0),
    decreases limits.len(),
{
    if i < limits.len() - 1 {
        lemma_listed_has(limits.drop_last(), i);
    }
}

/// Whether `limits` names `account_id`.
fn lists(limits: &Vec<(u64, u32)>, account_id: u64) -> (yes: bool)
    ensures
        yes == listed_limits(limits@).contains_key(account_id),
{
    let mut i: usize = 0;
    while i < limits.len()
        invariant
            i <= limits.len(),
            !listed_limits(limits@.take(i as int)).contains_key(account_id),
        decreases limits.len() - i,
    {
        if limits[i].0 == account_id {
            proof {
                lemma_listed_has(limits@, i as int);
            }
            return true;
        }
        proof {
            assert(limits@.take(i + 1).drop_last() =~= limits@.take(i as int));
        }
        i += 1;
    }
    assert(limits@.take(i as int) =~= limits@);
    false
}

/// The account table while `limits` is being applied: the accounts kept
/// from `before` and those that `applied` has set so far.
spec fn merged(before: Map<u64, AccountState>, limits: Map<u64, u32>, applied: Map<u64, u32>) -> Map<
    u64,
    AccountState,
> {
    Map::new(
        |a: u64| (before.contains_key(a) && limits.contains_key(a)) || applied.contains_key(a),
        |a: u64|
            if applied.contains_key(a) {
                AccountState {
                    max_connections: applied[a],
                    active_connections: if before.contains_key(a) {
                        before[a].active_connections
                    } else {
                        0
                    },
                }
            } else {
                before[a]
            },
    )
}

/// Makes the accounts those that `accounts` declares: an account that the
/// payload leaves out is removed, one that it names gets its cap from
/// there, keeping its counter if it was known and starting at zero if not.
fn reconcile_accounts(state: &mut AppState, accounts: &Vec<(String, AccountConfig)>)
    ensures
        final(state)@ == old(state)@.reconcile_accounts(declared_limits(limit_views(accounts@))),
{
    let limits = parsed_limits(accounts);
    let ghost declared = listed_limits(limits@);
    let ghost start = state@;
    let ids = accounts_keys(&state.accounts);
    let mut i: usize = 0;
    while i < ids.len()
        invariant
            i <= ids.len(),
            start == old(state)@,
            ids@.no_duplicates(),
            ids@.to_set() == start.accounts.dom(),
            declared == listed_limits(limits@),
            state@.start_time == start.start_time,
            state@.routes == start.routes,
            state@.actives == start.actives,
            state@.accounts == start.accounts.remove_keys(
                ids@.take(i as int).to_set().difference(declared.dom()),
            ),
        decreases ids.len() - i,
    {
        let id: u64 = ids[i];
        proof {
            lemma_seen_step(ids@, i as int);
        }
        if !lists(&limits, id) {
            accounts_remove(&mut state.accounts, id);
        }
        i += 1;
    }
    proof {
        assert(ids@.take(i as int) =~= ids@);
    }
    let mut j: usize = 0;
    while j < limits.len()
        invariant
            j <= limits.len(),
            start == old(state)@,
            declared == listed_limits(limits@),
            state@.start_time == start.start_time,
            state@.routes == start.routes,
            state@.actives == start.actives,
            state@.accounts == merged(start.accounts, declared, listed_limits(limits@.take(j as int))),
        decreases limits.len() - j,
    {
        let (id, max_connections) = limits[j];
        proof {
            assert(limits@.take(j + 1).drop_last() =~= limits@.take(j as int));
            lemma_listed_has(limits@, j as int);
        }
        put_account(state, id, AccountConfig { max_connections });
        j += 1;
    }
    proof {
        assert(limits@.take(j as int) =~= limits@);
    }
}

/// Bulk reconciliation with what the control plane declares.
///
/// Every routed channel that the payload leaves out is deleted, its live
/// channel stopped and the slot of its account given back. Every route of
/// the payload is put in. The accounts become those of the payload: one
/// that it leaves out is removed; one that it names gets its cap from the
/// payload, keeping its counter if it was known and starting at zero if
/// not. A live channel whose id the payload keeps is not touched. Returns
/// the ids of the live channels stopped.
pub fn sync(state: &mut AppState, req: SyncRequest) -> (stopped: Vec<String>)
    ensures
        final(state)@ == old(state)@.sync(req@),
        final(state)@.routes == declared_routes(req@.channels),
        final(state)@.accounts.dom() == declared_limits(req@.accounts).dom(),
        key_views(stopped@).no_duplicates(),
        key_views(stopped@).to_set() == old(state)@.stopped_by_sync(req@),
        untouched_where_routed(old(state)@, final(state)@),
{
    let SyncRequest { channels, accounts } = req;
    let stopped = drop_undeclared(state, &channels);
    install_routes(state, channels);
    reconcile_accounts(state, &accounts);
    stopped
}

/// Reads an account id: an optional `+`, then decimal digits that make a
/// number within `u64`. Anything else is no id.
pub fn parse_account_id(text: &str) -> (id: Option<u64>)
    ensures
        id == parse_id(text@),
{
    let n: usize = text.unicode_len();
    let mut i: usize = 0;
    if n > 0 && text.get_char(0) == '+' {
        i = 1;
    }
    if i == n {
        return None;
    }
    let ghost digits = text@.subrange(i as int, n as int);
    assert(digits =~= (if text@.len() > 0 && text@[0] == '+' {
        text@.drop_first()
    } else {
        text@
    }));
    let start: usize = i;
    let mut value: u64 = 0;
    while i < n
        invariant
            start <= i <= n,
            n == text@.len(),
            digits == text@.subrange(start as int, n as int),
            digits.len() > 0,
            parse_id(text@) == parse_digits(digits),
            forall|k: int| 0 <= k < i - start ==> is_digit(#[trigger] digits[k]),
            value == digits_value(digits.take(i - start)),
        decreases n - i,
    {
        let c = text.get_char(i);
        assert(c == digits[i - start]);
        if !(c >= '0' && c <= '9') {
            return None;
        }
        let d: u64 = (c as u32 - '0' as u32) as u64;
        proof {
            assert(digits.take(i - start + 1).drop_last() =~= digits.take(i - start));
            if all_digits(digits) {
                lemma_prefix_value(digits, i - start + 1);
            }
        }
        if value > (u64::MAX - d) / 10 {
            return None;
        }
        value = value * 10 + d;
        i += 1;
    }
    assert(digits.take(i - start) =~= digits);
    Some(value)
}

/// The value of a prefix of a digit string is at most that of the whole.
proof fn lemma_prefix_value(digits: Seq<char>, k: int)
    requires
        0 <= k <= digits.len(),
        all_digits(digits),
    ensures
        digits_value(digits.take(k)) <= digits_value(digits),
    decreases digits.len() - k,
{
    if k < digits.len() {
        lemma_prefix_value(digits, k + 1);
        assert(digits.take(k + 1).drop_last() =~= digits.take(k));
    } else {
        assert(digits.take(k) =~= digits);
    }
}

} // verus!
