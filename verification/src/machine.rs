//! The mathematical model of the shared state and of every operation on it.

use crate::models::{StreamView, SyncView};
use crate::state::AccountState;
use crate::upstream::MAX_FAILOVERS;
use vstd::prelude::*;

verus! {

// ------------------------------------------------------------ the state

/// The model of one attached client.
pub struct ClientView {
    pub id: Seq<char>,
    pub connected_since: u64,
    pub bytes_sent: u64,
    pub remote_addr: Seq<char>,
}

/// The model of one live channel: its current upstream, its counters, its
/// clients by id, and whether its stop signal has been raised.
#[verifier::ext_equal]
pub struct ActiveView {
    pub stream_id: u64,
    pub account_id: u64,
    pub url: Seq<char>,
    pub connected_since: u64,
    pub bytes_transferred: u64,
    pub clients: Map<Seq<char>, ClientView>,
    pub stop_signal: bool,
}

/// The model of the whole shared state.
#[verifier::ext_equal]
pub struct StateView {
    pub start_time: u64,
    pub routes: Map<Seq<char>, Seq<StreamView>>,
    pub actives: Map<Seq<char>, ActiveView>,
    pub accounts: Map<u64, AccountState>,
}

/// The model of an upstream task's position: the pair it reads from and the
/// failures it has counted.
pub struct CursorView {
    pub stream_id: u64,
    pub account_id: u64,
    pub url: Seq<char>,
    pub failover_count: u32,
}

/// The outcome of one step of an upstream task.
#[verifier::ext_equal]
pub struct StepView {
    pub state: StateView,
    pub cursor: CursorView,
    pub exit: bool,
}

// ------------------------------------------------------------ selection

/// An upstream choice: stream id, account id and URL.
pub type Choice = (u64, u64, Seq<char>);

/// `(i, j)` names the `j`-th URL of the `i`-th stream of `routing`.
pub open spec fn is_slot(routing: Seq<StreamView>, i: int, j: int) -> bool {
    0 <= i < routing.len() && 0 <= j < routing[i].urls.len()
}

/// Slot `(i1, j1)` comes before slot `(i2, j2)` in failover order.
pub open spec fn precedes(i1: int, j1: int, i2: int, j2: int) -> bool {
    i1 < i2 || (i1 == i2 && j1 < j2)
}

/// The choice that slot `(i, j)` stands for.
pub open spec fn choice_at(routing: Seq<StreamView>, i: int, j: int) -> Choice {
    (routing[i].id, routing[i].urls[j].account_id, routing[i].urls[j].url)
}

/// An account admits one more upstream when it is unknown, unlimited, or
/// below its cap.
pub open spec fn admissible(accounts: Map<u64, AccountState>, account_id: u64) -> bool {
    !accounts.contains_key(account_id) || accounts[account_id].max_connections == 0
        || accounts[account_id].active_connections < accounts[account_id].max_connections
}

/// Slot `(i, j)` exists and its account admits one more upstream.
pub open spec fn eligible(
    routing: Seq<StreamView>,
    accounts: Map<u64, AccountState>,
    i: int,
    j: int,
) -> bool {
    is_slot(routing, i, j) && admissible(accounts, routing[i].urls[j].account_id)
}

/// Slot `(i, j)` is eligible and no slot before it is.
pub open spec fn first_eligible(
    routing: Seq<StreamView>,
    accounts: Map<u64, AccountState>,
    i: int,
    j: int,
) -> bool {
    eligible(routing, accounts, i, j) && forall|i2: int, j2: int|
        precedes(i2, j2, i, j) ==> !#[trigger] eligible(routing, accounts, i2, j2)
}

/// The first eligible slot's choice, if any slot is eligible.
pub open spec fn select(routing: Seq<StreamView>, accounts: Map<u64, AccountState>) -> Option<
    Choice,
> {
    if exists|i: int, j: int| first_eligible(routing, accounts, i, j) {
        let (i, j) = choose|i: int, j: int| first_eligible(routing, accounts, i, j);
        Some(choice_at(routing, i, j))
    } else {
        None
    }
}

/// Slot `(i, j)` is the pair that failed.
pub open spec fn is_failed(routing: Seq<StreamView>, stream_id: u64, account_id: u64, i: int, j: int) -> bool {
    is_slot(routing, i, j) && routing[i].id == stream_id && routing[i].urls[j].account_id
        == account_id
}

/// Some slot before `(i, j)` is the pair that failed.
pub open spec fn past_failed(routing: Seq<StreamView>, stream_id: u64, account_id: u64, i: int, j: int) -> bool {
    exists|fi: int, fj: int|
        precedes(fi, fj, i, j) && #[trigger] is_failed(routing, stream_id, account_id, fi, fj)
}

/// Slot `(i, j)` may take over from the failed pair: it lies after it, it is
/// not that pair again, and its account admits one more upstream.
pub open spec fn fallback(
    routing: Seq<StreamView>,
    accounts: Map<u64, AccountState>,
    stream_id: u64,
    account_id: u64,
    i: int,
    j: int,
) -> bool {
    eligible(routing, accounts, i, j) && !is_failed(routing, stream_id, account_id, i, j)
        && past_failed(routing, stream_id, account_id, i, j)
}

/// Slot `(i, j)` is a fallback and no slot before it is.
pub open spec fn first_fallback(
    routing: Seq<StreamView>,
    accounts: Map<u64, AccountState>,
    stream_id: u64,
    account_id: u64,
    i: int,
    j: int,
) -> bool {
    fallback(routing, accounts, stream_id, account_id, i, j) && forall|i2: int, j2: int|
        precedes(i2, j2, i, j) ==> !#[trigger] fallback(
            routing,
            accounts,
            stream_id,
            account_id,
            i2,
            j2,
        )
}

/// The first fallback's choice. There is none when the failed pair is not in
/// `routing`, or nothing eligible follows it.
pub open spec fn select_next(
    routing: Seq<StreamView>,
    accounts: Map<u64, AccountState>,
    stream_id: u64,
    account_id: u64,
) -> Option<Choice> {
    if exists|i: int, j: int| first_fallback(routing, accounts, stream_id, account_id, i, j) {
        let (i, j) = choose|i: int, j: int|
            first_fallback(routing, accounts, stream_id, account_id, i, j);
        Some(choice_at(routing, i, j))
    } else {
        None
    }
}

/// Two slots are equal once neither comes before the other.
pub proof fn lemma_slots_total(i1: int, j1: int, i2: int, j2: int)
    ensures
        precedes(i1, j1, i2, j2) || precedes(i2, j2, i1, j1) || (i1 == i2 && j1 == j2),
{
}

/// At most one slot is the first eligible one, so `select` is its choice.
pub proof fn lemma_select_is(
    routing: Seq<StreamView>,
    accounts: Map<u64, AccountState>,
    i: int,
    j: int,
)
    requires
        first_eligible(routing, accounts, i, j),
    ensures
        select(routing, accounts) == Some(choice_at(routing, i, j)),
{
    let (ci, cj) = choose|ci: int, cj: int| first_eligible(routing, accounts, ci, cj);
    lemma_slots_total(i, j, ci, cj);
}

/// At most one slot is the first fallback, so `select_next` is its choice.
pub proof fn lemma_select_next_is(
    routing: Seq<StreamView>,
    accounts: Map<u64, AccountState>,
    stream_id: u64,
    account_id: u64,
    i: int,
    j: int,
)
    requires
        first_fallback(routing, accounts, stream_id, account_id, i, j),
    ensures
        select_next(routing, accounts, stream_id, account_id) == Some(choice_at(routing, i, j)),
{
    let (ci, cj) = choose|ci: int, cj: int|
        first_fallback(routing, accounts, stream_id, account_id, ci, cj);
    lemma_slots_total(i, j, ci, cj);
}

// ------------------------------------------------------------ counters and records

/// The counter after one more slot is taken. It wraps at the type's width.
pub open spec fn taken(count: u32) -> u32 {
    if count == u32::MAX {
        0
    } else {
        (count + 1) as u32
    }
}

/// The counter after `n` slots are given back; it stops at zero.
pub open spec fn given_back(count: u32, n: nat) -> u32 {
    if n >= count {
        0
    } else {
        (count - n) as u32
    }
}

/// One more failure counted; the count stops at the type's bound.
pub open spec fn counted_up(count: u32) -> u32 {
    if count < u32::MAX {
        (count + 1) as u32
    } else {
        count
    }
}

/// A byte counter after `len` more bytes; it wraps at the type's width.
pub open spec fn grown(count: u64, len: nat) -> u64 {
    ((count + len) % 0x1_0000_0000_0000_0000) as u64
}

/// A live channel as it is registered: no client, no byte, no stop signal.
pub open spec fn fresh_channel(stream_id: u64, account_id: u64, url: Seq<char>, now: u64) -> ActiveView {
    ActiveView {
        stream_id,
        account_id,
        url,
        connected_since: now,
        bytes_transferred: 0,
        clients: Map::empty(),
        stop_signal: false,
    }
}

/// A client as it is registered: nothing sent yet.
pub open spec fn fresh_client(id: Seq<char>, remote_addr: Seq<char>, now: u64) -> ClientView {
    ClientView { id, connected_since: now, bytes_sent: 0, remote_addr }
}

/// The table holds no client.
pub open spec fn no_client(clients: Map<Seq<char>, ClientView>) -> bool {
    forall|k: Seq<char>| !clients.contains_key(k)
}

/// The number of clients of each live channel, added up.
pub open spec fn client_total(actives: Map<Seq<char>, ActiveView>, among: Set<Seq<char>>) -> nat {
    among.fold(0nat, add_clients(actives))
}

/// Adds the number of clients of one live channel to a sum.
pub open spec fn add_clients(actives: Map<Seq<char>, ActiveView>) -> spec_fn(nat, Seq<char>) -> nat {
    |sum: nat, c: Seq<char>| sum + actives[c].clients.dom().len()
}

// ------------------------------------------------------------ payloads

/// The decimal digit of value `d`.
pub open spec fn digit_char(d: nat) -> char {
    ('0' as int + d) as char
}

/// The decimal text of `n`, without sign or leading zeros: the key under
/// which a status report lists an account.
pub open spec fn decimal(n: nat) -> Seq<char>
    decreases n,
{
    if n < 10 {
        seq![digit_char(n)]
    } else {
        decimal(n / 10).push(digit_char(n % 10))
    }
}

/// A decimal digit.
pub open spec fn is_digit(c: char) -> bool {
    '0' <= c <= '9'
}

/// The number that a string of decimal digits writes.
pub open spec fn digits_value(digits: Seq<char>) -> nat
    decreases digits.len(),
{
    if digits.len() == 0 {
        0
    } else {
        (digits_value(digits.drop_last()) * 10 + (digits.last() as int - '0' as int)) as nat
    }
}

/// Every character is a decimal digit.
pub open spec fn all_digits(digits: Seq<char>) -> bool {
    forall|k: int| 0 <= k < digits.len() ==> is_digit(#[trigger] digits[k])
}

/// The number that `digits` writes, when they are decimal digits, at least
/// one, and the number is within `u64`.
pub open spec fn parse_digits(digits: Seq<char>) -> Option<u64> {
    if digits.len() > 0 && all_digits(digits) && digits_value(digits) <= u64::MAX {
        Some(digits_value(digits) as u64)
    } else {
        None
    }
}

/// The account id that a payload key writes: an optional `+`, then at
/// least one decimal digit, the number within `u64`.
pub open spec fn parse_id(text: Seq<char>) -> Option<u64> {
    if text.len() > 0 && text[0] == '+' {
        parse_digits(text.drop_first())
    } else {
        parse_digits(text)
    }
}

/// The routing table that a payload declares. Of two entries for one
/// channel the later one stands.
pub open spec fn declared_routes(channels: Seq<(Seq<char>, Seq<StreamView>)>) -> Map<
    Seq<char>,
    Seq<StreamView>,
>
    decreases channels.len(),
{
    if channels.len() == 0 {
        Map::empty()
    } else {
        declared_routes(channels.drop_last()).insert(channels.last().0, channels.last().1)
    }
}

/// The caps that a list of accounts sets. Of two entries for one account
/// the later one stands.
pub open spec fn listed_limits(limits: Seq<(u64, u32)>) -> Map<u64, u32>
    decreases limits.len(),
{
    if limits.len() == 0 {
        Map::empty()
    } else {
        listed_limits(limits.drop_last()).insert(limits.last().0, limits.last().1)
    }
}

/// The caps that a payload declares. An entry whose key is no account id
/// is skipped; of two entries for one account the later one stands.
pub open spec fn declared_limits(accounts: Seq<(Seq<char>, u32)>) -> Map<u64, u32>
    decreases accounts.len(),
{
    if accounts.len() == 0 {
        Map::empty()
    } else {
        let earlier = declared_limits(accounts.drop_last());
        match parse_id(accounts.last().0) {
            Some(id) => earlier.insert(id, accounts.last().1),
            None => earlier,
        }
    }
}

/// The channels among `among` that are live on `account_id`.
pub open spec fn bound_to(
    actives: Map<Seq<char>, ActiveView>,
    among: Set<Seq<char>>,
    account_id: u64,
) -> Set<Seq<char>> {
    Set::new(
        |c: Seq<char>|
            among.contains(c) && actives.contains_key(c) && actives[c].account_id == account_id,
    )
}

// ------------------------------------------------------------ operations

impl StateView {
    /// The state of a fresh process.
    pub open spec fn empty(start_time: u64) -> StateView {
        StateView {
            start_time,
            routes: Map::empty(),
            actives: Map::empty(),
            accounts: Map::empty(),
        }
    }

    /// The upstream a new client's channel would connect to.
    pub open spec fn select_stream(self, channel_id: Seq<char>) -> Option<Choice> {
        if self.routes.contains_key(channel_id) {
            select(self.routes[channel_id], self.accounts)
        } else {
            None
        }
    }

    /// The upstream that takes over after `(stream_id, account_id)` failed.
    pub open spec fn select_next_stream(
        self,
        channel_id: Seq<char>,
        stream_id: u64,
        account_id: u64,
    ) -> Option<Choice> {
        if self.routes.contains_key(channel_id) {
            select_next(self.routes[channel_id], self.accounts, stream_id, account_id)
        } else {
            None
        }
    }

    /// One slot of `account_id` is taken; an unknown account is not counted.
    pub open spec fn acquire(self, account_id: u64) -> StateView {
        if self.accounts.contains_key(account_id) {
            StateView {
                accounts: self.accounts.insert(
                    account_id,
                    AccountState {
                        active_connections: taken(self.accounts[account_id].active_connections),
                        ..self.accounts[account_id]
                    },
                ),
                ..self
            }
        } else {
            self
        }
    }

    /// One slot of `account_id` is given back; a counter at zero stays there.
    pub open spec fn release(self, account_id: u64) -> StateView {
        if self.accounts.contains_key(account_id) {
            StateView {
                accounts: self.accounts.insert(
                    account_id,
                    AccountState {
                        active_connections: given_back(
                            self.accounts[account_id].active_connections,
                            1,
                        ),
                        ..self.accounts[account_id]
                    },
                ),
                ..self
            }
        } else {
            self
        }
    }

    /// The routing of `channel_id` is replaced; live channels are not touched.
    pub open spec fn put_channel(self, channel_id: Seq<char>, routing: Seq<StreamView>) -> StateView {
        StateView { routes: self.routes.insert(channel_id, routing), ..self }
    }

    /// The live channel `channel_id`, if there is one, leaves the table and
    /// one slot of its account is given back.
    pub open spec fn drop_active(self, channel_id: Seq<char>) -> StateView {
        if self.actives.contains_key(channel_id) {
            StateView { actives: self.actives.remove(channel_id), ..self }.release(
                self.actives[channel_id].account_id,
            )
        } else {
            self
        }
    }

    /// The route of `channel_id` is removed and its live channel stopped.
    pub open spec fn delete_channel(self, channel_id: Seq<char>) -> StateView {
        StateView { routes: self.routes.remove(channel_id), ..self }.drop_active(channel_id)
    }

    /// The cap of `account_id` becomes `max_connections`. A known account
    /// keeps its counter; an unknown one starts at zero.
    pub open spec fn put_account(self, account_id: u64, max_connections: u32) -> StateView {
        StateView {
            accounts: self.accounts.insert(
                account_id,
                AccountState {
                    max_connections,
                    active_connections: if self.accounts.contains_key(account_id) {
                        self.accounts[account_id].active_connections
                    } else {
                        0
                    },
                },
            ),
            ..self
        }
    }

    /// A live channel without clients is registered under `channel_id` and
    /// one slot of `account_id` is taken.
    pub open spec fn start_channel(
        self,
        channel_id: Seq<char>,
        stream_id: u64,
        account_id: u64,
        url: Seq<char>,
        now: u64,
    ) -> StateView {
        StateView {
            actives: self.actives.insert(channel_id, fresh_channel(stream_id, account_id, url, now)),
            ..self.acquire(account_id)
        }
    }

    /// `client` joins the live channel `channel_id`.
    pub open spec fn attach(self, channel_id: Seq<char>, client: ClientView) -> StateView {
        if self.actives.contains_key(channel_id) {
            StateView {
                actives: self.actives.insert(
                    channel_id,
                    ActiveView {
                        clients: self.actives[channel_id].clients.insert(client.id, client),
                        ..self.actives[channel_id]
                    },
                ),
                ..self
            }
        } else {
            self
        }
    }

    /// A client arrives for `channel_id`: it joins the live channel, or the
    /// channel is started on the selected upstream and the client joins
    /// that, or, with nothing to select, the state stays as it is.
    pub open spec fn arrive(self, channel_id: Seq<char>, client: ClientView, now: u64) -> StateView {
        if self.actives.contains_key(channel_id) {
            self.attach(channel_id, client)
        } else {
            match self.select_stream(channel_id) {
                Some(c) => self.start_channel(channel_id, c.0, c.1, c.2, now).attach(
                    channel_id,
                    client,
                ),
                None => self,
            }
        }
    }

    /// The client leaves the live channel `channel_id`; when no client is
    /// left, the channel's stop signal is raised.
    pub open spec fn detach(self, channel_id: Seq<char>, client_id: Seq<char>) -> StateView {
        if self.actives.contains_key(channel_id) {
            let left = self.actives[channel_id].clients.remove(client_id);
            StateView {
                actives: self.actives.insert(
                    channel_id,
                    ActiveView {
                        clients: left,
                        stop_signal: self.actives[channel_id].stop_signal || no_client(left),
                        ..self.actives[channel_id]
                    },
                ),
                ..self
            }
        } else {
            self
        }
    }

    /// `len` more bytes were sent to the client.
    pub open spec fn delivered(self, channel_id: Seq<char>, client_id: Seq<char>, len: nat) -> StateView {
        if self.actives.contains_key(channel_id) && self.actives[channel_id].clients.contains_key(
            client_id,
        ) {
            let client = self.actives[channel_id].clients[client_id];
            StateView {
                actives: self.actives.insert(
                    channel_id,
                    ActiveView {
                        clients: self.actives[channel_id].clients.insert(
                            client_id,
                            ClientView { bytes_sent: grown(client.bytes_sent, len), ..client },
                        ),
                        ..self.actives[channel_id]
                    },
                ),
                ..self
            }
        } else {
            self
        }
    }

    /// `len` more bytes were published on the live channel.
    pub open spec fn transferred(self, channel_id: Seq<char>, len: nat) -> StateView {
        if self.actives.contains_key(channel_id) {
            StateView {
                actives: self.actives.insert(
                    channel_id,
                    ActiveView {
                        bytes_transferred: grown(self.actives[channel_id].bytes_transferred, len),
                        ..self.actives[channel_id]
                    },
                ),
                ..self
            }
        } else {
            self
        }
    }

    /// The live channel `channel_id` now reads from `target`.
    pub open spec fn retarget(self, channel_id: Seq<char>, target: Choice) -> StateView {
        if self.actives.contains_key(channel_id) {
            StateView {
                actives: self.actives.insert(
                    channel_id,
                    ActiveView {
                        stream_id: target.0,
                        account_id: target.1,
                        url: target.2,
                        ..self.actives[channel_id]
                    },
                ),
                ..self
            }
        } else {
            self
        }
    }

    /// An upstream task that held a slot of `account_id` for `channel_id`
    /// ends: the slot is given back and the channel leaves the table.
    pub open spec fn finish(self, channel_id: Seq<char>, account_id: u64) -> StateView {
        StateView { actives: self.actives.remove(channel_id), ..self.release(account_id) }
    }

    /// What an upstream task does once a fetch attempt has ended.
    ///
    /// With the stop signal seen, the task ends. After a clean attempt it
    /// fetches again. After a failed one the failure is counted; at the cap
    /// the task ends; below it the slot is given back and the next upstream
    /// after the failed pair is taken, or the task ends when there is none.
    /// A task that ends gives its slot back and removes the channel.
    pub open spec fn upstream_step(
        self,
        channel_id: Seq<char>,
        cursor: CursorView,
        stop_seen: bool,
        failed: bool,
    ) -> StepView {
        let counted = CursorView { failover_count: counted_up(cursor.failover_count), ..cursor };
        if stop_seen {
            StepView { state: self.finish(channel_id, cursor.account_id), cursor, exit: true }
        } else if !failed {
            StepView { state: self, cursor, exit: false }
        } else if counted.failover_count >= MAX_FAILOVERS {
            StepView {
                state: self.finish(channel_id, cursor.account_id),
                cursor: counted,
                exit: true,
            }
        } else {
            let released = self.release(cursor.account_id);
            match released.select_next_stream(channel_id, cursor.stream_id, cursor.account_id) {
                Some(c) => StepView {
                    state: released.retarget(channel_id, c).acquire(c.1),
                    cursor: CursorView {
                        stream_id: c.0,
                        account_id: c.1,
                        url: c.2,
                        failover_count: counted.failover_count,
                    },
                    exit: false,
                },
                None => StepView {
                    state: released.finish(channel_id, cursor.account_id),
                    cursor: counted,
                    exit: true,
                },
            }
        }
    }

    /// The live channels among `seen` that `declared` leaves out.
    pub open spec fn undeclared(self, seen: Set<Seq<char>>, declared: Set<Seq<char>>) -> Set<
        Seq<char>,
    > {
        Set::new(
            |c: Seq<char>| seen.contains(c) && !declared.contains(c) && self.actives.contains_key(c),
        )
    }

    /// Every channel of `seen` that `declared` leaves out loses its route;
    /// if it is live it is stopped, and each channel stopped gives back one
    /// slot of its account.
    pub open spec fn drop_among(self, seen: Set<Seq<char>>, declared: Set<Seq<char>>) -> StateView {
        let gone = self.undeclared(seen, declared);
        StateView {
            start_time: self.start_time,
            routes: self.routes.remove_keys(seen.difference(declared)),
            actives: self.actives.remove_keys(gone),
            accounts: Map::new(
                |a: u64| self.accounts.contains_key(a),
                |a: u64|
                    AccountState {
                        active_connections: given_back(
                            self.accounts[a].active_connections,
                            bound_to(self.actives, gone, a).len(),
                        ),
                        ..self.accounts[a]
                    },
            ),
        }
    }

    /// Every routed channel that `declared` leaves out is deleted.
    pub open spec fn drop_undeclared(self, declared: Set<Seq<char>>) -> StateView {
        self.drop_among(self.routes.dom(), declared)
    }

    /// Every route of `routes` is put into the table.
    pub open spec fn install_routes(self, routes: Map<Seq<char>, Seq<StreamView>>) -> StateView {
        StateView { routes: self.routes.union_prefer_right(routes), ..self }
    }

    /// The accounts become those of `limits`, each with its cap from there.
    /// An account that was known keeps its counter; a new one starts at zero.
    pub open spec fn reconcile_accounts(self, limits: Map<u64, u32>) -> StateView {
        StateView {
            accounts: Map::new(
                |a: u64| limits.contains_key(a),
                |a: u64|
                    AccountState {
                        max_connections: limits[a],
                        active_connections: if self.accounts.contains_key(a) {
                            self.accounts[a].active_connections
                        } else {
                            0
                        },
                    },
            ),
            ..self
        }
    }

    /// The live channels that a reconciliation with `req` stops.
    pub open spec fn stopped_by_sync(self, req: SyncView) -> Set<Seq<char>> {
        self.undeclared(self.routes.dom(), declared_routes(req.channels).dom())
    }

    /// Bulk reconciliation: routed channels that the payload leaves out are
    /// deleted, the payload's routes are put in, and the accounts become the
    /// payload's. Live channels whose id the payload keeps are not touched,
    /// and no counter of a known account is reset.
    pub open spec fn sync(self, req: SyncView) -> StateView {
        let routes = declared_routes(req.channels);
        self.drop_undeclared(routes.dom()).install_routes(routes).reconcile_accounts(
            declared_limits(req.accounts),
        )
    }
}

/// A channel that is routed before and after is live in both states or
/// in neither, and a live one is the same channel, with all it holds.
pub open spec fn untouched_where_routed(before: StateView, after: StateView) -> bool {
    forall|c: Seq<char>|
        before.routes.contains_key(c) && #[trigger] after.routes.contains_key(c) ==> (
        after.actives.contains_key(c) == before.actives.contains_key(c)) && (
        before.actives.contains_key(c) ==> after.actives[c] == before.actives[c])
}

// ------------------------------------------------------------ lemmas

/// Walking a list without repetitions, the items seen grow by the next
/// item, which was not seen before.
pub proof fn lemma_seen_step<A>(keys: Seq<A>, i: int)
    requires
        keys.no_duplicates(),
        0 <= i < keys.len(),
    ensures
        keys.take(i).to_set().finite(),
        !keys.take(i).to_set().contains(keys[i]),
        keys.take(i + 1).to_set() == keys.take(i).to_set().insert(keys[i]),
{
    vstd::seq_lib::seq_to_set_is_finite(keys.take(i));
    assert forall|c: A| keys.take(i).to_set().insert(keys[i]).contains(c) implies keys.take(
        i + 1,
    ).to_set().contains(c) by {
        if c == keys[i] {
            assert(keys.take(i + 1)[i] == c);
        } else {
            let j = choose|j: int| 0 <= j < i && keys.take(i)[j] == c;
            assert(keys.take(i + 1)[j] == c);
        }
    }
}

/// A list without repetitions stays one when an item that it lacks is
/// put at its end, and then holds that item besides.
pub proof fn lemma_push_fresh<A>(listed: Seq<A>, item: A)
    requires
        listed.no_duplicates(),
        !listed.to_set().contains(item),
    ensures
        listed.push(item).no_duplicates(),
        listed.push(item).to_set() == listed.to_set().insert(item),
{
    let longer = listed.push(item);
    assert forall|c: A| listed.to_set().insert(item).contains(c) implies longer.to_set().contains(
        c,
    ) by {
        if c == item {
            assert(longer[listed.len() as int] == c);
        } else {
            let j = choose|j: int| 0 <= j < listed.len() && listed[j] == c;
            assert(longer[j] == c);
        }
    }
}

/// The decimal text of a number reads back as that number.
pub proof fn lemma_decimal_reads_back(n: nat)
    ensures
        decimal(n).len() > 0,
        all_digits(decimal(n)),
        digits_value(decimal(n)) == n,
    decreases n,
{
    let last = digit_char(n % 10);
    assert(last as int == '0' as int + n % 10 && is_digit(last));
    if n < 10 {
        assert(decimal(n).drop_last() =~= Seq::<char>::empty());
        assert(digits_value(Seq::<char>::empty()) == 0);
    } else {
        lemma_decimal_reads_back(n / 10);
        assert(decimal(n).drop_last() =~= decimal(n / 10));
    }
}

/// With no channel in view, nothing is dropped.
pub proof fn lemma_drop_none(s: StateView, declared: Set<Seq<char>>)
    ensures
        s.drop_among(Set::empty(), declared) == s,
        s.undeclared(Set::empty(), declared) == Set::<Seq<char>>::empty(),
{
    let none = Set::<Seq<char>>::empty();
    assert(s.undeclared(none, declared) =~= none);
    assert forall|a: u64| bound_to(s.actives, none, a).len() == 0 by {
        assert(bound_to(s.actives, none, a) =~= none);
    }
}

/// Taking one more channel into view either changes nothing, when the
/// payload declares it, or deletes that channel.
pub proof fn lemma_drop_step(s: StateView, seen: Set<Seq<char>>, declared: Set<Seq<char>>, k: Seq<char>)
    requires
        seen.finite(),
        !seen.contains(k),
    ensures
        s.drop_among(seen.insert(k), declared) == (if declared.contains(k) {
            s.drop_among(seen, declared)
        } else {
            s.drop_among(seen, declared).delete_channel(k)
        }),
        s.undeclared(seen.insert(k), declared) == (if !declared.contains(k)
            && s.actives.contains_key(k) {
            s.undeclared(seen, declared).insert(k)
        } else {
            s.undeclared(seen, declared)
        }),
{
    let before = s.drop_among(seen, declared);
    let after = s.drop_among(seen.insert(k), declared);
    let gone = s.undeclared(seen, declared);
    let gone2 = s.undeclared(seen.insert(k), declared);
    if !declared.contains(k) && s.actives.contains_key(k) {
        assert forall|a: u64| #[trigger] s.accounts.contains_key(a) implies after.accounts[a]
            == before.delete_channel(k).accounts[a] by {
            let b1 = bound_to(s.actives, gone, a);
            let b2 = bound_to(s.actives, gone2, a);
            assert(b1.subset_of(seen));
            vstd::set_lib::lemma_len_subset(b1, seen);
            if a == s.actives[k].account_id {
                assert(b2 =~= b1.insert(k));
            } else {
                assert(b2 =~= b1);
            }
        }
    } else {
        assert(gone2 =~= gone);
    }
}

} // verus!
