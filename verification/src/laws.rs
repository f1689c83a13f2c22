//! What holds of the shared state whatever is done to it, and how the
//! operations go together.

use crate::machine::{
    bound_to, counted_up, decimal, declared_limits, declared_routes, lemma_decimal_reads_back,
    lemma_drop_none, lemma_drop_step, parse_id, ActiveView, Choice, ClientView, CursorView,
    StateView,
};
use crate::models::{ChannelStatus, StreamView, SyncView};
use crate::status::{active_status_is, idle_status_is, status_is, Clock};
use crate::upstream::MAX_FAILOVERS;
use crate::wire::{chunk_at, remainder, CHUNK_SIZE};
use vstd::prelude::*;
use vstd::set_lib::lemma_len_subset;

verus! {

/// The live channels that hold a slot of `account_id`.
pub open spec fn live_on(s: StateView, account_id: u64) -> Set<Seq<char>> {
    bound_to(s.actives, s.actives.dom(), account_id)
}

/// Every known account counts exactly the live channels bound to it.
pub open spec fn balanced(s: StateView) -> bool {
    forall|a: u64| #[trigger]
        s.accounts.contains_key(a) ==> s.accounts[a].active_connections == live_on(s, a).len()
}

/// The table of live channels is finite and every known account counts
/// exactly the live channels bound to it.
pub open spec fn sound(s: StateView) -> bool {
    s.actives.dom().finite() && balanced(s)
}

/// The counter of `account_id` stands at the bound of its type, where one
/// more slot taken would wrap it.
pub open spec fn wraps_on(s: StateView, account_id: u64) -> bool {
    s.accounts.contains_key(account_id) && s.accounts[account_id].active_connections == u32::MAX
}

/// The upstream that an arrival on `channel_id` starts the channel on, if
/// it starts it.
pub open spec fn started_on(s: StateView, channel_id: Seq<char>) -> Option<Choice> {
    if s.actives.contains_key(channel_id) {
        None
    } else {
        s.select_stream(channel_id)
    }
}

/// The channels bound to an account are finitely many, among the live ones.
proof fn lemma_live_on_finite(s: StateView, a: u64)
    requires
        s.actives.dom().finite(),
    ensures
        live_on(s, a).finite(),
        live_on(s, a).len() <= s.actives.dom().len(),
{
    lemma_len_subset(live_on(s, a), s.actives.dom());
}

/// A channel that becomes live on an account is one more bound to it.
proof fn lemma_live_on_insert(s: StateView, t: StateView, id: Seq<char>, v: ActiveView, a: u64)
    requires
        s.actives.dom().finite(),
        t.actives == s.actives.insert(id, v),
        !s.actives.contains_key(id),
    ensures
        live_on(t, a).len() == live_on(s, a).len() + (if v.account_id == a {
            1int
        } else {
            0
        }),
{
    lemma_live_on_finite(s, a);
    if v.account_id == a {
        assert(live_on(t, a) =~= live_on(s, a).insert(id));
    } else {
        assert(live_on(t, a) =~= live_on(s, a));
    }
}

/// A channel that stops being live is one less bound to its account.
proof fn lemma_live_on_remove(s: StateView, t: StateView, id: Seq<char>, a: u64)
    requires
        s.actives.dom().finite(),
        t.actives == s.actives.remove(id),
    ensures
        live_on(s, a).len() == live_on(t, a).len() + (if s.actives.contains_key(id)
            && s.actives[id].account_id == a {
            1int
        } else {
            0
        }),
{
    lemma_live_on_finite(s, a);
    if s.actives.contains_key(id) && s.actives[id].account_id == a {
        assert(live_on(t, a) =~= live_on(s, a).remove(id));
    } else {
        assert(live_on(t, a) =~= live_on(s, a));
    }
}

/// A live channel that changes but stays on its account leaves the
/// bindings as they are.
proof fn lemma_live_on_update(s: StateView, t: StateView, id: Seq<char>, v: ActiveView, a: u64)
    requires
        t.actives == s.actives.insert(id, v),
        s.actives.contains_key(id),
        s.actives[id].account_id == v.account_id,
    ensures
        live_on(t, a) == live_on(s, a),
        t.actives.dom() == s.actives.dom(),
{
}

/// Replacing a route leaves every count as it is.
pub proof fn lemma_put_channel_keeps_count(s: StateView, channel_id: Seq<char>, routing: Seq<StreamView>)
    requires
        sound(s),
    ensures
        sound(s.put_channel(channel_id, routing)),
{
}

/// Setting the cap of a known account, or of one that no live channel is
/// bound to, leaves every count right.
pub proof fn lemma_put_account_keeps_count(s: StateView, account_id: u64, max_connections: u32)
    requires
        sound(s),
        s.accounts.contains_key(account_id) || live_on(s, account_id).len() == 0,
    ensures
        sound(s.put_account(account_id, max_connections)),
{
}

/// Stopping a live channel and giving back its slot leaves every count
/// right.
pub proof fn lemma_drop_active_keeps_count(s: StateView, channel_id: Seq<char>)
    requires
        sound(s),
    ensures
        sound(s.drop_active(channel_id)),
{
    let t = s.drop_active(channel_id);
    if s.actives.contains_key(channel_id) {
        assert forall|a: u64| #[trigger] t.accounts.contains_key(a) implies t.accounts[a].active_connections
            == live_on(t, a).len() by {
            lemma_live_on_remove(s, t, channel_id, a);
            assert(s.accounts.contains_key(a));
        }
    }
}

/// Deleting a channel leaves every count right.
pub proof fn lemma_delete_channel_keeps_count(s: StateView, channel_id: Seq<char>)
    requires
        sound(s),
    ensures
        sound(s.delete_channel(channel_id)),
{
    let r = StateView { routes: s.routes.remove(channel_id), ..s };
    lemma_drop_active_keeps_count(r, channel_id);
}

/// A client joining, leaving or being served on a live channel leaves every
/// count as it is, and so does a chunk published.
pub proof fn lemma_session_keeps_count(
    s: StateView,
    channel_id: Seq<char>,
    client: ClientView,
    len: nat,
)
    requires
        sound(s),
    ensures
        sound(s.attach(channel_id, client)),
        sound(s.detach(channel_id, client.id)),
        sound(s.delivered(channel_id, client.id, len)),
        sound(s.transferred(channel_id, len)),
{
    if s.actives.contains_key(channel_id) {
        let t1 = s.attach(channel_id, client);
        let t2 = s.detach(channel_id, client.id);
        let t3 = s.delivered(channel_id, client.id, len);
        let t4 = s.transferred(channel_id, len);
        assert forall|a: u64| #[trigger] s.accounts.contains_key(a) implies live_on(t1, a)
            == live_on(s, a) && live_on(t2, a) == live_on(s, a) && live_on(t3, a) == live_on(s, a)
            && live_on(t4, a) == live_on(s, a) by {
            lemma_live_on_update(s, t1, channel_id, t1.actives[channel_id], a);
            lemma_live_on_update(s, t2, channel_id, t2.actives[channel_id], a);
            lemma_live_on_update(s, t4, channel_id, t4.actives[channel_id], a);
            if s.actives[channel_id].clients.contains_key(client.id) {
                lemma_live_on_update(s, t3, channel_id, t3.actives[channel_id], a);
            }
        }
    }
}

/// Starting a channel that is not live, on an account whose counter does
/// not wrap, leaves every count right.
pub proof fn lemma_start_channel_keeps_count(
    s: StateView,
    channel_id: Seq<char>,
    stream_id: u64,
    account_id: u64,
    url: Seq<char>,
    now: u64,
)
    requires
        sound(s),
        !s.actives.contains_key(channel_id),
        !wraps_on(s, account_id),
    ensures
        sound(s.start_channel(channel_id, stream_id, account_id, url, now)),
{
    let t = s.start_channel(channel_id, stream_id, account_id, url, now);
    assert forall|a: u64| #[trigger] t.accounts.contains_key(a) implies t.accounts[a].active_connections
        == live_on(t, a).len() by {
        lemma_live_on_insert(s, t, channel_id, t.actives[channel_id], a);
        assert(s.accounts.contains_key(a));
    }
}

/// A client arriving leaves every count right, unless the channel has to
/// be started on an account whose counter would wrap.
pub proof fn lemma_arrive_keeps_count(s: StateView, channel_id: Seq<char>, client: ClientView, now: u64)
    requires
        sound(s),
        started_on(s, channel_id) matches Some(c) ==> !wraps_on(s, c.1),
    ensures
        sound(s.arrive(channel_id, client, now)),
{
    if s.actives.contains_key(channel_id) {
        lemma_session_keeps_count(s, channel_id, client, 0);
    } else {
        match s.select_stream(channel_id) {
            Some(c) => {
                lemma_start_channel_keeps_count(s, channel_id, c.0, c.1, c.2, now);
                lemma_session_keeps_count(
                    s.start_channel(channel_id, c.0, c.1, c.2, now),
                    channel_id,
                    client,
                    0,
                );
            },
            None => {},
        }
    }
}

/// The upstream task of `channel_id` is in step with the table: the
/// channel is live, on the account whose slot the task holds.
pub open spec fn in_step(s: StateView, channel_id: Seq<char>, cursor: CursorView) -> bool {
    s.actives.contains_key(channel_id) && s.actives[channel_id].account_id == cursor.account_id
}

/// The step looks for another upstream: the attempt failed, without the
/// stop signal and below the cap.
pub open spec fn fails_over(cursor: CursorView, stop_seen: bool, failed: bool) -> bool {
    !stop_seen && failed && counted_up(cursor.failover_count) < MAX_FAILOVERS
}

/// The upstream that the step moves to, if it finds one.
pub open spec fn moves_to(s: StateView, channel_id: Seq<char>, cursor: CursorView, stop_seen: bool, failed: bool) -> Option<
    Choice,
> {
    if fails_over(cursor, stop_seen, failed) {
        s.release(cursor.account_id).select_next_stream(
            channel_id,
            cursor.stream_id,
            cursor.account_id,
        )
    } else {
        None
    }
}

/// The step runs out of upstreams: it looks for another one and finds none.
pub open spec fn runs_dry(s: StateView, channel_id: Seq<char>, cursor: CursorView, stop_seen: bool, failed: bool) -> bool {
    fails_over(cursor, stop_seen, failed) && moves_to(s, channel_id, cursor, stop_seen, failed).is_none()
}

/// A step of an upstream task that is in step with the table leaves every
/// count right. Left out are the step that runs dry while another live
/// channel holds a slot of the same account, which gives the slot back
/// twice, and the step that moves to an account whose counter would wrap.
pub proof fn lemma_upstream_step_keeps_count(
    s: StateView,
    channel_id: Seq<char>,
    cursor: CursorView,
    stop_seen: bool,
    failed: bool,
)
    requires
        sound(s),
        in_step(s, channel_id, cursor),
        runs_dry(s, channel_id, cursor, stop_seen, failed) && s.accounts.contains_key(
            cursor.account_id,
        ) ==> live_on(s, cursor.account_id).len() == 1,
        moves_to(s, channel_id, cursor, stop_seen, failed) matches Some(c) ==> !wraps_on(
            s.release(cursor.account_id),
            c.1,
        ),
    ensures
        sound(s.upstream_step(channel_id, cursor, stop_seen, failed).state),
{
    let a0 = cursor.account_id;
    let out = s.upstream_step(channel_id, cursor, stop_seen, failed).state;
    let released = s.release(a0);
    lemma_live_on_finite(s, a0);
    assert(live_on(s, a0).contains(channel_id));
    if stop_seen || (failed && counted_up(cursor.failover_count) >= MAX_FAILOVERS) {
        assert forall|a: u64| #[trigger] out.accounts.contains_key(a) implies out.accounts[a].active_connections
            == live_on(out, a).len() by {
            lemma_live_on_remove(s, out, channel_id, a);
            assert(s.accounts.contains_key(a));
        }
    } else if failed {
        match released.select_next_stream(channel_id, cursor.stream_id, a0) {
            Some(c) => {
                let moved = released.retarget(channel_id, c);
                let gone = StateView { actives: s.actives.remove(channel_id), ..s };
                assert(moved.actives =~= gone.actives.insert(channel_id, moved.actives[channel_id]));
                assert forall|a: u64| #[trigger] out.accounts.contains_key(a) implies out.accounts[a].active_connections
                    == live_on(out, a).len() by {
                    lemma_live_on_remove(s, gone, channel_id, a);
                    lemma_live_on_insert(gone, moved, channel_id, moved.actives[channel_id], a);
                    assert(live_on(out, a) =~= live_on(moved, a));
                    assert(s.accounts.contains_key(a));
                }
            },
            None => {
                assert forall|a: u64| #[trigger] out.accounts.contains_key(a) implies out.accounts[a].active_connections
                    == live_on(out, a).len() by {
                    lemma_live_on_remove(s, out, channel_id, a);
                    assert(s.accounts.contains_key(a));
                }
            },
        }
    }
}

/// An upstream task that ends takes its channel out of the table, and one
/// that goes on leaves in the table what was there.
pub proof fn lemma_exit_removes_channel(
    s: StateView,
    channel_id: Seq<char>,
    cursor: CursorView,
    stop_seen: bool,
    failed: bool,
)
    ensures
        s.upstream_step(channel_id, cursor, stop_seen, failed).exit ==> !s.upstream_step(
            channel_id,
            cursor,
            stop_seen,
            failed,
        ).state.actives.contains_key(channel_id),
        !s.upstream_step(channel_id, cursor, stop_seen, failed).exit ==> s.upstream_step(
            channel_id,
            cursor,
            stop_seen,
            failed,
        ).state.actives.dom() == s.actives.dom(),
{
    let step = s.upstream_step(channel_id, cursor, stop_seen, failed);
    if !step.exit {
        assert(step.state.actives.dom() =~= s.actives.dom());
    }
}

/// Dropping the undeclared channels among finitely many leaves every count
/// right.
pub proof fn lemma_drop_among_keeps_count(s: StateView, seen: Set<Seq<char>>, declared: Set<Seq<char>>)
    requires
        sound(s),
        seen.finite(),
    ensures
        sound(s.drop_among(seen, declared)),
    decreases seen.len(),
{
    if seen.len() == 0 {
        assert(seen =~= Set::empty());
        lemma_drop_none(s, declared);
    } else {
        let k = seen.choose();
        let rest = seen.remove(k);
        lemma_drop_among_keeps_count(s, rest, declared);
        lemma_drop_step(s, rest, declared, k);
        if !declared.contains(k) {
            lemma_delete_channel_keeps_count(s.drop_among(rest, declared), k);
        }
    }
}

/// The live channels that a reconciliation with `req` keeps.
pub open spec fn kept_by_sync(s: StateView, req: SyncView) -> StateView {
    s.drop_undeclared(declared_routes(req.channels).dom())
}

/// A reconciliation leaves every count right, when no account that it
/// creates has a live channel bound to it that it keeps.
pub proof fn lemma_sync_keeps_count(s: StateView, req: SyncView)
    requires
        sound(s),
        s.routes.dom().finite(),
        forall|a: u64| #[trigger]
            declared_limits(req.accounts).contains_key(a) && !s.accounts.contains_key(a)
                ==> live_on(kept_by_sync(s, req), a).len() == 0,
    ensures
        sound(s.sync(req)),
{
    lemma_drop_among_keeps_count(s, s.routes.dom(), declared_routes(req.channels).dom());
}

/// A reconciliation with what the state already holds changes nothing: no
/// channel is stopped and no counter is reset.
pub proof fn lemma_sync_with_current_state(s: StateView, req: SyncView)
    requires
        declared_routes(req.channels) == s.routes,
        declared_limits(req.accounts).dom() == s.accounts.dom(),
        forall|a: u64| #[trigger]
            s.accounts.contains_key(a) ==> declared_limits(req.accounts)[a]
                == s.accounts[a].max_connections,
    ensures
        s.sync(req) == s,
        s.stopped_by_sync(req) == Set::<Seq<char>>::empty(),
{
    let declared = s.routes.dom();
    let none = Set::<Seq<char>>::empty();
    assert(s.undeclared(declared, declared) =~= none);
    assert forall|a: u64| bound_to(s.actives, none, a).len() == 0 by {
        assert(bound_to(s.actives, none, a) =~= none);
    }
}

/// One thing done to the shared state: by the control plane, by a client
/// session, or by an upstream task.
pub enum Op {
    PutChannel { channel_id: Seq<char>, routing: Seq<StreamView> },
    DeleteChannel { channel_id: Seq<char> },
    PutAccount { account_id: u64, max_connections: u32 },
    Sync { req: SyncView },
    Arrive { channel_id: Seq<char>, client: ClientView, now: u64 },
    Deliver { channel_id: Seq<char>, client_id: Seq<char>, len: nat },
    Depart { channel_id: Seq<char>, client_id: Seq<char> },
    Publish { channel_id: Seq<char>, len: nat },
    Upstream { channel_id: Seq<char>, cursor: CursorView, stop_seen: bool, failed: bool },
}

/// The state after `op`.
pub open spec fn apply(s: StateView, op: Op) -> StateView {
    match op {
        Op::PutChannel { channel_id, routing } => s.put_channel(channel_id, routing),
        Op::DeleteChannel { channel_id } => s.delete_channel(channel_id),
        Op::PutAccount { account_id, max_connections } => s.put_account(
            account_id,
            max_connections,
        ),
        Op::Sync { req } => s.sync(req),
        Op::Arrive { channel_id, client, now } => s.arrive(channel_id, client, now),
        Op::Deliver { channel_id, client_id, len } => s.delivered(channel_id, client_id, len),
        Op::Depart { channel_id, client_id } => s.detach(channel_id, client_id),
        Op::Publish { channel_id, len } => s.transferred(channel_id, len),
        Op::Upstream { channel_id, cursor, stop_seen, failed } => s.upstream_step(
            channel_id,
            cursor,
            stop_seen,
            failed,
        ).state,
    }
}

/// The steps on which the counts stay right. Left out are: an account
/// created while a live channel is bound to it; a counter that would wrap;
/// an upstream task out of step with the table, as after its channel was
/// deleted; and a task that runs dry while its account is shared.
pub open spec fn keeps_count(s: StateView, op: Op) -> bool {
    match op {
        Op::PutAccount { account_id, max_connections } => s.accounts.contains_key(account_id)
            || live_on(s, account_id).len() == 0,
        Op::Sync { req } => s.routes.dom().finite() && forall|a: u64| #[trigger]
            declared_limits(req.accounts).contains_key(a) && !s.accounts.contains_key(a)
                ==> live_on(kept_by_sync(s, req), a).len() == 0,
        Op::Arrive { channel_id, client, now } => (started_on(s, channel_id) matches Some(c)
            ==> !wraps_on(s, c.1)),
        Op::Upstream { channel_id, cursor, stop_seen, failed } => in_step(s, channel_id, cursor)
            && (runs_dry(s, channel_id, cursor, stop_seen, failed) && s.accounts.contains_key(
            cursor.account_id,
        ) ==> live_on(s, cursor.account_id).len() == 1) && (moves_to(
            s,
            channel_id,
            cursor,
            stop_seen,
            failed,
        ) matches Some(c) ==> !wraps_on(s.release(cursor.account_id), c.1)),
        _ => true,
    }
}

/// Every step on which the counts stay right leaves them right.
pub proof fn lemma_step_keeps_count(s: StateView, op: Op)
    requires
        sound(s),
        keeps_count(s, op),
    ensures
        sound(apply(s, op)),
{
    match op {
        Op::PutChannel { channel_id, routing } => {
            lemma_put_channel_keeps_count(s, channel_id, routing);
        },
        Op::DeleteChannel { channel_id } => {
            lemma_delete_channel_keeps_count(s, channel_id);
        },
        Op::PutAccount { account_id, max_connections } => {
            lemma_put_account_keeps_count(s, account_id, max_connections);
        },
        Op::Sync { req } => {
            lemma_sync_keeps_count(s, req);
        },
        Op::Arrive { channel_id, client, now } => {
            lemma_arrive_keeps_count(s, channel_id, client, now);
        },
        Op::Deliver { channel_id, client_id, len } => {
            lemma_session_keeps_count(
                s,
                channel_id,
                ClientView { id: client_id, connected_since: 0, bytes_sent: 0, remote_addr: client_id },
                len,
            );
        },
        Op::Depart { channel_id, client_id } => {
            lemma_session_keeps_count(
                s,
                channel_id,
                ClientView { id: client_id, connected_since: 0, bytes_sent: 0, remote_addr: client_id },
                0,
            );
        },
        Op::Publish { channel_id, len } => {
            lemma_session_keeps_count(
                s,
                channel_id,
                ClientView { id: channel_id, connected_since: 0, bytes_sent: 0, remote_addr: channel_id },
                len,
            );
        },
        Op::Upstream { channel_id, cursor, stop_seen, failed } => {
            lemma_upstream_step_keeps_count(s, channel_id, cursor, stop_seen, failed);
        },
    }
}

/// The state after `ops`, one after the other.
pub open spec fn run(s: StateView, ops: Seq<Op>) -> StateView
    decreases ops.len(),
{
    if ops.len() == 0 {
        s
    } else {
        apply(run(s, ops.drop_last()), ops.last())
    }
}

/// Each step of `ops`, taken in the state that the steps before it lead
/// to, is one on which the counts stay right.
pub open spec fn runs_clean(s: StateView, ops: Seq<Op>) -> bool {
    forall|i: int| 0 <= i < ops.len() ==> keeps_count(run(s, ops.take(i)), #[trigger] ops[i])
}

/// In a fresh state, and after any interleaving of control operations,
/// client sessions and upstream tasks whose steps keep the counts, every
/// known account counts exactly the live channels bound to it.
pub proof fn lemma_run_keeps_count(start_time: u64, ops: Seq<Op>)
    requires
        runs_clean(StateView::empty(start_time), ops),
    ensures
        sound(run(StateView::empty(start_time), ops)),
    decreases ops.len(),
{
    let s = StateView::empty(start_time);
    if ops.len() > 0 {
        let before = ops.drop_last();
        assert forall|i: int| 0 <= i < before.len() implies keeps_count(
            run(s, before.take(i)),
            #[trigger] before[i],
        ) by {
            assert(before.take(i) =~= ops.take(i));
            assert(before[i] == ops[i]);
        }
        lemma_run_keeps_count(start_time, before);
        lemma_step_keeps_count(run(s, before), ops.last());
    }
}

/// Every live channel is routed.
pub open spec fn routed(s: StateView) -> bool {
    s.actives.dom().subset_of(s.routes.dom())
}

/// Whatever is done, every live channel stays routed: a channel is started
/// only on a route, and a route that goes takes its live channel with it.
pub proof fn lemma_step_keeps_routed(s: StateView, op: Op)
    requires
        routed(s),
    ensures
        routed(apply(s, op)),
{
}

/// In a fresh state, and after anything done to it, every live channel is
/// routed.
pub proof fn lemma_run_keeps_routed(start_time: u64, ops: Seq<Op>)
    ensures
        routed(run(StateView::empty(start_time), ops)),
    decreases ops.len(),
{
    if ops.len() > 0 {
        lemma_run_keeps_routed(start_time, ops.drop_last());
        lemma_step_keeps_routed(run(StateView::empty(start_time), ops.drop_last()), ops.last());
    }
}

/// The first `n` chunks of `stream`, one after the other.
pub open spec fn joined(stream: Seq<u8>, n: nat) -> Seq<u8>
    decreases n,
{
    if n == 0 {
        Seq::empty()
    } else {
        joined(stream, (n - 1) as nat) + chunk_at(stream, n - 1)
    }
}

/// The first `n` chunks of a stream, one after the other, are its first
/// `n * CHUNK_SIZE` bytes.
proof fn lemma_joined_is_prefix(stream: Seq<u8>, n: nat)
    requires
        n * CHUNK_SIZE <= stream.len(),
    ensures
        joined(stream, n) == stream.subrange(0, n * CHUNK_SIZE),
    decreases n,
{
    if n > 0 {
        lemma_joined_is_prefix(stream, (n - 1) as nat);
    }
}

/// Cutting keeps every byte in its place: the chunks of a stream, one
/// after the other, and then what is left pending, are the stream.
pub proof fn lemma_chunks_keep_order(stream: Seq<u8>)
    ensures
        joined(stream, stream.len() / CHUNK_SIZE as nat) + remainder(stream) == stream,
{
    lemma_joined_is_prefix(stream, stream.len() / CHUNK_SIZE as nat);
}

/// Cutting goes on where it stopped: after `earlier` was cut, taking in
/// `data` gives the chunks that follow in the whole stream, and leaves
/// pending what the whole stream leaves.
pub proof fn lemma_cutting_continues(earlier: Seq<u8>, data: Seq<u8>)
    ensures
        (earlier + data).len() / CHUNK_SIZE as nat == earlier.len() / CHUNK_SIZE as nat + (remainder(
            earlier,
        ) + data).len() / CHUNK_SIZE as nat,
        forall|k: int|
            0 <= k < (remainder(earlier) + data).len() / CHUNK_SIZE as nat ==> #[trigger] chunk_at(
                remainder(earlier) + data,
                k,
            ) == chunk_at(earlier + data, earlier.len() / CHUNK_SIZE as nat + k),
        remainder(remainder(earlier) + data) == remainder(earlier + data),
{
}

/// The key under which a status report lists an account is read by a
/// reconciliation as that account's id.
pub proof fn lemma_key_reads_back(id: u64)
    ensures
        parse_id(decimal(id as nat)) == Some(id),
{
    lemma_decimal_reads_back(id as nat);
}

/// The ids of a payload's channel entries, in the payload's order.
pub open spec fn declared_ids(channels: Seq<(Seq<char>, Seq<StreamView>)>) -> Seq<Seq<char>> {
    channels.map_values(|e: (Seq<char>, Seq<StreamView>)| e.0)
}

/// The routes that a payload declares are keyed by the ids of its entries,
/// so after a reconciliation the routing table has exactly those keys.
pub proof fn lemma_declared_keys(channels: Seq<(Seq<char>, Seq<StreamView>)>)
    ensures
        declared_routes(channels).dom() == declared_ids(channels).to_set(),
    decreases channels.len(),
{
    let ids = declared_ids(channels);
    if channels.len() > 0 {
        lemma_declared_keys(channels.drop_last());
        let earlier = declared_ids(channels.drop_last());
        assert forall|c: Seq<char>| ids.to_set().contains(c) implies declared_routes(
            channels,
        ).dom().contains(c) by {
            let j = choose|j: int| 0 <= j < ids.len() && ids[j] == c;
            if j < ids.len() - 1 {
                assert(earlier[j] == c);
                assert(earlier.to_set().contains(c));
            }
        }
        assert forall|c: Seq<char>| declared_routes(channels).dom().contains(c) implies ids.to_set().contains(
            c,
        ) by {
            if c == channels.last().0 {
                assert(ids[ids.len() - 1] == c);
            } else {
                assert(earlier.to_set().contains(c));
                let j = choose|j: int| 0 <= j < earlier.len() && earlier[j] == c;
                assert(ids[j] == c);
            }
        }
    }
}

/// A channel that is put while it is not live is reported idle; once a
/// client has arrived and an upstream could be selected, it is reported
/// active on that upstream.
pub proof fn lemma_put_then_status(
    s: StateView,
    channel_id: Seq<char>,
    routing: Seq<StreamView>,
    client: ClientView,
    now: u64,
    clock: Clock,
    status: ChannelStatus,
)
    requires
        !s.actives.contains_key(channel_id),
    ensures
        s.put_channel(channel_id, routing).routes.contains_key(channel_id),
        status_is(status, s.put_channel(channel_id, routing), channel_id, clock)
            ==> idle_status_is(status),
        s.put_channel(channel_id, routing).select_stream(channel_id) matches Some(c) ==> {
            let live = s.put_channel(channel_id, routing).arrive(channel_id, client, now);
            &&& live.actives.contains_key(channel_id)
            &&& live.actives[channel_id].stream_id == c.0
            &&& live.actives[channel_id].account_id == c.1
            &&& live.actives[channel_id].url == c.2
            &&& live.actives[channel_id].clients.contains_key(client.id)
            &&& status_is(status, live, channel_id, clock) ==> active_status_is(
                status,
                live.actives[channel_id],
                clock,
            ) && status.upstream.unwrap().stream_id == c.0 && status.upstream.unwrap().account_id
                == c.1 && status.upstream.unwrap().url@ == c.2
        },
{
}

} // verus!
