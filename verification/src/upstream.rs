//! The upstream engine: registering a live channel, deciding what follows
//! a fetch attempt, and accounting for published chunks.

use crate::machine::{fresh_channel, CursorView, StateView, StepView};
use crate::signal::{bus_open, bus_send, stop_open, stop_read};
use crate::state::{ActiveChannel, AppState};
use crate::table::{actives_insert, actives_remove, clients_new};
use crate::wire::{remainder, ChunkBuffer, CHUNK_SIZE};
use bytes::Bytes;
use tokio::sync::{broadcast, watch};
use vstd::prelude::*;

verus! {

/// The number of chunks the broadcast bus of a channel holds.
pub const BROADCAST_CAPACITY: usize = 64;

/// The number of failed fetch attempts after which a channel gives up.
pub const MAX_FAILOVERS: u32 = 10;

/// How a fetch attempt ended.
#[derive(Clone, Copy, Debug)]
pub enum FetchEnd {
    /// The stop signal interrupted the read.
    Interrupted,
    /// The connection could not be made.
    ConnectError,
    /// The upstream answered with this status, which is no success.
    HttpStatus(u16),
    /// The body could not be read to its end.
    ReadError,
    /// The body ended.
    StreamEnded,
}

impl FetchEnd {
    /// Every end but an interruption counts as a failure of the upstream.
    pub open spec fn failed(self) -> bool {
        !(self is Interrupted)
    }

    /// Whether this end counts as a failure of the upstream.
    pub fn is_error(&self) -> (yes: bool)
        ensures
            yes == self.failed(),
    {
        match self {
            FetchEnd::Interrupted => false,
            _ => true,
        }
    }

    /// Judges a response status: `None` for a success (200 to 299), in
    /// which case the body is read; otherwise the failure to report.
    pub fn from_status(code: u16) -> (end: Option<FetchEnd>)
        ensures
            end == (if 200 <= code <= 299 {
                None
            } else {
                Some(FetchEnd::HttpStatus(code))
            }),
    {
        if 200 <= code && code <= 299 {
            None
        } else {
            Some(FetchEnd::HttpStatus(code))
        }
    }
}

/// What an upstream task does next.
#[derive(Clone, Copy, Debug)]
pub enum UpstreamNext {
    /// Fetch from the cursor's URL.
    Fetch,
    /// End the task; its slot and its table entry are already gone.
    Exit,
}

/// The position of an upstream task: the pair it reads from and the
/// failures it has counted.
#[derive(Clone, Debug)]
pub struct UpstreamCursor {
    pub stream_id: u64,
    pub account_id: u64,
    pub url: String,
    pub failover_count: u32,
}

impl View for UpstreamCursor {
    type V = CursorView;

    open spec fn view(&self) -> CursorView {
        CursorView {
            stream_id: self.stream_id,
            account_id: self.account_id,
            url: self.url@,
            failover_count: self.failover_count,
        }
    }
}

/// What an upstream task works with: its position, the sending end of the
/// channel's broadcast bus, and the receiving end of its stop signal.
#[derive(Debug)]
pub struct UpstreamTask {
    pub cursor: UpstreamCursor,
    pub bus: broadcast::Sender<Bytes>,
    pub stop: watch::Receiver<bool>,
}

/// Registers a live channel for `channel_id` that reads `url` of
/// `stream_id` on `account_id`, and takes one slot of that account.
///
/// A broadcast bus of `BROADCAST_CAPACITY` slots and a stop signal that is
/// down are made for it. The channel is in the table when this returns, so
/// that the next client finds it. Returns the channel as registered, with
/// handles on its bus and its stop signal, and the receiving end of the
/// stop signal for the upstream task that the caller runs.
pub fn start_channel(
    state: &mut AppState,
    channel_id: String,
    stream_id: u64,
    account_id: u64,
    url: String,
    now: u64,
) -> (started: (ActiveChannel, watch::Receiver<bool>))
    ensures
        final(state)@ == old(state)@.start_channel(channel_id@, stream_id, account_id, url@, now),
        started.0@ == fresh_channel(stream_id, account_id, url@, now),
{
    let sender = bus_open(BROADCAST_CAPACITY);
    let (stop_tx, stop_rx) = stop_open(false);
    let registered = ActiveChannel {
        stream_id,
        account_id,
        url: url.clone(),
        connected_since: now,
        bytes_transferred: 0,
        sender: sender.clone(),
        clients: clients_new(),
        stop_tx: stop_tx.clone(),
        stop_signal: false,
    };
    let active = ActiveChannel {
        stream_id,
        account_id,
        url,
        connected_since: now,
        bytes_transferred: 0,
        sender,
        clients: clients_new(),
        stop_tx,
        stop_signal: false,
    };
    state.increment_connections(account_id);
    actives_insert(&mut state.active_channels, channel_id, registered);
    (active, stop_rx)
}

/// Ends an upstream task that holds a slot of `account_id`: the slot is
/// given back and `channel_id` leaves the table of live channels.
fn finish_upstream(state: &mut AppState, channel_id: &str, account_id: u64)
    ensures
        final(state)@ == old(state)@.finish(channel_id@, account_id),
{
    state.decrement_connections(account_id);
    let _ = actives_remove(&mut state.active_channels, channel_id);
}

/// Records on the live channel that it now reads from `target`.
fn retarget(state: &mut AppState, channel_id: &str, stream_id: u64, account_id: u64, url: String)
    ensures
        final(state)@ == old(state)@.retarget(channel_id@, (stream_id, account_id, url@)),
{
    match actives_remove(&mut state.active_channels, channel_id) {
        Some(active) => {
            let moved = ActiveChannel { stream_id, account_id, url, ..active };
            actives_insert(&mut state.active_channels, channel_id.to_owned(), moved);
        },
        None => {},
    }
}

/// Decides what the upstream task of `channel_id` does after a fetch
/// attempt that ended with `end`; `stop_seen` tells whether the channel's
/// stop signal was up when the attempt returned.
///
/// With the stop signal up the task ends. After an interruption without it
/// the task fetches again from the same URL. After a failure the count goes
/// up by one; at `MAX_FAILOVERS` the task ends. Below it the slot of the
/// failed account is given back, and the next upstream after the failed
/// pair is selected in the routing as it is now: if there is one, the live
/// channel and the cursor move to it and a slot of its account is taken; if
/// there is none, the task ends. A task that ends gives its slot back and
/// removes the channel from the table.
pub fn upstream_decide(
    state: &mut AppState,
    channel_id: &str,
    cursor: &mut UpstreamCursor,
    stop_seen: bool,
    end: FetchEnd,
) -> (next: UpstreamNext)
    ensures
        final(state)@ == old(state)@.upstream_step(
            channel_id@,
            old(cursor)@,
            stop_seen,
            end.failed(),
        ).state,
        final(cursor)@ == old(state)@.upstream_step(
            channel_id@,
            old(cursor)@,
            stop_seen,
            end.failed(),
        ).cursor,
        (next is Exit) == old(state)@.upstream_step(
            channel_id@,
            old(cursor)@,
            stop_seen,
            end.failed(),
        ).exit,
{
    if stop_seen {
        finish_upstream(state, channel_id, cursor.account_id);
        return UpstreamNext::Exit;
    }
    if !end.is_error() {
        return UpstreamNext::Fetch;
    }
    if cursor.failover_count < u32::MAX {
        cursor.failover_count = cursor.failover_count + 1;
    }
    if cursor.failover_count >= MAX_FAILOVERS {
        finish_upstream(state, channel_id, cursor.account_id);
        return UpstreamNext::Exit;
    }
    state.decrement_connections(cursor.account_id);
    match state.select_next_stream(channel_id, cursor.stream_id, cursor.account_id) {
        Some((stream_id, account_id, url)) => {
            retarget(state, channel_id, stream_id, account_id, url.clone());
            state.increment_connections(account_id);
            cursor.stream_id = stream_id;
            cursor.account_id = account_id;
            cursor.url = url;
            UpstreamNext::Fetch
        },
        None => {
            finish_upstream(state, channel_id, cursor.account_id);
            UpstreamNext::Exit
        },
    }
}

/// `next`, `state` and `cursor` are what `step` says.
pub open spec fn step_is(step: StepView, state: StateView, cursor: CursorView, next: UpstreamNext) -> bool {
    state == step.state && cursor == step.cursor && (next is Exit) == step.exit
}

/// Decides what the upstream task of `channel_id` does after a fetch
/// attempt that ended with `end`. The stop signal is read at this moment,
/// and the step is the one that [`upstream_decide`] takes on what was read.
pub fn upstream_step(state: &mut AppState, channel_id: &str, task: &mut UpstreamTask, end: FetchEnd) -> (next:
    UpstreamNext)
    ensures
        final(task).bus == old(task).bus,
        final(task).stop == old(task).stop,
        exists|stop_seen: bool|
            step_is(
                #[trigger] old(state)@.upstream_step(
                    channel_id@,
                    old(task).cursor@,
                    stop_seen,
                    end.failed(),
                ),
                final(state)@,
                final(task).cursor@,
                next,
            ),
{
    let stop_seen = stop_read(&task.stop);
    upstream_decide(state, channel_id, &mut task.cursor, stop_seen, end)
}

/// Adds `len` to the byte counter of the live channel `channel_id`.
fn record_transfer(state: &mut AppState, channel_id: &str, len: u64)
    ensures
        final(state)@ == old(state)@.transferred(channel_id@, len as nat),
{
    match actives_remove(&mut state.active_channels, channel_id) {
        Some(active) => {
            let counted = ActiveChannel {
                bytes_transferred: active.bytes_transferred.wrapping_add(len),
                ..active
            };
            actives_insert(&mut state.active_channels, channel_id.to_owned(), counted);
        },
        None => {},
    }
}

/// The state after `n` chunks were published on `channel_id`, one by one.
pub open spec fn published(state: StateView, channel_id: Seq<char>, n: nat) -> StateView
    decreases n,
{
    if n == 0 {
        state
    } else {
        published(state, channel_id, (n - 1) as nat).transferred(channel_id, CHUNK_SIZE as nat)
    }
}

/// Takes in `data` read from the upstream of `channel_id`: the bytes join
/// those pending in `buffer`, and every whole chunk is cut off, counted on
/// the live channel's byte counter and sent on `bus`, in stream order. What
/// does not fill a chunk stays pending. A chunk sent while nobody is
/// subscribed is discarded. Returns the number of chunks sent.
pub fn on_upstream_data(
    state: &mut AppState,
    channel_id: &str,
    buffer: &mut ChunkBuffer,
    data: &[u8],
    bus: &broadcast::Sender<Bytes>,
) -> (sent: usize)
    ensures
        sent == (old(buffer)@ + data@).len() / CHUNK_SIZE as nat,
        final(buffer)@ == remainder(old(buffer)@ + data@),
        final(state)@ == published(old(state)@, channel_id@, sent as nat),
{
    let chunks = buffer.push(data);
    let sent: usize = chunks.len();
    let mut k: usize = 0;
    for chunk in it: chunks
        invariant
            k == it.index(),
            it.seq().len() == sent,
            state@ == published(old(state)@, channel_id@, k as nat),
    {
        record_transfer(state, channel_id, CHUNK_SIZE as u64);
        bus_send(bus, chunk);
        k += 1;
    }
    sent
}

/// Takes in the end of the upstream's body: the bytes pending in `buffer`
/// are counted on the live channel's byte counter and sent on `bus` as one
/// last, short chunk. Returns whether there was anything to send.
pub fn on_upstream_end(
    state: &mut AppState,
    channel_id: &str,
    buffer: ChunkBuffer,
    bus: &broadcast::Sender<Bytes>,
) -> (sent: bool)
    ensures
        sent == (buffer@.len() > 0),
        final(state)@ == (if sent {
            old(state)@.transferred(channel_id@, buffer@.len())
        } else {
            old(state)@
        }),
{
    let pending: usize = buffer.pending_len();
    match buffer.finish() {
        Some(last) => {
            record_transfer(state, channel_id, pending as u64);
            bus_send(bus, last);
            true
        },
        None => false,
    }
}

} // verus!
