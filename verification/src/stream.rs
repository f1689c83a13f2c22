//! The client session: admission to a channel, what a session does on each
//! event of its body loop, and the cleanup when the client is gone.

use crate::machine::{fresh_client, no_client, Choice, CursorView, StateView};
use crate::signal::stop_send;
use crate::state::{AppState, ClientState};
use crate::table::{
    actives_insert, actives_remove, client_entries, clients_get, clients_insert, clients_keys,
    clients_remove, key_views,
};
use crate::upstream::{start_channel, UpstreamCursor, UpstreamTask};
use crate::wire::{bytes_len, bytes_of, null_packet, ts_null_packet};
use bytes::Bytes;
use tokio::sync::broadcast;
use vstd::prelude::*;

verus! {

/// The pause between two keepalive packets, in milliseconds.
pub const KEEPALIVE_MILLIS: u64 = 500;

/// The content type of a streamed body.
pub const CONTENT_TYPE: &'static str = "video/mp2t";

/// The cache directive of a streamed body.
pub const CACHE_CONTROL: &'static str = "no-cache";

/// The connection directive of a streamed body.
pub const CONNECTION: &'static str = "keep-alive";

/// Why a client could not be admitted.
#[derive(Clone, Copy, Debug)]
pub enum StreamError {
    /// The channel is not live and no upstream of it can be selected.
    NoStreams,
}

impl StreamError {
    /// The response status that reports this error: 503.
    pub fn status(&self) -> (code: u16)
        ensures
            code == 503,
    {
        503
    }

    /// The response body that reports this error.
    pub fn message(&self) -> (text: &'static str)
        ensures
            text@ == "No streams available"@,
    {
        "No streams available"
    }
}

/// A client that joined a channel. `sender` is a handle on the channel's
/// broadcast bus, to subscribe the session on. `task` is `Some` when the
/// channel was started for this client: the caller then runs the upstream
/// task with it.
#[derive(Debug)]
pub struct Attached {
    pub sender: broadcast::Sender<Bytes>,
    pub task: Option<UpstreamTask>,
}

/// An admitted client: the identifier it was given, and what it joined.
#[derive(Debug)]
pub struct Admission {
    pub client_id: String,
    pub sender: broadcast::Sender<Bytes>,
    pub task: Option<UpstreamTask>,
}

/// The position at which an upstream task starts on `choice`.
pub open spec fn first_cursor(choice: Choice) -> CursorView {
    CursorView { stream_id: choice.0, account_id: choice.1, url: choice.2, failover_count: 0 }
}

/// The model of the task that an admission hands out: the position it
/// starts at, if there is a task.
pub open spec fn task_view(task: Option<UpstreamTask>) -> Option<CursorView> {
    match task {
        Some(t) => Some(t.cursor@),
        None => None,
    }
}

/// The task that an arrival on `channel_id` calls for: none when the
/// channel is live, else one on the selected upstream.
pub open spec fn task_due(state: StateView, channel_id: Seq<char>) -> Option<CursorView> {
    if state.actives.contains_key(channel_id) {
        None
    } else {
        match state.select_stream(channel_id) {
            Some(c) => Some(first_cursor(c)),
            None => None,
        }
    }
}

/// `uuid::Uuid::new_v4` and its text form: a random identifier, drawn from
/// the operating system's generator. Nothing is stated of it; the outside
/// function panics when the system hands out no random bytes.
#[verifier::external_body]
fn new_client_id() -> (id: String) {
    uuid::Uuid::new_v4().to_string()
}

/// Puts `client` into the client table of the live channel `channel_id`.
fn join(state: &mut AppState, channel_id: &str, client: ClientState)
    requires
        old(state)@.actives.contains_key(channel_id@),
    ensures
        final(state)@ == old(state)@.attach(channel_id@, client@),
{
    match actives_remove(&mut state.active_channels, channel_id) {
        Some(mut active) => {
            let key = client.id.clone();
            clients_insert(&mut active.clients, key, client);
            actives_insert(&mut state.active_channels, channel_id.to_owned(), active);
        },
        None => {},
    }
}

/// Whether an arrival on `channel_id` is refused: the channel is not live
/// and no upstream of it can be selected.
pub open spec fn refused(state: StateView, channel_id: Seq<char>) -> bool {
    !state.actives.contains_key(channel_id) && state.select_stream(channel_id).is_none()
}

/// Admits the client `client_id`, connected from `remote_addr` at `now`, to
/// `channel_id`.
///
/// A live channel takes the client as it is. Otherwise an upstream is
/// selected; the channel is started on it and takes the client, and the
/// upstream task to run comes back. With nothing to select the client is
/// refused and the state stays as it was.
pub fn attach_client(
    state: &mut AppState,
    channel_id: &str,
    client_id: String,
    remote_addr: String,
    now: u64,
) -> (outcome: Result<Attached, StreamError>)
    ensures
        final(state)@ == old(state)@.arrive(
            channel_id@,
            fresh_client(client_id@, remote_addr@, now),
            now,
        ),
        outcome.is_err() == refused(old(state)@, channel_id@),
        outcome.is_ok() ==> task_view(outcome.unwrap().task) == task_due(old(state)@, channel_id@),
{
    let client = ClientState { id: client_id, connected_since: now, bytes_sent: 0, remote_addr };
    match actives_remove(&mut state.active_channels, channel_id) {
        Some(active) => {
            let sender = active.sender.clone();
            actives_insert(&mut state.active_channels, channel_id.to_owned(), active);
            join(state, channel_id, client);
            Ok(Attached { sender, task: None })
        },
        None => {
            match state.select_stream(channel_id) {
                Some((stream_id, account_id, url)) => {
                    let (active, stop) = start_channel(
                        state,
                        channel_id.to_owned(),
                        stream_id,
                        account_id,
                        url.clone(),
                        now,
                    );
                    join(state, channel_id, client);
                    let cursor = UpstreamCursor { stream_id, account_id, url, failover_count: 0 };
                    let bus = active.sender.clone();
                    Ok(Attached { sender: active.sender, task: Some(UpstreamTask { cursor, bus, stop }) })
                },
                None => Err(StreamError::NoStreams),
            }
        },
    }
}

/// Admits a client, connected from `remote_addr` at `now`, to `channel_id`
/// under a fresh random identifier. See [`attach_client`].
pub fn stream_channel(state: &mut AppState, channel_id: &str, remote_addr: String, now: u64) -> (outcome:
    Result<Admission, StreamError>)
    ensures
        outcome.is_err() == refused(old(state)@, channel_id@),
        outcome.is_err() ==> final(state)@ == old(state)@,
        outcome.is_ok() ==> final(state)@ == old(state)@.arrive(
            channel_id@,
            fresh_client(outcome.unwrap().client_id@, remote_addr@, now),
            now,
        ),
        outcome.is_ok() ==> task_view(outcome.unwrap().task) == task_due(old(state)@, channel_id@),
{
    let client_id = new_client_id();
    match attach_client(state, channel_id, client_id.clone(), remote_addr, now) {
        Ok(attached) => Ok(Admission { client_id, sender: attached.sender, task: attached.task }),
        Err(e) => Err(e),
    }
}

/// What the body loop of a session has just seen.
#[derive(Debug)]
pub enum SessionEvent {
    /// The broadcast bus delivered a chunk.
    Chunk(Bytes),
    /// The session fell behind and this many chunks were lost to it.
    Lagged(u64),
    /// The broadcast bus is closed: the upstream task is gone.
    Closed,
    /// The keepalive timer ticked.
    Tick,
}

/// What the body loop of a session does next.
#[derive(Debug)]
pub enum SessionAction {
    /// Write these bytes to the client, then wait for the next event.
    Send(Bytes),
    /// Wait for the next event.
    Wait,
    /// End the body.
    End,
}

/// Adds `len` to the byte counter of a client of a live channel.
fn record_delivery(state: &mut AppState, channel_id: &str, client_id: &str, len: u64)
    ensures
        final(state)@ == old(state)@.delivered(channel_id@, client_id@, len as nat),
{
    match actives_remove(&mut state.active_channels, channel_id) {
        Some(mut active) => {
            match clients_get(&active.clients, client_id) {
                Some(client) => {
                    let counted = ClientState {
                        bytes_sent: client.bytes_sent.wrapping_add(len),
                        ..client
                    };
                    clients_insert(&mut active.clients, client_id.to_owned(), counted);
                },
                None => {},
            }
            actives_insert(&mut state.active_channels, channel_id.to_owned(), active);
        },
        None => {},
    }
}

/// Decides what the session of `client_id` on `channel_id` does on
/// `event`.
///
/// A chunk is counted on the client's byte counter and sent on as it is. A
/// tick sends one null packet, whether or not data flowed since the last
/// one. A session that lagged goes on with what the bus delivers next. A
/// closed bus ends the body.
pub fn session_step(state: &mut AppState, channel_id: &str, client_id: &str, event: SessionEvent) -> (action:
    SessionAction)
    ensures
        match event {
            SessionEvent::Chunk(b) => action matches SessionAction::Send(sent) && bytes_of(sent)
                == bytes_of(b) && final(state)@ == old(state)@.delivered(
                channel_id@,
                client_id@,
                bytes_of(b).len(),
            ),
            SessionEvent::Tick => action matches SessionAction::Send(sent) && bytes_of(sent)
                == null_packet() && final(state)@ == old(state)@,
            SessionEvent::Lagged(_) => action is Wait && final(state)@ == old(state)@,
            SessionEvent::Closed => action is End && final(state)@ == old(state)@,
        },
{
    match event {
        SessionEvent::Chunk(chunk) => {
            let len: usize = bytes_len(&chunk);
            record_delivery(state, channel_id, client_id, len as u64);
            SessionAction::Send(chunk)
        },
        SessionEvent::Tick => SessionAction::Send(ts_null_packet()),
        SessionEvent::Lagged(_) => SessionAction::Wait,
        SessionEvent::Closed => SessionAction::End,
    }
}

/// Cleans up after the client `client_id` of `channel_id`, on whatever
/// path its body ended: the client leaves the channel's table, and when no
/// client is left the channel's stop signal is sent. Returns whether it
/// was; it is sent each time the table is found empty, also when it was up
/// already.
pub fn disconnect_client(state: &mut AppState, channel_id: &str, client_id: &str) -> (stop: bool)
    ensures
        final(state)@ == old(state)@.detach(channel_id@, client_id@),
        stop == (old(state)@.actives.contains_key(channel_id@) && no_client(
            old(state)@.actives[channel_id@].clients.remove(client_id@),
        )),
{
    match actives_remove(&mut state.active_channels, channel_id) {
        Some(mut active) => {
            clients_remove(&mut active.clients, client_id);
            let left = clients_keys(&active.clients);
            let stop: bool = left.len() == 0;
            proof {
                if !stop {
                    assert(client_entries(active.clients).contains_key(key_views(left@)[0]));
                }
            }
            if stop {
                stop_send(&active.stop_tx, true);
                active.stop_signal = true;
            }
            actives_insert(&mut state.active_channels, channel_id.to_owned(), active);
            stop
        },
        None => false,
    }
}

} // verus!
