use bytes::Bytes;
use channel_proxy::control::{put_account, put_channel};
use channel_proxy::models::{AccountConfig, ChannelConfig, StreamConfig, StreamUrl};
use channel_proxy::state::AppState;
use channel_proxy::stream::{
    attach_client, disconnect_client, session_step, stream_channel, SessionAction, SessionEvent,
    StreamError, CACHE_CONTROL, CONNECTION, CONTENT_TYPE, KEEPALIVE_MILLIS,
};
use channel_proxy::upstream::{
    on_upstream_data, on_upstream_end, upstream_step, FetchEnd, UpstreamNext,
};
use channel_proxy::wire::{ts_null_packet, ChunkBuffer, CHUNK_SIZE};
use tokio::sync::broadcast::error::TryRecvError;

fn one_stream(id: u64, account_id: u64, url: &str) -> ChannelConfig {
    ChannelConfig {
        streams: vec![StreamConfig {
            id,
            urls: vec![StreamUrl { account_id, url: url.to_string() }],
        }],
    }
}

fn happy_state() -> AppState {
    let mut state = AppState::new(0);
    put_channel(&mut state, "ch1".to_string(), one_stream(10, 1, "http://u/a"));
    put_account(&mut state, 1, AccountConfig { max_connections: 2 });
    state
}

fn pattern(len: usize, seed: usize) -> Vec<u8> {
    (0..len).map(|i| ((i * 31 + seed) % 251) as u8).collect()
}

#[test]
fn happy_path() {
    let mut state = happy_state();
    let first =
        attach_client(&mut state, "ch1", "c1".to_string(), "10.0.0.1:1".to_string(), 5).unwrap();
    let task = first.task.unwrap();
    assert_eq!(task.cursor.stream_id, 10);
    assert_eq!(task.cursor.account_id, 1);
    assert_eq!(task.cursor.url, "http://u/a");
    assert_eq!(task.cursor.failover_count, 0);
    assert!(!*task.stop.borrow());
    let second =
        attach_client(&mut state, "ch1", "c2".to_string(), "10.0.0.2:2".to_string(), 6).unwrap();
    assert!(second.task.is_none());
    assert!(second.sender.same_channel(&first.sender));
    assert!(task.bus.same_channel(&first.sender));
    assert_eq!(state.accounts.get(&1).unwrap().active_connections, 1);
    assert_eq!(state.active_channels.len(), 1);
    let active = state.active_channels.get("ch1").unwrap();
    assert_eq!(active.clients.len(), 2);
    assert_eq!(active.stream_id, 10);
    assert_eq!(active.account_id, 1);
    assert_eq!(active.url, "http://u/a");
    assert_eq!(active.connected_since, 5);
    assert_eq!(active.bytes_transferred, 0);
    assert!(!active.stop_signal);
    assert!(active.sender.same_channel(&task.bus));
    let c2 = active.clients.get("c2").unwrap();
    assert_eq!(c2.id, "c2");
    assert_eq!(c2.connected_since, 6);
    assert_eq!(c2.bytes_sent, 0);
    assert_eq!(c2.remote_addr, "10.0.0.2:2");
}

#[test]
fn both_clients_are_served_the_same_chunks_in_publication_order() {
    let mut state = happy_state();
    let first = attach_client(&mut state, "ch1", "c1".to_string(), "a".to_string(), 0).unwrap();
    let second = attach_client(&mut state, "ch1", "c2".to_string(), "b".to_string(), 0).unwrap();
    let task = first.task.unwrap();
    let mut receivers = [first.sender.subscribe(), second.sender.subscribe()];
    let data = pattern(2 * CHUNK_SIZE + 100, 7);
    let mut buffer = ChunkBuffer::new();
    assert_eq!(on_upstream_data(&mut state, "ch1", &mut buffer, &data[..CHUNK_SIZE + 5], &task.bus), 1);
    assert_eq!(on_upstream_data(&mut state, "ch1", &mut buffer, &data[CHUNK_SIZE + 5..], &task.bus), 1);
    assert!(on_upstream_end(&mut state, "ch1", buffer, &task.bus));
    for (receiver, client) in receivers.iter_mut().zip(["c1", "c2"]) {
        let mut body: Vec<u8> = Vec::new();
        let mut chunks = 0;
        loop {
            let event = match receiver.try_recv() {
                Ok(chunk) => SessionEvent::Chunk(chunk),
                Err(TryRecvError::Lagged(n)) => SessionEvent::Lagged(n),
                Err(TryRecvError::Closed) => SessionEvent::Closed,
                Err(TryRecvError::Empty) => break,
            };
            match session_step(&mut state, "ch1", client, event) {
                SessionAction::Send(sent) => {
                    chunks += 1;
                    body.extend_from_slice(&sent);
                },
                other => panic!("unexpected action {:?}", other),
            }
        }
        assert_eq!(chunks, 3);
        assert_eq!(body, data);
    }
    let active = state.active_channels.get("ch1").unwrap();
    assert_eq!(active.bytes_transferred, data.len() as u64);
    assert_eq!(active.clients.get("c1").unwrap().bytes_sent, data.len() as u64);
    assert_eq!(active.clients.get("c2").unwrap().bytes_sent, data.len() as u64);
}

#[test]
fn quota_block() {
    let mut state = AppState::new(0);
    put_account(&mut state, 1, AccountConfig { max_connections: 1 });
    put_channel(&mut state, "ch1".to_string(), one_stream(10, 1, "http://u/a"));
    attach_client(&mut state, "ch1", "c1".to_string(), "a".to_string(), 0).unwrap();
    put_channel(&mut state, "ch2".to_string(), one_stream(20, 1, "http://u/b"));
    let refused = attach_client(&mut state, "ch2", "c2".to_string(), "b".to_string(), 0);
    let error = refused.unwrap_err();
    assert!(matches!(error, StreamError::NoStreams));
    assert_eq!(error.status(), 503);
    assert_eq!(error.message(), "No streams available");
    assert!(!state.active_channels.contains_key("ch2"));
    assert_eq!(state.accounts.get(&1).unwrap().active_connections, 1);
}

#[test]
fn client_on_unrouted_channel_is_refused() {
    let mut state = AppState::new(0);
    let refused = stream_channel(&mut state, "nope", "addr".to_string(), 0);
    assert!(matches!(refused, Err(StreamError::NoStreams)));
    assert_eq!(state.active_channels.len(), 0);
}

#[test]
fn stream_channel_gives_each_client_an_id_of_its_own() {
    let mut state = happy_state();
    let first = stream_channel(&mut state, "ch1", "10.0.0.1:1".to_string(), 3).unwrap();
    let second = stream_channel(&mut state, "ch1", "10.0.0.2:2".to_string(), 4).unwrap();
    assert!(first.task.is_some());
    assert!(second.task.is_none());
    assert!(first.sender.same_channel(&second.sender));
    assert_ne!(first.client_id, second.client_id);
    assert_eq!(first.client_id.len(), 36);
    assert_eq!(first.client_id.as_bytes()[14], b'4');
    let active = state.active_channels.get("ch1").unwrap();
    assert_eq!(active.clients.len(), 2);
    assert_eq!(active.clients.get(&first.client_id).unwrap().remote_addr, "10.0.0.1:1");
    assert_eq!(active.clients.get(&first.client_id).unwrap().id, first.client_id);
    assert_eq!(active.clients.get(&second.client_id).unwrap().connected_since, 4);
}

#[test]
fn arriving_twice_under_one_id_keeps_one_client() {
    let mut state = happy_state();
    attach_client(&mut state, "ch1", "c1".to_string(), "old".to_string(), 1).unwrap();
    attach_client(&mut state, "ch1", "c1".to_string(), "new".to_string(), 2).unwrap();
    let active = state.active_channels.get("ch1").unwrap();
    assert_eq!(active.clients.len(), 1);
    assert_eq!(active.clients.get("c1").unwrap().remote_addr, "new");
}

#[test]
fn failover() {
    let mut state = AppState::new(0);
    put_channel(
        &mut state,
        "ch3".to_string(),
        ChannelConfig {
            streams: vec![
                StreamConfig {
                    id: 10,
                    urls: vec![StreamUrl { account_id: 1, url: "http://bad".to_string() }],
                },
                StreamConfig {
                    id: 20,
                    urls: vec![StreamUrl { account_id: 2, url: "http://good".to_string() }],
                },
            ],
        },
    );
    put_account(&mut state, 1, AccountConfig { max_connections: 10 });
    put_account(&mut state, 2, AccountConfig { max_connections: 10 });
    let attached = attach_client(&mut state, "ch3", "c1".to_string(), "a".to_string(), 0).unwrap();
    let mut receiver = attached.sender.subscribe();
    let mut task = attached.task.unwrap();
    assert_eq!(task.cursor.url, "http://bad");
    assert_eq!(state.accounts.get(&1).unwrap().active_connections, 1);
    let next = upstream_step(&mut state, "ch3", &mut task, FetchEnd::ConnectError);
    assert!(matches!(next, UpstreamNext::Fetch));
    assert_eq!(task.cursor.stream_id, 20);
    assert_eq!(task.cursor.account_id, 2);
    assert_eq!(task.cursor.url, "http://good");
    assert_eq!(task.cursor.failover_count, 1);
    assert_eq!(state.accounts.get(&1).unwrap().active_connections, 0);
    assert_eq!(state.accounts.get(&2).unwrap().active_connections, 1);
    let active = state.active_channels.get("ch3").unwrap();
    assert_eq!((active.stream_id, active.account_id, active.url.as_str()), (20, 2, "http://good"));
    assert_eq!(active.clients.len(), 1);
    assert!(!active.stop_signal);
    drop(active);
    assert!(!*task.stop.borrow());
    let good = pattern(CHUNK_SIZE, 3);
    let mut buffer = ChunkBuffer::new();
    assert_eq!(on_upstream_data(&mut state, "ch3", &mut buffer, &good, &task.bus), 1);
    let action = session_step(&mut state, "ch3", "c1", SessionEvent::Chunk(receiver.try_recv().unwrap()));
    assert!(matches!(action, SessionAction::Send(sent) if sent[..] == good[..]));
}

#[test]
fn last_client_teardown() {
    let mut state = happy_state();
    let attached = attach_client(&mut state, "ch1", "c1".to_string(), "a".to_string(), 0).unwrap();
    let mut receiver = attached.sender.subscribe();
    let mut task = attached.task.unwrap();
    drop(attached.sender);
    assert!(disconnect_client(&mut state, "ch1", "c1"));
    assert!(*task.stop.borrow());
    assert!(state.active_channels.get("ch1").unwrap().stop_signal);
    assert_eq!(state.active_channels.get("ch1").unwrap().clients.len(), 0);
    let next = upstream_step(&mut state, "ch1", &mut task, FetchEnd::Interrupted);
    assert!(matches!(next, UpstreamNext::Exit));
    assert!(!state.active_channels.contains_key("ch1"));
    assert_eq!(state.accounts.get(&1).unwrap().active_connections, 0);
    assert!(state.channel_routes.contains_key("ch1"));
    drop(task);
    assert!(matches!(receiver.try_recv(), Err(TryRecvError::Closed)));
}

#[test]
fn disconnect_of_one_of_two_clients_does_not_stop_the_channel() {
    let mut state = happy_state();
    let first = attach_client(&mut state, "ch1", "c1".to_string(), "a".to_string(), 0).unwrap();
    attach_client(&mut state, "ch1", "c2".to_string(), "b".to_string(), 0).unwrap();
    assert!(!disconnect_client(&mut state, "ch1", "c1"));
    assert!(!*first.task.unwrap().stop.borrow());
    let active = state.active_channels.get("ch1").unwrap();
    assert!(!active.stop_signal);
    assert_eq!(active.clients.len(), 1);
    assert!(active.clients.contains_key("c2"));
}

#[test]
fn disconnect_on_a_channel_that_is_gone_does_nothing() {
    let mut state = happy_state();
    assert!(!disconnect_client(&mut state, "ch1", "c1"));
    assert_eq!(state.active_channels.len(), 0);
}

#[test]
fn disconnect_of_an_unknown_client_stops_an_empty_channel() {
    let mut state = happy_state();
    attach_client(&mut state, "ch1", "c1".to_string(), "a".to_string(), 0).unwrap();
    assert!(!disconnect_client(&mut state, "ch1", "ghost"));
    assert!(disconnect_client(&mut state, "ch1", "c1"));
    assert!(disconnect_client(&mut state, "ch1", "ghost"));
}

#[test]
fn tick_sends_one_null_packet() {
    let mut state = happy_state();
    attach_client(&mut state, "ch1", "c1".to_string(), "a".to_string(), 0).unwrap();
    match session_step(&mut state, "ch1", "c1", SessionEvent::Tick) {
        SessionAction::Send(packet) => assert_eq!(packet, ts_null_packet()),
        other => panic!("unexpected action {:?}", other),
    }
    let active = state.active_channels.get("ch1").unwrap();
    assert_eq!(active.clients.get("c1").unwrap().bytes_sent, 0);
}

#[test]
fn lagged_session_goes_on_and_closed_bus_ends_it() {
    let mut state = happy_state();
    attach_client(&mut state, "ch1", "c1".to_string(), "a".to_string(), 0).unwrap();
    assert!(matches!(
        session_step(&mut state, "ch1", "c1", SessionEvent::Lagged(12)),
        SessionAction::Wait
    ));
    assert!(matches!(
        session_step(&mut state, "ch1", "c1", SessionEvent::Closed),
        SessionAction::End
    ));
    assert_eq!(state.active_channels.get("ch1").unwrap().clients.len(), 1);
}

#[test]
fn chunk_for_a_client_that_is_gone_is_still_sent_on() {
    let mut state = happy_state();
    let chunk = Bytes::from(vec![9u8; 10]);
    let action = session_step(&mut state, "ch1", "c1", SessionEvent::Chunk(chunk.clone()));
    assert!(matches!(action, SessionAction::Send(sent) if sent == chunk));
    assert_eq!(state.active_channels.len(), 0);
}

#[test]
fn delivered_bytes_add_up_and_wrap() {
    let mut state = happy_state();
    attach_client(&mut state, "ch1", "c1".to_string(), "a".to_string(), 0).unwrap();
    session_step(&mut state, "ch1", "c1", SessionEvent::Chunk(Bytes::from(vec![0u8; 188])));
    session_step(&mut state, "ch1", "c1", SessionEvent::Chunk(Bytes::from(vec![0u8; 12])));
    assert_eq!(
        state.active_channels.get("ch1").unwrap().clients.get("c1").unwrap().bytes_sent,
        200
    );
    state
        .active_channels
        .get("ch1")
        .unwrap()
        .clients
        .get_mut("c1")
        .unwrap()
        .bytes_sent = u64::MAX - 1;
    session_step(&mut state, "ch1", "c1", SessionEvent::Chunk(Bytes::from(vec![0u8; 5])));
    assert_eq!(
        state.active_channels.get("ch1").unwrap().clients.get("c1").unwrap().bytes_sent,
        3
    );
}

#[test]
fn null_packet_is_a_transport_stream_null_packet() {
    let packet = ts_null_packet();
    assert_eq!(packet.len(), 188);
    assert_eq!(&packet[..4], &[0x47, 0x1F, 0xFF, 0x10]);
    assert!(packet[4..].iter().all(|b| *b == 0));
    let pid = ((packet[1] as u16 & 0x1F) << 8) | packet[2] as u16;
    assert_eq!(pid, 0x1FFF);
    assert_eq!((packet[3] >> 4) & 0x3, 1);
}

#[test]
fn stream_constants_are_those_of_the_wire() {
    assert_eq!(KEEPALIVE_MILLIS, 500);
    assert_eq!(CONTENT_TYPE, "video/mp2t");
    assert_eq!(CACHE_CONTROL, "no-cache");
    assert_eq!(CONNECTION, "keep-alive");
}
