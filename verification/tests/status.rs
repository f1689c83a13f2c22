use channel_proxy::control::{parse_account_id, put_account, put_channel};
use channel_proxy::models::{AccountConfig, ChannelConfig, StreamConfig, StreamUrl};
use channel_proxy::state::AppState;
use channel_proxy::status::{
    account_key, channel_detail, channels_status, format_instant, health, Clock, StatusError,
};
use channel_proxy::stream::attach_client;
use channel_proxy::upstream::on_upstream_data;
use channel_proxy::wire::{ChunkBuffer, CHUNK_SIZE};

const SECOND: u64 = 1_000_000_000;

fn one_stream(id: u64, account_id: u64, url: &str) -> ChannelConfig {
    ChannelConfig {
        streams: vec![StreamConfig {
            id,
            urls: vec![StreamUrl { account_id, url: url.to_string() }],
        }],
    }
}

fn clock() -> Clock {
    Clock { monotonic: 100 * SECOND, unix_secs: 1431648000, unix_nanos: 0 }
}

#[test]
fn instant_now_is_the_wall_clock_now() {
    assert_eq!(format_instant(100 * SECOND, &clock()), "2015-05-15T00:00:00+00:00");
}

#[test]
fn instant_in_the_past_is_the_wall_clock_less_what_elapsed() {
    assert_eq!(format_instant(40 * SECOND, &clock()), "2015-05-14T23:59:00+00:00");
    assert_eq!(
        format_instant(100 * SECOND - 1_500_000_000, &clock()),
        "2015-05-14T23:59:58.500+00:00"
    );
    assert_eq!(format_instant(100 * SECOND - 1, &clock()), "2015-05-14T23:59:59.999999999+00:00");
}

#[test]
fn instant_in_the_future_counts_as_now() {
    assert_eq!(format_instant(200 * SECOND, &clock()), "2015-05-15T00:00:00+00:00");
}

#[test]
fn instant_before_the_epoch_is_written_too() {
    let early = Clock { monotonic: 10 * SECOND, unix_secs: 5, unix_nanos: 250_000_000 };
    assert_eq!(format_instant(0, &early), "1969-12-31T23:59:55.250+00:00");
    let exact = Clock { monotonic: 10 * SECOND, unix_secs: 5, unix_nanos: 0 };
    assert_eq!(format_instant(0, &exact), "1969-12-31T23:59:55+00:00");
}

#[test]
fn instant_outside_the_calendar_has_no_text() {
    let far = Clock { monotonic: 0, unix_secs: i64::MAX, unix_nanos: 0 };
    assert_eq!(format_instant(0, &far), "");
    let before = Clock { monotonic: u64::MAX, unix_secs: i64::MIN, unix_nanos: 0 };
    assert_eq!(format_instant(0, &before), "");
    let bad_nanos = Clock { monotonic: 0, unix_secs: 0, unix_nanos: 2_000_000_000 };
    assert_eq!(format_instant(0, &bad_nanos), "1970-01-01T00:00:02+00:00");
}

#[test]
fn put_then_status_is_idle_then_active() {
    let mut state = AppState::new(0);
    assert!(matches!(channel_detail(&state, "ch1", &clock()), Err(StatusError::NotFound)));
    put_channel(&mut state, "ch1".to_string(), one_stream(10, 1, "http://u/a"));
    let idle = channel_detail(&state, "ch1", &clock()).unwrap();
    assert_eq!(idle.status.state, "idle");
    assert_eq!(idle.status.clients, 0);
    assert!(idle.status.upstream.is_none());
    assert!(idle.clients.is_empty());
    attach_client(&mut state, "ch1", "c1".to_string(), "10.0.0.1:9".to_string(), 40 * SECOND)
        .unwrap();
    let active = channel_detail(&state, "ch1", &clock()).unwrap();
    assert_eq!(active.status.state, "active");
    assert_eq!(active.status.clients, 1);
    let upstream = active.status.upstream.unwrap();
    assert_eq!(upstream.stream_id, 10);
    assert_eq!(upstream.account_id, 1);
    assert_eq!(upstream.url, "http://u/a");
    assert_eq!(upstream.connected_since, "2015-05-14T23:59:00+00:00");
    assert_eq!(upstream.bytes_transferred, 0);
    assert_eq!(active.clients.len(), 1);
    assert_eq!(active.clients[0].id, "c1");
    assert_eq!(active.clients[0].remote_addr, "10.0.0.1:9");
    assert_eq!(active.clients[0].bytes_sent, 0);
    assert_eq!(active.clients[0].connected_since, "2015-05-14T23:59:00+00:00");
}

#[test]
fn unknown_channel_is_not_found() {
    let state = AppState::new(0);
    let missing = channel_detail(&state, "nope", &clock()).unwrap_err();
    assert!(matches!(missing, StatusError::NotFound));
    assert_eq!(missing.status(), 404);
}

#[test]
fn detail_lists_each_client_once() {
    let mut state = AppState::new(0);
    put_channel(&mut state, "ch1".to_string(), one_stream(10, 1, "http://u/a"));
    for (n, id) in ["a", "b", "c"].iter().enumerate() {
        attach_client(&mut state, "ch1", id.to_string(), format!("addr-{}", id), n as u64).unwrap();
    }
    let detail = channel_detail(&state, "ch1", &clock()).unwrap();
    assert_eq!(detail.status.clients, 3);
    let mut seen: Vec<(String, String)> =
        detail.clients.iter().map(|c| (c.id.clone(), c.remote_addr.clone())).collect();
    seen.sort();
    assert_eq!(
        seen,
        vec![
            ("a".to_string(), "addr-a".to_string()),
            ("b".to_string(), "addr-b".to_string()),
            ("c".to_string(), "addr-c".to_string()),
        ]
    );
}

#[test]
fn channels_status_lists_every_route_and_account() {
    let mut state = AppState::new(0);
    put_channel(&mut state, "idle".to_string(), one_stream(1, 1, "http://u/idle"));
    put_channel(&mut state, "live".to_string(), one_stream(2, 1, "http://u/live"));
    put_account(&mut state, 1, AccountConfig { max_connections: 4 });
    put_account(&mut state, 2, AccountConfig { max_connections: 0 });
    attach_client(&mut state, "live", "c1".to_string(), "a".to_string(), 100 * SECOND).unwrap();
    attach_client(&mut state, "live", "c2".to_string(), "b".to_string(), 100 * SECOND).unwrap();
    let task = state.active_channels.get("live").unwrap().sender.clone();
    let mut buffer = ChunkBuffer::new();
    assert_eq!(on_upstream_data(&mut state, "live", &mut buffer, &vec![0u8; CHUNK_SIZE], &task), 1);
    let mut report = channels_status(&state, &clock());
    report.channels.sort_by(|a, b| a.0.cmp(&b.0));
    report.accounts.sort_by(|a, b| a.0.cmp(&b.0));
    assert_eq!(report.channels.len(), 2);
    assert_eq!(report.channels[0].0, "idle");
    assert_eq!(report.channels[0].1.state, "idle");
    assert_eq!(report.channels[0].1.clients, 0);
    assert!(report.channels[0].1.upstream.is_none());
    assert_eq!(report.channels[1].0, "live");
    assert_eq!(report.channels[1].1.state, "active");
    assert_eq!(report.channels[1].1.clients, 2);
    let upstream = report.channels[1].1.upstream.clone().unwrap();
    assert_eq!((upstream.stream_id, upstream.account_id), (2, 1));
    assert_eq!(upstream.url, "http://u/live");
    assert_eq!(upstream.connected_since, "2015-05-15T00:00:00+00:00");
    assert_eq!(upstream.bytes_transferred, CHUNK_SIZE as u64);
    assert_eq!(report.accounts.len(), 2);
    assert_eq!(report.accounts[0].0, "1");
    assert_eq!(report.accounts[0].1.active_connections, 1);
    assert_eq!(report.accounts[0].1.max_connections, 4);
    assert_eq!(report.accounts[1].0, "2");
    assert_eq!(report.accounts[1].1.active_connections, 0);
    assert_eq!(report.accounts[1].1.max_connections, 0);
}

#[test]
fn channels_status_of_an_empty_state_is_empty() {
    let report = channels_status(&AppState::new(0), &clock());
    assert!(report.channels.is_empty());
    assert!(report.accounts.is_empty());
}

#[test]
fn health_counts_channels_clients_and_whole_seconds() {
    let mut state = AppState::new(10 * SECOND);
    let report = health(&state, 10 * SECOND);
    assert_eq!(report.status, "ok");
    assert_eq!(report.uptime_seconds, 0);
    assert_eq!(report.active_channels, 0);
    assert_eq!(report.total_clients, 0);
    put_channel(&mut state, "a".to_string(), one_stream(1, 1, "http://u/a"));
    put_channel(&mut state, "b".to_string(), one_stream(2, 2, "http://u/b"));
    attach_client(&mut state, "a", "c1".to_string(), "x".to_string(), 0).unwrap();
    attach_client(&mut state, "a", "c2".to_string(), "x".to_string(), 0).unwrap();
    attach_client(&mut state, "b", "c3".to_string(), "x".to_string(), 0).unwrap();
    let report = health(&state, 13 * SECOND + 999_999_999);
    assert_eq!(report.status, "ok");
    assert_eq!(report.uptime_seconds, 3);
    assert_eq!(report.active_channels, 2);
    assert_eq!(report.total_clients, 3);
}

#[test]
fn health_before_the_start_reads_no_uptime() {
    let state = AppState::new(10 * SECOND);
    assert_eq!(health(&state, 2 * SECOND).uptime_seconds, 0);
}

#[test]
fn account_key_is_the_decimal_text_of_the_id() {
    assert_eq!(account_key(0), "0");
    assert_eq!(account_key(7), "7");
    assert_eq!(account_key(10), "10");
    assert_eq!(account_key(1905), "1905");
    assert_eq!(account_key(u64::MAX), "18446744073709551615");
    for id in [0u64, 1, 9, 10, 99, 100, 101, 12345678901234567890, u64::MAX - 1, u64::MAX] {
        assert_eq!(account_key(id), id.to_string());
    }
}

#[test]
fn account_key_reads_back_as_the_id() {
    for id in [0u64, 5, 10, 42, 1000, 4294967296, u64::MAX] {
        assert_eq!(parse_account_id(&account_key(id)), Some(id));
    }
}
