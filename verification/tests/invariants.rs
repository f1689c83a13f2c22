use channel_proxy::control::{delete_channel, put_account, put_channel, sync};
use channel_proxy::models::{AccountConfig, ChannelConfig, StreamConfig, StreamUrl, SyncRequest};
use channel_proxy::state::AppState;
use channel_proxy::stream::{attach_client, disconnect_client};
use channel_proxy::upstream::{upstream_decide, FetchEnd, UpstreamCursor, UpstreamNext};

fn routing(pairs: &[(u64, u64)]) -> ChannelConfig {
    ChannelConfig {
        streams: pairs
            .iter()
            .map(|(stream_id, account_id)| StreamConfig {
                id: *stream_id,
                urls: vec![StreamUrl {
                    account_id: *account_id,
                    url: format!("http://u/{}/{}", stream_id, account_id),
                }],
            })
            .collect(),
    }
}

fn live_on(state: &AppState, account_id: u64) -> u32 {
    state.active_channels.iter().filter(|e| e.value().account_id == account_id).count() as u32
}

fn assert_balanced(state: &AppState) {
    for account in state.accounts.iter() {
        assert_eq!(
            account.value().active_connections,
            live_on(state, *account.key()),
            "account {}",
            account.key()
        );
    }
}

fn assert_routed(state: &AppState) {
    for active in state.active_channels.iter() {
        assert!(state.channel_routes.contains_key(active.key()), "channel {}", active.key());
    }
}

fn arrive(state: &mut AppState, channel_id: &str, client_id: &str) -> Option<UpstreamCursor> {
    attach_client(state, channel_id, client_id.to_string(), "addr".to_string(), 0)
        .ok()
        .and_then(|attached| attached.task)
        .map(|task| task.cursor)
}

#[test]
fn counts_equal_live_channels_through_an_interleaving() {
    let mut state = AppState::new(0);
    assert_balanced(&state);
    put_account(&mut state, 1, AccountConfig { max_connections: 2 });
    put_account(&mut state, 2, AccountConfig { max_connections: 0 });
    put_channel(&mut state, "a".to_string(), routing(&[(10, 1), (11, 2)]));
    put_channel(&mut state, "b".to_string(), routing(&[(20, 1), (21, 2)]));
    put_channel(&mut state, "c".to_string(), routing(&[(30, 1), (31, 2)]));
    put_channel(&mut state, "d".to_string(), routing(&[(40, 3)]));
    assert_balanced(&state);

    let mut a = arrive(&mut state, "a", "a1").unwrap();
    assert_balanced(&state);
    let b = arrive(&mut state, "b", "b1").unwrap();
    assert_balanced(&state);
    let mut c = arrive(&mut state, "c", "c1").unwrap();
    assert_eq!(c.account_id, 2);
    assert_balanced(&state);
    let _d = arrive(&mut state, "d", "d1").unwrap();
    assert!(arrive(&mut state, "a", "a2").is_none());
    assert_balanced(&state);
    assert_routed(&state);
    assert_eq!(state.accounts.get(&1).unwrap().active_connections, 2);
    assert_eq!(state.accounts.get(&2).unwrap().active_connections, 1);

    let next = upstream_decide(&mut state, "a", &mut a, false, FetchEnd::ReadError);
    assert!(matches!(next, UpstreamNext::Fetch));
    assert_eq!(a.account_id, 2);
    assert_balanced(&state);
    assert_eq!(state.accounts.get(&1).unwrap().active_connections, 1);
    assert_eq!(state.accounts.get(&2).unwrap().active_connections, 2);

    put_account(&mut state, 1, AccountConfig { max_connections: 7 });
    assert_balanced(&state);

    assert!(!disconnect_client(&mut state, "a", "a1"));
    assert!(disconnect_client(&mut state, "a", "a2"));
    assert_balanced(&state);
    let next = upstream_decide(&mut state, "a", &mut a, true, FetchEnd::Interrupted);
    assert!(matches!(next, UpstreamNext::Exit));
    assert_balanced(&state);
    assert_routed(&state);

    let next = upstream_decide(&mut state, "c", &mut c, false, FetchEnd::Interrupted);
    assert!(matches!(next, UpstreamNext::Fetch));
    assert_balanced(&state);

    let stopped = sync(
        &mut state,
        SyncRequest {
            channels: vec![
                ("a".to_string(), routing(&[(10, 1)])),
                ("c".to_string(), routing(&[(30, 1), (31, 2)])),
                ("d".to_string(), routing(&[(40, 3)])),
            ],
            accounts: vec![
                ("1".to_string(), AccountConfig { max_connections: 1 }),
                ("2".to_string(), AccountConfig { max_connections: 5 }),
            ],
        },
    );
    assert_eq!(stopped, vec!["b".to_string()]);
    assert_eq!(b.account_id, 1);
    assert_balanced(&state);
    assert_routed(&state);
    assert_eq!(state.accounts.get(&1).unwrap().active_connections, 0);
    assert_eq!(state.accounts.get(&2).unwrap().active_connections, 1);

    assert!(delete_channel(&mut state, "c"));
    assert!(delete_channel(&mut state, "d"));
    assert_balanced(&state);
    assert_routed(&state);
    assert_eq!(state.active_channels.len(), 0);
    assert_eq!(state.accounts.get(&2).unwrap().active_connections, 0);
}

#[test]
fn account_created_under_a_live_channel_starts_at_zero() {
    let mut state = AppState::new(0);
    put_channel(&mut state, "a".to_string(), routing(&[(10, 1)]));
    arrive(&mut state, "a", "a1").unwrap();
    put_account(&mut state, 1, AccountConfig { max_connections: 3 });
    assert_eq!(live_on(&state, 1), 1);
    assert_eq!(state.accounts.get(&1).unwrap().active_connections, 0);
    assert!(delete_channel(&mut state, "a"));
    assert_eq!(state.accounts.get(&1).unwrap().active_connections, 0);
}

#[test]
fn task_that_runs_dry_gives_its_slot_back_twice() {
    let mut state = AppState::new(0);
    put_account(&mut state, 1, AccountConfig { max_connections: 5 });
    put_channel(&mut state, "a".to_string(), routing(&[(10, 1)]));
    put_channel(&mut state, "b".to_string(), routing(&[(20, 1)]));
    let mut a = arrive(&mut state, "a", "a1").unwrap();
    arrive(&mut state, "b", "b1").unwrap();
    assert_eq!(state.accounts.get(&1).unwrap().active_connections, 2);
    let next = upstream_decide(&mut state, "a", &mut a, false, FetchEnd::StreamEnded);
    assert!(matches!(next, UpstreamNext::Exit));
    assert_eq!(live_on(&state, 1), 1);
    assert_eq!(state.accounts.get(&1).unwrap().active_connections, 0);
}

#[test]
fn task_of_a_deleted_channel_gives_back_a_slot_it_no_longer_holds() {
    let mut state = AppState::new(0);
    put_account(&mut state, 1, AccountConfig { max_connections: 5 });
    put_channel(&mut state, "a".to_string(), routing(&[(10, 1)]));
    put_channel(&mut state, "b".to_string(), routing(&[(20, 1)]));
    let mut a = arrive(&mut state, "a", "a1").unwrap();
    arrive(&mut state, "b", "b1").unwrap();
    assert!(delete_channel(&mut state, "a"));
    assert_eq!(state.accounts.get(&1).unwrap().active_connections, 1);
    let next = upstream_decide(&mut state, "a", &mut a, true, FetchEnd::Interrupted);
    assert!(matches!(next, UpstreamNext::Exit));
    assert_eq!(live_on(&state, 1), 1);
    assert_eq!(state.accounts.get(&1).unwrap().active_connections, 0);
}

#[test]
fn deleted_route_takes_its_live_channel_with_it() {
    let mut state = AppState::new(0);
    put_channel(&mut state, "a".to_string(), routing(&[(10, 1)]));
    put_channel(&mut state, "b".to_string(), routing(&[(20, 1)]));
    arrive(&mut state, "a", "a1").unwrap();
    arrive(&mut state, "b", "b1").unwrap();
    assert_routed(&state);
    assert!(delete_channel(&mut state, "a"));
    assert_routed(&state);
    sync(&mut state, SyncRequest { channels: vec![], accounts: vec![] });
    assert_routed(&state);
    assert_eq!(state.active_channels.len(), 0);
    assert_eq!(state.channel_routes.len(), 0);
}
