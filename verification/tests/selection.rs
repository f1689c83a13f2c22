use channel_proxy::control::{put_account, put_channel};
use channel_proxy::models::{AccountConfig, ChannelConfig, StreamConfig, StreamUrl};
use channel_proxy::state::AppState;

fn url(account_id: u64, url: &str) -> StreamUrl {
    StreamUrl { account_id, url: url.to_string() }
}

fn stream(id: u64, urls: Vec<StreamUrl>) -> StreamConfig {
    StreamConfig { id, urls }
}

fn routed(streams: Vec<StreamConfig>) -> AppState {
    let mut state = AppState::new(0);
    put_channel(&mut state, "ch".to_string(), ChannelConfig { streams });
    state
}

fn hold(state: &mut AppState, account_id: u64, times: u32) {
    for _ in 0..times {
        state.increment_connections(account_id);
    }
}

#[test]
fn new_state_is_empty() {
    let state = AppState::new(42);
    assert_eq!(state.start_time, 42);
    assert_eq!(state.channel_routes.len(), 0);
    assert_eq!(state.active_channels.len(), 0);
    assert_eq!(state.accounts.len(), 0);
}

#[test]
fn select_on_unrouted_channel_is_none() {
    let state = AppState::new(0);
    assert_eq!(state.select_stream("nope"), None);
    assert_eq!(state.select_next_stream("nope", 1, 1), None);
}

#[test]
fn select_on_empty_routing_is_none() {
    let state = routed(vec![]);
    assert_eq!(state.select_stream("ch"), None);
    let state = routed(vec![stream(1, vec![])]);
    assert_eq!(state.select_stream("ch"), None);
}

#[test]
fn select_takes_first_pair_in_declaration_order() {
    let state = routed(vec![
        stream(10, vec![url(1, "http://a"), url(2, "http://b")]),
        stream(20, vec![url(3, "http://c")]),
    ]);
    assert_eq!(state.select_stream("ch"), Some((10, 1, "http://a".to_string())));
}

#[test]
fn select_treats_unknown_account_as_unlimited() {
    let mut state = routed(vec![stream(10, vec![url(7, "http://a")])]);
    hold(&mut state, 7, 3);
    assert!(state.accounts.get(&7).is_none());
    assert_eq!(state.select_stream("ch"), Some((10, 7, "http://a".to_string())));
}

#[test]
fn select_treats_zero_cap_as_unlimited() {
    let mut state = routed(vec![stream(10, vec![url(1, "http://a")])]);
    put_account(&mut state, 1, AccountConfig { max_connections: 0 });
    hold(&mut state, 1, 5);
    assert_eq!(state.select_stream("ch"), Some((10, 1, "http://a".to_string())));
}

#[test]
fn select_skips_accounts_at_their_cap() {
    let mut state = routed(vec![
        stream(10, vec![url(1, "http://a"), url(2, "http://b")]),
        stream(20, vec![url(3, "http://c")]),
    ]);
    put_account(&mut state, 1, AccountConfig { max_connections: 1 });
    put_account(&mut state, 2, AccountConfig { max_connections: 2 });
    put_account(&mut state, 3, AccountConfig { max_connections: 1 });
    hold(&mut state, 1, 1);
    assert_eq!(state.select_stream("ch"), Some((10, 2, "http://b".to_string())));
    hold(&mut state, 2, 2);
    assert_eq!(state.select_stream("ch"), Some((20, 3, "http://c".to_string())));
    hold(&mut state, 3, 1);
    assert_eq!(state.select_stream("ch"), None);
}

#[test]
fn select_is_stable_for_a_fixed_state() {
    let mut state = routed(vec![
        stream(10, vec![url(1, "http://a"), url(2, "http://b")]),
        stream(20, vec![url(2, "http://c")]),
    ]);
    put_account(&mut state, 1, AccountConfig { max_connections: 1 });
    hold(&mut state, 1, 1);
    let first = state.select_stream("ch");
    for _ in 0..10 {
        assert_eq!(state.select_stream("ch"), first);
    }
    assert_eq!(first, Some((10, 2, "http://b".to_string())));
}

#[test]
fn select_next_takes_first_pair_after_failed() {
    let state = routed(vec![
        stream(10, vec![url(1, "http://a"), url(2, "http://b")]),
        stream(20, vec![url(3, "http://c")]),
    ]);
    assert_eq!(state.select_next_stream("ch", 10, 1), Some((10, 2, "http://b".to_string())));
    assert_eq!(state.select_next_stream("ch", 10, 2), Some((20, 3, "http://c".to_string())));
    assert_eq!(state.select_next_stream("ch", 20, 3), None);
}

#[test]
fn select_next_skips_accounts_at_their_cap() {
    let mut state = routed(vec![
        stream(10, vec![url(1, "http://a"), url(2, "http://b")]),
        stream(20, vec![url(3, "http://c")]),
    ]);
    put_account(&mut state, 2, AccountConfig { max_connections: 1 });
    hold(&mut state, 2, 1);
    assert_eq!(state.select_next_stream("ch", 10, 1), Some((20, 3, "http://c".to_string())));
}

#[test]
fn select_next_fails_closed_when_failed_pair_is_gone() {
    let state = routed(vec![stream(10, vec![url(1, "http://a"), url(2, "http://b")])]);
    assert_eq!(state.select_next_stream("ch", 99, 1), None);
    assert_eq!(state.select_next_stream("ch", 10, 99), None);
}

#[test]
fn select_next_never_returns_the_failed_pair_again() {
    let state = routed(vec![
        stream(10, vec![url(1, "http://a"), url(1, "http://a2"), url(2, "http://b")]),
        stream(10, vec![url(1, "http://a3")]),
        stream(30, vec![url(1, "http://d")]),
    ]);
    assert_eq!(state.select_next_stream("ch", 10, 1), Some((10, 2, "http://b".to_string())));
    assert_eq!(state.select_next_stream("ch", 10, 2), Some((10, 1, "http://a3".to_string())));
}

#[test]
fn select_next_does_not_go_back_before_the_failed_pair() {
    let state = routed(vec![
        stream(10, vec![url(1, "http://a")]),
        stream(20, vec![url(2, "http://b")]),
    ]);
    assert_eq!(state.select_next_stream("ch", 20, 2), None);
}

#[test]
fn increment_and_decrement_move_the_counter_by_one() {
    let mut state = AppState::new(0);
    put_account(&mut state, 1, AccountConfig { max_connections: 5 });
    state.increment_connections(1);
    state.increment_connections(1);
    assert_eq!(state.accounts.get(&1).unwrap().active_connections, 2);
    state.decrement_connections(1);
    assert_eq!(state.accounts.get(&1).unwrap().active_connections, 1);
    assert_eq!(state.accounts.get(&1).unwrap().max_connections, 5);
}

#[test]
fn decrement_at_zero_stays_at_zero() {
    let mut state = AppState::new(0);
    put_account(&mut state, 1, AccountConfig { max_connections: 5 });
    state.decrement_connections(1);
    state.decrement_connections(1);
    assert_eq!(state.accounts.get(&1).unwrap().active_connections, 0);
}

#[test]
fn counters_of_unknown_accounts_are_not_created() {
    let mut state = AppState::new(0);
    state.increment_connections(9);
    state.decrement_connections(9);
    assert_eq!(state.accounts.len(), 0);
}

#[test]
fn increment_wraps_at_the_width_of_the_counter() {
    let mut state = AppState::new(0);
    state.accounts.insert(
        1,
        channel_proxy::state::AccountState { max_connections: 0, active_connections: u32::MAX },
    );
    state.increment_connections(1);
    assert_eq!(state.accounts.get(&1).unwrap().active_connections, 0);
}
