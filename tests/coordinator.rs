use chat::model::{Action, Config, Endpoint, Reply, Session};
use chat::server::Server;

const TOKEN: &str = "0123456789ABCDEF0123456789ABCDEF";
const SEC: u64 = 1000;
const BAN: u64 = 600 * SEC;
const T0: u64 = 1_700_000_000_000;

fn ep(ip: u128, port: u16) -> Endpoint {
    Endpoint { ip, port }
}

fn server() -> Server {
    Server::from_token(TOKEN.to_string(), Config::standard())
}

fn send(to: Endpoint, reply: Reply) -> Action {
    Action::Send { to, reply }
}

fn close(to: Endpoint) -> Action {
    Action::Close { to }
}

/// Connects `e` at `now` and authenticates it one interval later.
fn join(s: &mut Server, e: Endpoint, now: u64) {
    s.client_connected(e, now);
    let acts = s.handle_message(e, Some(TOKEN.to_string()), now + SEC);
    assert_eq!(acts, vec![send(e, Reply::Welcome)]);
}

#[test]
fn scenario_wrong_token_closes_without_ban() {
    let mut s = server();
    let a = ep(0x7f00_0001, 40000);
    let acts = s.client_connected(a, T0);
    assert_eq!(acts, vec![send(a, Reply::TokenPrompt)]);
    let acts = s.new_message(a, b"guess".to_vec(), T0 + 2 * SEC);
    assert_eq!(acts, vec![send(a, Reply::InvalidToken), close(a)]);
    assert_eq!(s.session(a), None);
    assert_eq!(s.banned_at(a.ip), None);
    // The IP may come straight back.
    assert_eq!(s.client_connected(a, T0 + 3 * SEC), vec![send(a, Reply::TokenPrompt)]);
}

#[test]
fn scenario_ten_malformed_messages_ban() {
    let mut s = server();
    let a = ep(0x7f00_0001, 40001);
    s.client_connected(a, T0);
    for k in 1..10u64 {
        let acts = s.new_message(a, vec![0xff, 0xfe], T0 + k * 2 * SEC);
        assert!(acts.is_empty());
        assert_eq!(s.session(a).unwrap().strike_count, k as u32);
    }
    let at = T0 + 20 * SEC;
    let acts = s.new_message(a, vec![0xc3], at);
    assert_eq!(acts, vec![send(a, Reply::Banned), close(a)]);
    assert_eq!(s.session(a), None);
    assert_eq!(s.banned_at(a.ip), Some(at));
}

#[test]
fn scenario_broadcast_reaches_others_only() {
    let mut s = server();
    let x = ep(0x0a00_0001, 5000);
    let y = ep(0x0a00_0002, 5001);
    join(&mut s, x, T0);
    join(&mut s, y, T0);
    let acts = s.new_message(x, b"hello".to_vec(), T0 + 3 * SEC);
    assert_eq!(acts, vec![send(y, Reply::Chat("hello".to_string()))]);
}

#[test]
fn scenario_banned_reconnect_told_seconds_left() {
    let mut s = server();
    let a = ep(0x7f00_0001, 40002);
    s.client_connected(a, T0);
    let mut t = T0;
    for _ in 0..10 {
        t += 2 * SEC;
        s.new_message(a, vec![0xff], t);
    }
    assert_eq!(s.banned_at(a.ip), Some(t));
    let b = ep(a.ip, 40003);
    let acts = s.client_connected(b, t + BAN - 5 * SEC);
    assert_eq!(acts, vec![send(b, Reply::BannedFor { secs: 5 }), close(b)]);
    assert_eq!(s.session(b), None);
    assert_eq!(s.session_count(), 0);
    // The ban keeps its original start.
    assert_eq!(s.banned_at(a.ip), Some(t));
}

#[test]
fn scenario_reconnect_after_ban_expiry() {
    let mut s = server();
    let a = ep(0x7f00_0001, 40004);
    s.client_connected(a, T0);
    let mut t = T0;
    for _ in 0..10 {
        t += 2 * SEC;
        s.new_message(a, vec![0xff], t);
    }
    let acts = s.client_connected(a, t + BAN + SEC);
    assert_eq!(acts, vec![send(a, Reply::TokenPrompt)]);
    assert_eq!(s.banned_at(a.ip), None);
    assert!(s.session(a).is_some());
}

#[test]
fn ban_ends_exactly_at_its_duration() {
    let mut s = server();
    let a = ep(1, 1);
    s.client_connected(a, 0);
    for k in 1..=10u64 {
        s.new_message(a, vec![0x80], k * 2 * SEC);
    }
    let at = 20 * SEC;
    assert_eq!(s.client_connected(a, at + BAN - 1), vec![send(a, Reply::BannedFor { secs: 1 }), close(a)]);
    assert_eq!(s.client_connected(a, at + BAN), vec![send(a, Reply::TokenPrompt)]);
}

#[test]
fn remaining_seconds_round_up() {
    let mut s = server();
    let a = ep(2, 2);
    s.client_connected(a, 0);
    for k in 1..=10u64 {
        s.new_message(a, vec![0x80], k * 2 * SEC);
    }
    let at = 20 * SEC;
    let acts = s.client_connected(a, at + 1500);
    assert_eq!(acts, vec![send(a, Reply::BannedFor { secs: 599 }), close(a)]);
}

#[test]
fn fresh_session_fields() {
    let mut s = server();
    let a = ep(3, 3);
    s.client_connected(a, 0);
    assert_eq!(
        s.session(a),
        Some(Session { endpoint: a, last_message_at: -2000, strike_count: 0, authenticated: false })
    );
}

#[test]
fn first_message_at_connect_time_is_paced() {
    let mut s = server();
    let a = ep(4, 4);
    s.client_connected(a, 0);
    let acts = s.handle_message(a, Some(TOKEN.to_string()), 0);
    assert_eq!(acts, vec![send(a, Reply::Welcome)]);
    assert_eq!(
        s.session(a),
        Some(Session { endpoint: a, last_message_at: 0, strike_count: 0, authenticated: true })
    );
}

#[test]
fn token_match_is_case_sensitive() {
    let mut s = server();
    let a = ep(5, 5);
    s.client_connected(a, T0);
    let acts = s.handle_message(a, Some(TOKEN.to_lowercase()), T0);
    assert_eq!(acts, vec![send(a, Reply::InvalidToken), close(a)]);
}

#[test]
fn fast_message_is_a_strike_and_clean_one_clears() {
    let mut s = server();
    let a = ep(6, 6);
    let b = ep(7, 7);
    join(&mut s, a, T0);
    join(&mut s, b, T0);
    let t = T0 + SEC;
    // Too soon after the token: a strike, nothing relayed.
    assert!(s.handle_message(a, Some("hi".to_string()), t + 500).is_empty());
    assert_eq!(s.session(a).unwrap().strike_count, 1);
    assert_eq!(s.session(a).unwrap().last_message_at, t as i128);
    // Paced and valid: relayed, strikes cleared.
    let acts = s.handle_message(a, Some("hi".to_string()), t + SEC);
    assert_eq!(acts, vec![send(b, Reply::Chat("hi".to_string()))]);
    assert_eq!(s.session(a).unwrap().strike_count, 0);
}

#[test]
fn rapid_valid_messages_ban() {
    let mut s = server();
    let a = ep(8, 8);
    join(&mut s, a, T0);
    let t = T0 + SEC;
    for k in 1..10u64 {
        assert!(s.handle_message(a, Some("spam".to_string()), t + k).is_empty());
    }
    let acts = s.handle_message(a, Some("spam".to_string()), t + 10);
    assert_eq!(acts, vec![send(a, Reply::Banned), close(a)]);
    assert_eq!(s.banned_at(a.ip), Some(t + 10));
}

#[test]
fn clock_going_backwards_is_a_strike() {
    let mut s = server();
    let a = ep(9, 9);
    join(&mut s, a, T0);
    assert!(s.handle_message(a, Some("x".to_string()), T0 - 10 * SEC).is_empty());
    assert_eq!(s.session(a).unwrap().strike_count, 1);
}

#[test]
fn unauthenticated_sessions_receive_nothing() {
    let mut s = server();
    let x = ep(10, 1);
    let y = ep(10, 2);
    let z = ep(11, 1);
    join(&mut s, x, T0);
    s.client_connected(y, T0);
    join(&mut s, z, T0);
    let acts = s.handle_message(x, Some("yo".to_string()), T0 + 5 * SEC);
    assert_eq!(acts, vec![send(z, Reply::Chat("yo".to_string()))]);
}

#[test]
fn lone_authenticated_sender_reaches_nobody() {
    let mut s = server();
    let x = ep(12, 1);
    join(&mut s, x, T0);
    assert!(s.handle_message(x, Some("echo?".to_string()), T0 + 5 * SEC).is_empty());
    assert_eq!(s.session(x).unwrap().authenticated, true);
}

#[test]
fn message_from_unknown_endpoint_is_ignored() {
    let mut s = server();
    let a = ep(13, 1);
    assert!(s.new_message(a, b"hello".to_vec(), T0).is_empty());
    assert_eq!(s.session_count(), 0);
}

#[test]
fn disconnect_removes_only_that_session() {
    let mut s = server();
    let a = ep(14, 1);
    let b = ep(14, 2);
    s.client_connected(a, T0);
    s.client_connected(b, T0);
    s.client_disconnected(a);
    assert_eq!(s.session(a), None);
    assert!(s.session(b).is_some());
    s.client_disconnected(a);
    assert_eq!(s.session_count(), 1);
}

#[test]
fn reconnect_of_same_endpoint_keeps_one_session() {
    let mut s = server();
    let a = ep(15, 1);
    join(&mut s, a, T0);
    s.client_connected(a, T0 + 10 * SEC);
    assert_eq!(s.session_count(), 1);
    assert_eq!(s.session(a).unwrap().authenticated, false);
}

#[test]
fn strike_limit_of_one_bans_on_first_strike() {
    let cfg = Config { ban_duration: 5 * SEC, rate_interval: SEC, strike_limit: 1 };
    let mut s = Server::from_token(TOKEN.to_string(), cfg);
    let a = ep(16, 1);
    s.client_connected(a, T0);
    let acts = s.handle_message(a, None, T0);
    assert_eq!(acts, vec![send(a, Reply::Banned), close(a)]);
    assert_eq!(s.config(), cfg);
}

#[test]
fn standard_config_values() {
    let c = Config::standard();
    assert_eq!(c.ban_duration, 600_000);
    assert_eq!(c.rate_interval, 1000);
    assert_eq!(c.strike_limit, 10);
}
