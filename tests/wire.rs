use chat::model::{Config, Endpoint, Reply};
use chat::server::Server;
use chat::text::strip_control;
use chat::token::{generate_token, token_from_bytes};

#[test]
fn reply_lines() {
    assert_eq!(Reply::TokenPrompt.text(), "Token: ");
    assert_eq!(Reply::BannedFor { secs: 5 }.text(), "You are banned: 5 seconds left\n");
    assert_eq!(Reply::BannedFor { secs: 0 }.text(), "You are banned: 0 seconds left\n");
    assert_eq!(Reply::BannedFor { secs: 600 }.text(), "You are banned: 600 seconds left\n");
    assert_eq!(
        Reply::BannedFor { secs: u64::MAX }.text(),
        "You are banned: 18446744073709551615 seconds left\n"
    );
    assert_eq!(Reply::Banned.text(), "You are banned\n");
    assert_eq!(Reply::Welcome.text(), "Welcome to the club!\n");
    assert_eq!(Reply::InvalidToken.text(), "Invalid token!\n");
    assert_eq!(Reply::Chat("héllo".to_string()).text(), "héllo\n");
}

#[test]
fn token_spelling() {
    assert_eq!(token_from_bytes(&vec![]), "");
    assert_eq!(token_from_bytes(&vec![0x00, 0xab, 0xff, 0x5c]), "00ABFF5C");
}

#[test]
fn generated_token_shape() {
    let t = generate_token().unwrap();
    assert_eq!(t.len(), 32);
    assert!(t.chars().all(|c| c.is_ascii_digit() || ('A'..='F').contains(&c)));
    assert_ne!(t, "00000000000000000000000000000000");
}

#[test]
fn raw_token_bytes_authenticate() {
    let token = token_from_bytes(&vec![1, 2, 3]);
    let mut s = Server::from_token(token.clone(), Config::standard());
    let a = Endpoint { ip: 1, port: 1 };
    s.client_connected(a, 0);
    s.new_message(a, token.into_bytes(), 0);
    assert_eq!(s.session(a).unwrap().authenticated, true);
}

#[test]
fn utf8_multibyte_text_is_valid() {
    let mut s = Server::from_token("ключ".to_string(), Config::standard());
    let a = Endpoint { ip: 1, port: 1 };
    s.client_connected(a, 0);
    s.new_message(a, "ключ".as_bytes().to_vec(), 0);
    assert_eq!(s.session(a).unwrap().authenticated, true);
}

#[test]
fn truncated_utf8_is_a_strike() {
    let mut s = Server::from_token("k".to_string(), Config::standard());
    let a = Endpoint { ip: 1, port: 1 };
    s.client_connected(a, 0);
    let bytes = "ключ".as_bytes()[..3].to_vec();
    assert!(s.new_message(a, bytes, 0).is_empty());
    assert_eq!(s.session(a).unwrap().strike_count, 1);
}

#[test]
fn control_bytes_are_dropped() {
    assert_eq!(strip_control(b"hi\r\n"), b"hi".to_vec());
    assert_eq!(strip_control(&[0, 31, 32, 127, 255, 9]), vec![32, 127, 255]);
    assert_eq!(strip_control(&[]), Vec::<u8>::new());
}
