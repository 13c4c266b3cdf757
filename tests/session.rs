use rac_rs::client::Client;
use rac_rs::protocol::Request;
use rac_rs::shared::{ClientError, Credentials};
use rac_rs::wrac::WClient;

fn authed() -> Credentials {
    Credentials { username: "bob".to_string(), password: Some("pw".to_string()) }
}

#[test]
fn new_client_starts_at_zero() {
    let c = Client::new("127.0.0.1:42666".to_string(), authed(), true);
    assert_eq!(c.current_messages_size(), 0);
    assert_eq!(c.address(), "127.0.0.1:42666");
    assert_eq!(c.username(), "bob");
    assert!(c.tls());
}

#[test]
fn updates_replace_fields() {
    let mut c = Client::new("a:1".to_string(), Credentials::default(), false);
    c.update_address("b:2".to_string());
    c.update_tls(true);
    c.update_credentials(authed());
    assert_eq!(c.address(), "b:2");
    assert!(c.tls());
    assert_eq!(c.username(), "bob");
    assert!(c.register_user().is_ok());
}

#[test]
fn register_without_password_sends_nothing() {
    let c = Client::new("a:1".to_string(), Credentials::default(), false);
    assert!(matches!(c.register_user(), Err(ClientError::NoPassword)));
}

#[test]
fn register_request_carries_credentials() {
    let c = Client::new("a:1".to_string(), authed(), false);
    assert_eq!(c.register_user().unwrap().encode(), b"\x03bob\npw".to_vec());
}

#[test]
fn fetch_size_sets_cursor() {
    let mut c = Client::new("a:1".to_string(), authed(), false);
    assert!(c.fetch_messages_size(b"12\x003\x00").is_ok());
    assert_eq!(c.current_messages_size(), 123);
    assert!(matches!(c.fetch_messages_size(b"x"), Err(ClientError::ParseError(_))));
    assert_eq!(c.current_messages_size(), 123);
    assert!(matches!(c.fetch_messages_size(b""), Err(ClientError::ServerClosedConnection)));
    assert_eq!(c.current_messages_size(), 123);
}

#[test]
fn full_fetch_then_delta_is_empty() {
    let mut c = Client::new("a:1".to_string(), authed(), false);
    let plan = c.fetch_all_messages(b"6").unwrap();
    assert!(matches!(plan.request, Request::FetchAll));
    assert_eq!(plan.length, 6);
    let lines = c.complete_fetch(&plan, b"a\n\nb\n\x00");
    assert_eq!(lines, vec!["a".to_string(), "b".to_string()]);
    assert_eq!(c.current_messages_size(), 6);
    let delta = c.fetch_new_messages(b"6").unwrap();
    assert_eq!(delta.length, 0);
    assert_eq!(delta.request.encode(), b"\x026".to_vec());
    assert!(c.complete_fetch(&delta, b"").is_empty());
    assert_eq!(c.current_messages_size(), 6);
}

#[test]
fn delta_fetch_asks_from_cursor() {
    let mut c = Client::new("a:1".to_string(), authed(), false);
    c.fetch_messages_size(b"4").unwrap();
    let plan = c.fetch_new_messages(b"10").unwrap();
    assert_eq!(plan.request.encode(), b"\x024".to_vec());
    assert_eq!(plan.length, 6);
    assert_eq!(plan.total, 10);
    assert_eq!(c.complete_fetch(&plan, b"new\r\nx\n"), vec!["new".to_string(), "x".to_string()]);
    assert_eq!(c.current_messages_size(), 10);
}

#[test]
fn delta_fetch_on_shrunk_log() {
    let mut c = Client::new("a:1".to_string(), authed(), false);
    c.fetch_messages_size(b"10").unwrap();
    assert!(matches!(c.fetch_new_messages(b"3"), Err(ClientError::SizeDecreased)));
    assert!(matches!(c.fetch_new_messages(b""), Err(ClientError::ServerClosedConnection)));
    assert_eq!(c.current_messages_size(), 10);
}

#[test]
fn send_requests_by_mode() {
    let c = Client::new("a:1".to_string(), authed(), false);
    assert_eq!(c.send_message("<{username}> hi").encode(), b"\x02bob\npw\n<bob> hi".to_vec());
    let anon = Client::new("a:1".to_string(), Credentials { username: "eve".to_string(), password: None }, false);
    assert_eq!(anon.send_custom_message("<{username}>").encode(), b"\x01<{username}>".to_vec());
    assert_eq!(anon.send_message("<{username}>").encode(), b"\x01<eve>".to_vec());
}

#[test]
fn reset_clears_session() {
    let mut c = Client::new("a:1".to_string(), authed(), true);
    c.fetch_messages_size(b"55").unwrap();
    c.reset();
    assert_eq!(c.current_messages_size(), 0);
    assert_eq!(c.address(), "");
    assert_eq!(c.username(), "");
    assert!(matches!(c.register_user(), Err(ClientError::NoPassword)));
    assert!(c.tls());
}

#[test]
fn async_binding_shares_the_session() {
    let mut c = rac_rs::async_client::Client::new("a:1".to_string(), authed(), false);
    c.fetch_messages_size(b"9").unwrap();
    assert_eq!(c.current_messages_size(), 9);
}

#[test]
fn ws_url_building() {
    let c: WClient<u8> = WClient::new("host:1", authed(), false);
    assert_eq!(c.build_url(), "ws://host:1/");
    let c: WClient<u8> = WClient::new("host:1", authed(), true);
    assert_eq!(c.build_url(), "wss://host:1/");
    let c: WClient<u8> = WClient::new("wss://h/p", authed(), false);
    assert_eq!(c.build_url(), "wss://h/p");
    let c: WClient<u8> = WClient::new("ws://h", authed(), true);
    assert_eq!(c.build_url(), "ws://h");
}

#[test]
fn ws_needs_connection() {
    let mut c: WClient<u8> = WClient::new("host:1", authed(), false);
    assert!(matches!(c.check_connection(), Err(ClientError::NoConnectionWRAC)));
    assert!(matches!(c.fetch_messages_size(b"1"), Err(ClientError::NoConnectionWRAC)));
    assert!(matches!(c.fetch_all_messages(b"1"), Err(ClientError::NoConnectionWRAC)));
    assert!(matches!(c.fetch_new_messages(b"1"), Err(ClientError::NoConnectionWRAC)));
    assert!(matches!(c.send_message("x"), Err(ClientError::NoConnectionWRAC)));
    assert!(matches!(c.send_custom_message("x"), Err(ClientError::NoConnectionWRAC)));
    assert!(c.connection().is_none());
    assert!(c.register_user().is_ok());
}

#[test]
fn ws_prepare_and_reset() {
    let mut c: WClient<u8> = WClient::new("host:1", authed(), true);
    assert_eq!(c.prepare(7), None);
    assert_eq!(c.prepare(8), Some(7));
    assert!(c.check_connection().is_ok());
    *c.connection().unwrap() = 9;
    c.fetch_messages_size(b"20").unwrap();
    assert_eq!(c.reset(), Some(9));
    assert_eq!(c.current_messages_size(), 0);
    assert_eq!(c.address(), "");
    assert_eq!(c.username(), "");
    assert!(!c.tls());
    assert!(matches!(c.check_connection(), Err(ClientError::NoConnectionWRAC)));
}

#[test]
fn ws_delta_skips_exchange_without_growth() {
    let mut c: WClient<u8> = WClient::new("host:1", authed(), false);
    c.prepare(1);
    let plan = c.fetch_all_messages(b"5").unwrap();
    assert_eq!(c.complete_fetch(&plan, b"hey\n\n"), vec!["hey".to_string()]);
    assert!(c.fetch_new_messages(b"5").unwrap().is_none());
    assert!(c.fetch_new_messages(b"2").unwrap().is_none());
    let grown = c.fetch_new_messages(b"9").unwrap().unwrap();
    assert_eq!(grown.request.encode(), b"\x025".to_vec());
    assert_eq!(grown.length, 4);
    assert_eq!(c.current_messages_size(), 5);
}

#[test]
fn ws_send_requests() {
    let mut c: WClient<u8> = WClient::new("host:1", authed(), false);
    c.prepare(1);
    assert_eq!(c.send_message("{username}!").unwrap().encode(), b"\x02bob\npw\nbob!".to_vec());
    c.update_credentials(Credentials::default());
    assert_eq!(c.send_custom_message("m").unwrap().encode(), b"\x01m".to_vec());
    assert!(matches!(c.register_user(), Err(ClientError::NoPassword)));
}
