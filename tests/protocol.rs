use rac_rs::protocol::{
    decode_register_status, decode_send_status, decode_size_reply, fill_username, parse_decimal,
    push_decimal, remove_nulls, split_lines, Request,
};
use rac_rs::shared::ClientError;

#[test]
fn size_reply_plain_digits() {
    assert_eq!(decode_size_reply(b"123").unwrap(), 123);
    assert_eq!(decode_size_reply(b"0").unwrap(), 0);
}

#[test]
fn size_reply_with_interleaved_nulls() {
    assert_eq!(decode_size_reply(b"12\x003\x00").unwrap(), 123);
    assert_eq!(decode_size_reply(b"\x00\x007").unwrap(), 7);
}

#[test]
fn size_reply_empty_is_closed_connection() {
    assert!(matches!(decode_size_reply(b""), Err(ClientError::ServerClosedConnection)));
}

#[test]
fn size_reply_not_a_number() {
    assert!(matches!(decode_size_reply(b"12a"), Err(ClientError::ParseError(_))));
    assert!(matches!(decode_size_reply(b"\x00\x00"), Err(ClientError::ParseError(_))));
    assert!(matches!(decode_size_reply(b"-1"), Err(ClientError::ParseError(_))));
    assert!(matches!(decode_size_reply(b" 1"), Err(ClientError::ParseError(_))));
}

#[test]
fn size_reply_too_large() {
    let max = usize::MAX.to_string();
    assert_eq!(decode_size_reply(max.as_bytes()).unwrap(), usize::MAX);
    let over = format!("{}0", usize::MAX);
    assert!(matches!(decode_size_reply(over.as_bytes()), Err(ClientError::ParseError(_))));
}

#[test]
fn parse_decimal_values() {
    assert_eq!(parse_decimal(b"42"), Some(42));
    assert_eq!(parse_decimal(b"007"), Some(7));
    assert_eq!(parse_decimal(b""), None);
    assert_eq!(parse_decimal(b"4 2"), None);
}

#[test]
fn push_decimal_spells_numbers() {
    let mut out = vec![9u8];
    push_decimal(&mut out, 0);
    assert_eq!(out, vec![9u8, b'0']);
    let mut out = Vec::new();
    push_decimal(&mut out, 1234567);
    assert_eq!(out, b"1234567".to_vec());
}

#[test]
fn remove_nulls_keeps_order() {
    let mut data = b"\x00a\x00\x00bc\x00".to_vec();
    remove_nulls(&mut data);
    assert_eq!(data, b"abc".to_vec());
}

#[test]
fn split_lines_discards_empty_lines() {
    assert_eq!(split_lines(b"a\n\nb\n"), vec!["a".to_string(), "b".to_string()]);
}

#[test]
fn split_lines_edges() {
    assert!(split_lines(b"").is_empty());
    assert!(split_lines(b"\n\n\r\n").is_empty());
    assert_eq!(split_lines(b"one\r\ntwo"), vec!["one".to_string(), "two".to_string()]);
    assert_eq!(split_lines(b"x\ry"), vec!["x\ry".to_string()]);
    assert_eq!(split_lines(b"bad\xffbyte\n"), vec!["bad\u{fffd}byte".to_string()]);
}

#[test]
fn send_status_codes() {
    assert!(decode_send_status(b"").is_ok());
    assert!(matches!(decode_send_status(&[0x01]), Err(ClientError::UserDoesNotExist)));
    assert!(matches!(decode_send_status(&[0x02, 0x00]), Err(ClientError::IncorrectPassword)));
    match decode_send_status(b"ok") {
        Err(ClientError::UnexpectedResponse(text)) => assert_eq!(text, "ok"),
        other => panic!("unexpected outcome {:?}", other),
    }
}

#[test]
fn register_status_codes() {
    assert!(decode_register_status(b"").is_ok());
    assert!(matches!(decode_register_status(&[0x01]), Err(ClientError::UsernameAlreadyTaken)));
    match decode_register_status(&[0x02]) {
        Err(ClientError::UnexpectedResponse(text)) => assert_eq!(text, "\u{2}"),
        other => panic!("unexpected outcome {:?}", other),
    }
}

#[test]
fn request_frames() {
    assert_eq!(Request::GetSize.encode(), vec![0x00]);
    assert_eq!(Request::FetchAll.encode(), vec![0x01]);
    assert_eq!(Request::FetchDelta(42).encode(), b"\x0242".to_vec());
    assert_eq!(Request::SendAnonymous("hi".to_string()).encode(), b"\x01hi".to_vec());
    let auth = Request::SendAuthenticated {
        username: "bob".to_string(),
        password: "pw".to_string(),
        message: "hello".to_string(),
    };
    assert_eq!(auth.encode(), b"\x02bob\npw\nhello".to_vec());
    assert!(auth.awaits_status());
    let reg = Request::Register { username: "bob".to_string(), password: "pw".to_string() };
    assert_eq!(reg.encode(), b"\x03bob\npw".to_vec());
    assert!(reg.awaits_status());
    assert!(!Request::SendAnonymous("x".to_string()).awaits_status());
}

#[test]
fn username_placeholder_filled() {
    assert_eq!(fill_username("<{username}> hi {username}", "ann"), "<ann> hi ann");
    assert_eq!(fill_username("no placeholder", "ann"), "no placeholder");
}
