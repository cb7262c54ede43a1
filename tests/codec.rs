use relay::error::ProtocolError;
use relay::handler::TransmitService;
use relay::protocol::{
    frame_text_bytes, get_type_for_raw_utf8, serialize_message, BaseProtocol, Data,
    DataTransferProtocol, DataTransferProtocolParsed,
};
use relay::pto::{BaseProto, Proto};

fn frame(text: &[u8]) -> [u8; 1024] {
    let mut buf = [0u8; 1024];
    buf[..text.len()].copy_from_slice(text);
    buf
}

fn frame16(text: &str) -> [u16; 1024] {
    let mut buf = [0u16; 1024];
    for (i, u) in text.encode_utf16().enumerate() {
        buf[i] = u;
    }
    buf
}

#[test]
fn handshake_send_names_target() {
    match get_type_for_raw_utf8(b"SEND;alice") {
        Ok(TransmitService::Send(a)) => assert_eq!(a, "alice"),
        _ => panic!("expected a Send role"),
    }
}

#[test]
fn handshake_receive_names_self() {
    match get_type_for_raw_utf8(b"RECEIVE;bob") {
        Ok(TransmitService::Receive(a)) => assert_eq!(a, "bob"),
        _ => panic!("expected a Receive role"),
    }
}

#[test]
fn handshake_unknown_keyword_is_session_error() {
    assert!(matches!(
        get_type_for_raw_utf8(b"PING;x"),
        Err(ProtocolError::SessionExtractionError(_))
    ));
}

#[test]
fn handshake_without_semicolon_is_format_error() {
    assert!(matches!(get_type_for_raw_utf8(b"SENDalice"), Err(ProtocolError::FromatError(_))));
}

#[test]
fn handshake_ignores_padding_and_whitespace() {
    let buf = frame(b"  RECEIVE; bob \n");
    match get_type_for_raw_utf8(&buf) {
        Ok(TransmitService::Receive(a)) => assert_eq!(a, "bob"),
        _ => panic!("expected a Receive role"),
    }
}

#[test]
fn handshake_keyword_is_case_sensitive() {
    assert!(matches!(
        get_type_for_raw_utf8(b"send;alice"),
        Err(ProtocolError::SessionExtractionError(_))
    ));
}

#[test]
fn handshake_empty_frame_is_format_error() {
    let buf = [0u8; 1024];
    assert!(matches!(get_type_for_raw_utf8(&buf), Err(ProtocolError::FromatError(_))));
}

#[test]
fn handshake_trims_unicode_space() {
    match get_type_for_raw_utf8("SEND;\u{00A0}carol\u{3000}".as_bytes()) {
        Ok(TransmitService::Send(a)) => assert_eq!(a, "carol"),
        _ => panic!("expected a Send role"),
    }
}

#[test]
fn parse_message_from_padded_buffer() {
    let p = BaseProtocol::new().parse(Data::Utf8(frame(b"alice-bob\nhello"))).ok().unwrap();
    assert_eq!(p.get_client_id(), "alice");
    assert_eq!(p.get_to(), "bob");
    assert_eq!(p.get_body().ok().unwrap(), "hello");
}

#[test]
fn parse_message_splits_at_first_delimiters() {
    let p = BaseProtocol::new()
        .parse(Data::Utf8(frame(b"a-b-c\nline one\nline two")))
        .ok()
        .unwrap();
    assert_eq!(p.get_client_id(), "a");
    assert_eq!(p.get_to(), "b-c");
    assert_eq!(p.get_body().ok().unwrap(), "line one\nline two");
}

#[test]
fn parse_message_without_newline_is_format_error() {
    let r = BaseProtocol::new().parse(Data::Utf8(frame(b"alice-bob hello")));
    assert!(matches!(r, Err(ProtocolError::FromatError(_))));
}

#[test]
fn parse_message_without_dash_is_format_error() {
    let r = BaseProtocol::new().parse(Data::Utf8(frame(b"alicebob\nhello")));
    assert!(matches!(r, Err(ProtocolError::FromatError(_))));
}

#[test]
fn parse_message_empty_buffer_is_format_error() {
    let r = BaseProtocol::new().parse(Data::Utf8([0u8; 1024]));
    assert!(matches!(r, Err(ProtocolError::FromatError(_))));
}

#[test]
fn parse_message_replaces_invalid_utf8() {
    let p = BaseProtocol::new().parse(Data::Utf8(frame(b"al\xFFce-bob\nhi"))).ok().unwrap();
    assert_eq!(p.get_client_id(), "al\u{FFFD}ce");
    assert_eq!(p.get_body().ok().unwrap(), "hi");
}

#[test]
fn parse_message_keeps_multibyte_text() {
    let p = BaseProtocol::new()
        .parse(Data::Utf8(frame("zoë-bob\nhéllo ✓".as_bytes())))
        .ok()
        .unwrap();
    assert_eq!(p.get_client_id(), "zoë");
    assert_eq!(p.get_body().ok().unwrap(), "héllo ✓");
}

#[test]
fn parse_message_from_utf16_buffer() {
    let p = BaseProtocol::new().parse(Data::Utf16(frame16("alice-bob\nhé"))).ok().unwrap();
    assert_eq!(p.get_client_id(), "alice");
    assert_eq!(p.get_to(), "bob");
    assert_eq!(p.get_body().ok().unwrap(), "hé");
}

#[test]
fn frame_text_of_utf16_is_utf8() {
    assert_eq!(frame_text_bytes(&Data::Utf16(frame16("é-x"))), "é-x".as_bytes().to_vec());
}

#[test]
fn serialize_message_layout() {
    let m = BaseProto::create("alice".to_string(), "hello".to_string(), "bob".to_string());
    assert_eq!(serialize_message(&m), b"alice-bob\nhello".to_vec());
    assert_eq!(BaseProtocol::new().to_raw(m).ok().unwrap(), b"alice-bob\nhello".to_vec());
}

#[test]
fn message_round_trip() {
    let m = BaseProto::create("zoë".to_string(), "two\nlines".to_string(), "bob".to_string());
    let bytes = serialize_message(&m);
    let p = BaseProtocol::new().parse(Data::Utf8(frame(&bytes))).ok().unwrap();
    assert_eq!(p.get_client_id(), m.get_sender());
    assert_eq!(p.get_to(), m.get_receiver());
    assert_eq!(p.get_body().ok().unwrap(), m.get_body());
    let back = p.into_message();
    assert_eq!(back.get_client_id(), "zoë");
}

#[test]
fn to_raw_is_the_same_for_any_protocol_value() {
    let a = BaseProtocol::new().to_raw(BaseProto::create("zoë".to_string(), "héllo".to_string(), "bob".to_string()));
    let b = BaseProtocol::new().to_raw(BaseProto::create("zoë".to_string(), "héllo".to_string(), "bob".to_string()));
    assert_eq!(a.ok().unwrap(), "zoë-bob\nhéllo".as_bytes().to_vec());
    assert_eq!(b.ok().unwrap(), "zoë-bob\nhéllo".as_bytes().to_vec());
}

#[test]
fn handshake_space_before_semicolon_is_session_error() {
    assert!(matches!(
        get_type_for_raw_utf8(b"SEND ;x"),
        Err(ProtocolError::SessionExtractionError(_))
    ));
    assert!(matches!(
        get_type_for_raw_utf8(b"RECEIVE\t;bob"),
        Err(ProtocolError::SessionExtractionError(_))
    ));
}

#[test]
fn handshake_leading_space_of_frame_is_dropped() {
    match get_type_for_raw_utf8(b" \n\tSEND;x") {
        Ok(TransmitService::Send(a)) => assert_eq!(a, "x"),
        _ => panic!("expected a Send role"),
    }
}
