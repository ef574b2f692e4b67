use named_relay::protocol::{
    bytes_equal, classify_reply, connect_signal, is_connect_signal, not_found_reply, ok_reply,
    parse_identity, register_token, request_token, Identity, Reply,
};

fn name_of(id: Identity) -> (u8, Vec<u8>) {
    match id {
        Identity::Register(n) => (1, n),
        Identity::Request(n) => (2, n),
        Identity::Malformed => (0, Vec::new()),
    }
}

#[test]
fn parses_register() {
    assert_eq!(name_of(parse_identity(b"REGISTER:vnc_service_a")), (1, b"vnc_service_a".to_vec()));
}

#[test]
fn parses_request() {
    assert_eq!(name_of(parse_identity(b"REQUEST:svc1")), (2, b"svc1".to_vec()));
}

#[test]
fn trims_surrounding_whitespace() {
    assert_eq!(name_of(parse_identity(b"  REQUEST:svc1\r\n")), (2, b"svc1".to_vec()));
}

#[test]
fn name_stops_at_separator() {
    assert_eq!(name_of(parse_identity(b"REGISTER:a:b")), (1, b"a".to_vec()));
}

#[test]
fn empty_name_is_kept() {
    assert_eq!(name_of(parse_identity(b"REGISTER:")), (1, Vec::new()));
}

#[test]
fn rejects_malformed_tokens() {
    assert_eq!(name_of(parse_identity(b"HELLO")).0, 0);
    assert_eq!(name_of(parse_identity(b"")).0, 0);
    assert_eq!(name_of(parse_identity(b"register:svc")).0, 0);
    assert_eq!(name_of(parse_identity(b"REGISTER")).0, 0);
    assert_eq!(name_of(parse_identity(b"CONNECT")).0, 0);
}

#[test]
fn builds_tokens() {
    assert_eq!(register_token(b"svc1"), b"REGISTER:svc1".to_vec());
    assert_eq!(request_token(b"svc1"), b"REQUEST:svc1".to_vec());
    assert_eq!(ok_reply(), b"OK".to_vec());
    assert_eq!(not_found_reply(), b"ERROR:Service not found".to_vec());
    assert_eq!(connect_signal(), b"CONNECT".to_vec());
}

#[test]
fn classifies_replies() {
    assert_eq!(classify_reply(b"OK"), Reply::Accepted);
    assert_eq!(classify_reply(b"ERROR:Service not found"), Reply::Refused);
    assert_eq!(classify_reply(b""), Reply::Closed);
    assert_eq!(classify_reply(b"OKAY"), Reply::Unexpected);
    assert_eq!(classify_reply(b"ERR"), Reply::Unexpected);
}

#[test]
fn recognises_connect_signal() {
    assert!(is_connect_signal(b"CONNECT"));
    assert!(!is_connect_signal(b"CONNECT\n"));
    assert!(!is_connect_signal(b"connect"));
    assert!(!is_connect_signal(b""));
}

#[test]
fn compares_bytes() {
    assert!(bytes_equal(b"abc", b"abc"));
    assert!(!bytes_equal(b"abc", b"abd"));
    assert!(!bytes_equal(b"abc", b"ab"));
    assert!(bytes_equal(b"", b""));
}

#[test]
fn built_tokens_parse_back() {
    assert_eq!(name_of(parse_identity(&register_token(b"vnc_a"))), (1, b"vnc_a".to_vec()));
    assert_eq!(name_of(parse_identity(&request_token(b"vnc_a"))), (2, b"vnc_a".to_vec()));
    assert_eq!(name_of(parse_identity(&request_token(b""))), (2, Vec::new()));
}
