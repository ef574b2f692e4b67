use named_relay::connector::{Action, Event, Provider, User};
use named_relay::registry::Registry;
use named_relay::relay::{Dispatch, RelayServer};
use named_relay::splice::{CopyLoop, CopyStep, ReadOutcome, CHUNK_SIZE};

fn registered(d: Dispatch<u32>) -> Option<u32> {
    match d {
        Dispatch::Registered { evicted } => evicted,
        _ => panic!("expected a registration"),
    }
}

fn matched(d: Dispatch<u32>) -> (u32, u32, Vec<u8>) {
    match d {
        Dispatch::Matched { requester, provider, reply } => (requester, provider, reply),
        _ => panic!("expected a match"),
    }
}

fn not_found(d: Dispatch<u32>) -> (u32, Vec<u8>) {
    match d {
        Dispatch::NotFound { requester, reply } => (requester, reply),
        _ => panic!("expected no provider"),
    }
}

fn sent(a: Action) -> Vec<u8> {
    match a {
        Action::SendAndAwait(t) => t,
        _ => panic!("expected a token to send"),
    }
}

fn written(s: CopyStep) -> Vec<u8> {
    match s {
        CopyStep::Write(w) => w,
        _ => panic!("expected a write"),
    }
}

/// Runs `chunks` through a copy loop whose writes all succeed, then ends it.
fn pump(chunks: &[Vec<u8>]) -> Vec<u8> {
    let mut l = CopyLoop::new();
    let mut out = Vec::new();
    for c in chunks {
        let mut buf = vec![0xAAu8; CHUNK_SIZE];
        buf[..c.len()].copy_from_slice(c);
        let w = written(l.on_bytes(&buf, c.len()));
        out.extend_from_slice(&w);
        assert!(matches!(l.on_write(true), CopyStep::Read));
    }
    assert!(matches!(l.on_bytes(&[0u8; 8], 0), CopyStep::CloseWrite));
    assert!(!l.running());
    out
}

#[test]
fn last_registration_wins() {
    let mut reg: Registry<u32> = Registry::new();
    assert_eq!(reg.register(b"a".to_vec(), 1), None);
    assert_eq!(reg.register(b"a".to_vec(), 2), Some(1));
    assert_eq!(reg.register(b"b".to_vec(), 7), None);
    assert_eq!(reg.register(b"a".to_vec(), 3), Some(2));
    assert_eq!(reg.take_for_request(b"a"), Some(3));
    assert_eq!(reg.take_for_request(b"a"), None);
    assert_eq!(reg.take_for_request(b"b"), Some(7));
}

#[test]
fn single_hand_out() {
    let mut reg: Registry<u32> = Registry::new();
    reg.register(b"svc".to_vec(), 5);
    let first = reg.take_for_request(b"svc");
    let second = reg.take_for_request(b"svc");
    assert_eq!(first, Some(5));
    assert_eq!(second, None);
}

#[test]
fn provider_connect_is_consumed() {
    let mut relay: RelayServer<u32> = RelayServer::new();
    let mut provider = Provider::new(b"svc1".to_vec());
    assert!(matches!(provider.start(), Action::DialRelay));
    let reg = sent(provider.step(Event::RelayConnected));
    assert_eq!(reg, b"REGISTER:svc1".to_vec());
    assert_eq!(registered(relay.handle_connection(&reg, 1)), None);

    let mut user = User::new(b"svc1".to_vec());
    assert!(matches!(user.start(), Action::Accept));
    assert!(matches!(user.step(Event::ClientAccepted), Action::DialRelay));
    let req = sent(user.step(Event::RelayConnected));
    assert_eq!(req, b"REQUEST:svc1".to_vec());
    let (requester, prov, reply) = matched(relay.handle_connection(&req, 2));
    assert_eq!((requester, prov), (2, 1));
    assert_eq!(reply, b"OK".to_vec());

    let signal = match user.step(Event::Received(reply)) {
        Action::SendAndSplice(s) => s,
        _ => panic!("expected the connect signal"),
    };
    assert_eq!(signal, b"CONNECT".to_vec());

    // The relay forwards the signal verbatim, as payload.
    let mut user_to_provider = CopyLoop::new();
    let mut buf = [0u8; CHUNK_SIZE];
    buf[..signal.len()].copy_from_slice(&signal);
    let through = written(user_to_provider.on_bytes(&buf, signal.len()));
    assert_eq!(through, b"CONNECT".to_vec());

    // The provider takes it as its signal and does not pass it on.
    assert!(matches!(provider.step(Event::Received(through)), Action::DialTarget));
    assert!(matches!(provider.step(Event::TargetConnected), Action::Splice));
    let to_target = pump(&[b"hello".to_vec()]);
    assert_eq!(to_target, b"hello".to_vec());
}

#[test]
fn unknown_service_is_refused() {
    let mut relay: RelayServer<u32> = RelayServer::new();
    let mut user = User::new(b"svc2".to_vec());
    user.step(Event::ClientAccepted);
    let req = sent(user.step(Event::RelayConnected));
    let (requester, reply) = not_found(relay.handle_connection(&req, 9));
    assert_eq!(requester, 9);
    assert_eq!(reply, b"ERROR:Service not found".to_vec());
    assert!(matches!(user.step(Event::Received(reply)), Action::Accept));
}

#[test]
fn second_provider_replaces_first() {
    let mut relay: RelayServer<u32> = RelayServer::new();
    assert_eq!(registered(relay.handle_connection(b"REGISTER:svc3", 1)), None);
    assert_eq!(registered(relay.handle_connection(b"REGISTER:svc3", 2)), Some(1));
    let (_, prov, _) = matched(relay.handle_connection(b"REQUEST:svc3", 3));
    assert_eq!(prov, 2);
    let (requester, _) = not_found(relay.handle_connection(b"REQUEST:svc3", 4));
    assert_eq!(requester, 4);
}

#[test]
fn malformed_connection_is_rejected() {
    let mut relay: RelayServer<u32> = RelayServer::new();
    match relay.handle_connection(b"HELLO:svc", 6) {
        Dispatch::Rejected { conn } => assert_eq!(conn, 6),
        _ => panic!("expected a rejection"),
    }
}

#[test]
fn half_close_ends_the_loop() {
    let mut l = CopyLoop::new();
    let w = written(l.on_bytes(b"abc", 3));
    assert_eq!(w, b"abc".to_vec());
    assert!(matches!(l.on_write(true), CopyStep::Read));
    assert!(matches!(l.on_bytes(b"", 0), CopyStep::CloseWrite));
    assert!(!l.running());
}

#[test]
fn read_or_write_failure_ends_the_loop() {
    let mut l = CopyLoop::new();
    assert!(matches!(l.on_read(ReadOutcome::Failed), CopyStep::CloseWrite));
    assert!(!l.running());
    let mut m = CopyLoop::new();
    written(m.on_read(ReadOutcome::Chunk(vec![1, 2])));
    assert!(matches!(m.on_write(false), CopyStep::CloseWrite));
    assert!(!m.running());
}

#[test]
fn skipped_frames_are_not_written() {
    let mut l = CopyLoop::new();
    assert!(matches!(l.on_read(ReadOutcome::Skipped), CopyStep::Read));
    assert!(l.running());
    assert_eq!(written(l.on_read(ReadOutcome::Chunk(Vec::new()))), Vec::<u8>::new());
}

#[test]
fn bytes_arrive_unchanged() {
    let mut chunks = Vec::new();
    let mut expected = Vec::new();
    for (k, len) in [1usize, CHUNK_SIZE - 1, CHUNK_SIZE, 3, CHUNK_SIZE].iter().enumerate() {
        let c: Vec<u8> = (0..*len).map(|i| ((i * 31 + k) % 256) as u8).collect();
        expected.extend_from_slice(&c);
        chunks.push(c);
    }
    chunks.push(vec![0u8; 17]);
    expected.extend_from_slice(&[0u8; 17]);
    assert_eq!(pump(&chunks), expected);
}

#[test]
fn provider_reconnects_without_signal() {
    let mut provider = Provider::new(b"p".to_vec());
    provider.step(Event::RelayConnected);
    assert!(matches!(provider.step(Event::Received(Vec::new())), Action::DialRelay));
    provider.step(Event::RelayConnected);
    assert!(matches!(provider.step(Event::Received(b"OK".to_vec())), Action::DialRelay));
    provider.step(Event::RelayConnected);
    provider.step(Event::Received(b"CONNECT".to_vec()));
    assert!(matches!(provider.step(Event::Failed), Action::DialRelay));
    provider.step(Event::RelayConnected);
    provider.step(Event::Received(b"CONNECT".to_vec()));
    provider.step(Event::TargetConnected);
    assert!(matches!(provider.step(Event::Ended), Action::DialRelay));
}

#[test]
fn user_abandons_client_on_bad_reply() {
    let mut user = User::new(b"u".to_vec());
    user.step(Event::ClientAccepted);
    user.step(Event::RelayConnected);
    assert!(matches!(user.step(Event::Received(b"NOPE".to_vec())), Action::Accept));
    user.step(Event::ClientAccepted);
    user.step(Event::RelayConnected);
    assert!(matches!(user.step(Event::Received(Vec::new())), Action::Accept));
    user.step(Event::ClientAccepted);
    assert!(matches!(user.step(Event::Failed), Action::Accept));
}
