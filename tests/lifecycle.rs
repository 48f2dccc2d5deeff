use bytes::Bytes;
use wsengine::connection::{Connection, Phase};
use wsengine::io_uring::{IoUringOp, UserDataExt};
use wsengine::upgrade::fake_ws_request;

#[test]
fn new_connection_is_closed() {
    let c = Connection::new();
    assert_eq!(c.phase(), Phase::Closed);
    assert_eq!(c.generation(), 0);
    assert!(c.outbound().get_front().is_none());
}

#[test]
fn generation_counts_accepts_and_wraps() {
    let mut c = Connection::new();
    for n in 1..=70_000u32 {
        c.accept();
        assert_eq!(c.phase(), Phase::Upgrading);
        assert_eq!(c.generation() as u32, n % 65_536);
        c.close();
    }
}

#[test]
fn stale_token_is_told_apart() {
    let mut c = Connection::new();
    c.accept();
    let t = <u64 as UserDataExt>::pack(Some(4), c.generation(), 0, IoUringOp::Recv);
    c.close();
    c.accept();
    assert_ne!(t.gen(), c.generation());
}

#[test]
fn handshake_then_frames() {
    let mut c = Connection::new();
    c.accept();
    let req = fake_ws_request();
    assert!(c.receive(&req[..10]).is_empty());
    assert_eq!(c.phase(), Phase::Upgrading);
    assert!(c.receive(&req[10..]).is_empty());
    assert_eq!(c.phase(), Phase::Active);
    let front = c.outbound().get_front().unwrap().to_vec();
    assert!(front.starts_with(b"HTTP/1.1 101 Switching Protocols\r\n"));
    let mut frames = vec![0x81, 0x82, 1, 2, 3, 4, b'h' ^ 1, b'i' ^ 2];
    frames.extend_from_slice(&[0x89, 0x80]);
    frames.extend_from_slice(&[0x82, 0x81, 0, 0]);
    let got = c.receive(&frames);
    assert_eq!(got.len(), 2);
    assert_eq!(got[0].payload, vec![b'h' ^ 1, b'i' ^ 2]);
    assert!(got[1].payload.is_empty());
    assert_eq!(c.phase(), Phase::Active);
    let rest = c.receive(&[0, 0, 0x55]);
    assert_eq!(rest.len(), 1);
    assert_eq!(rest[0].payload, vec![0x55]);
}

#[test]
fn bad_handshake_fails_connection() {
    let mut c = Connection::new();
    c.accept();
    assert!(c.receive(b"POST /ws HTTP/1.1\r\n\r\n").is_empty());
    assert_eq!(c.phase(), Phase::Error);
    assert!(c.receive(&fake_ws_request()).is_empty());
    assert_eq!(c.phase(), Phase::Error);
    c.accept();
    assert_eq!(c.phase(), Phase::Upgrading);
    assert_eq!(c.generation(), 2);
}

#[test]
fn unmasked_frame_fails_connection() {
    let mut c = Connection::new();
    c.accept();
    c.receive(&fake_ws_request());
    let got = c.receive(&[0x81, 0x80, 0x81, 0x01, b'x']);
    assert_eq!(got.len(), 1);
    assert_eq!(c.phase(), Phase::Error);
}

#[test]
fn close_drops_unsent_bytes() {
    let mut c = Connection::new();
    c.accept();
    c.receive(&fake_ws_request());
    assert!(c.outbound().get_front().is_some());
    c.close();
    assert_eq!(c.phase(), Phase::Closed);
    assert!(c.outbound().get_front().is_none());
    assert_eq!(c.generation(), 1);
    let _ = Bytes::new();
}

#[test]
fn closed_connection_ignores_bytes() {
    let mut c = Connection::new();
    assert!(c.receive(&[0x81, 0x80]).is_empty());
    assert_eq!(c.phase(), Phase::Closed);
}
