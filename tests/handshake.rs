use bytes::{Bytes, BytesMut};
use wsengine::upgrade::{
    accept_key, fake_ws_request, response_for, validate_request, RequestHead, Upgrade, UpgradeError,
    UpgradeParser,
};

const EXPECTED_RESPONSE: &[u8] = b"HTTP/1.1 101 Switching Protocols\r\nUpgrade: websocket\r\nConnection: Upgrade\r\nSec-WebSocket-Accept: s3pPLMBiTxaQ9kYGzzhZRbK+xOo=\r\n\r\n";

fn request_with(lines: &[&str]) -> Vec<u8> {
    let mut s = String::from("GET /ws HTTP/1.1\r\n");
    for l in lines {
        s.push_str(l);
        s.push_str("\r\n");
    }
    s.push_str("\r\n");
    s.into_bytes()
}

const ALL_HEADERS: [&str; 6] = [
    "Host: localhost:8080",
    "Connection: Upgrade",
    "Upgrade: websocket",
    "Origin: http://localhost",
    "Sec-WebSocket-Version: 13",
    "Sec-WebSocket-Key: dGhlIHNhbXBsZSBub25jZQ==",
];

fn run(req: &[u8]) -> Result<Option<Bytes>, UpgradeError> {
    UpgradeParser::new(BytesMut::new()).accumulate(req)
}

#[test]
fn rfc_accept_key() {
    assert_eq!(accept_key(b"dGhlIHNhbXBsZSBub25jZQ=="), b"s3pPLMBiTxaQ9kYGzzhZRbK+xOo=".to_vec());
}

#[test]
fn accept_key_differs_from_its_input() {
    let k = accept_key(b"x3JJHMbDL1EzLkh9GBhXDw==");
    assert_eq!(k, b"HSmrc0sMlYUkAGmm5OPpG2HaGWk=".to_vec());
}

#[test]
fn response_template() {
    assert_eq!(response_for(b"s3pPLMBiTxaQ9kYGzzhZRbK+xOo="), EXPECTED_RESPONSE.to_vec());
}

#[test]
fn whole_request_is_accepted() {
    assert_eq!(run(&fake_ws_request()).unwrap().unwrap(), EXPECTED_RESPONSE.to_vec());
}

#[test]
fn sample_request_text() {
    let req = fake_ws_request();
    assert!(req.starts_with(b"GET /ws HTTP/1.1\r\n"));
    assert!(req.ends_with(b"dGhlIHNhbXBsZSBub25jZQ==\r\n\r\n"));
}

#[test]
fn single_byte_chunks_give_the_same_response() {
    let req = fake_ws_request();
    let mut p = UpgradeParser::new(BytesMut::new());
    for (i, b) in req.iter().enumerate() {
        let r = p.accumulate(&[*b]).unwrap();
        if i + 1 < req.len() {
            assert!(r.is_none(), "early answer at byte {}", i);
        } else {
            assert_eq!(r.unwrap(), EXPECTED_RESPONSE.to_vec());
        }
    }
}

#[test]
fn two_chunks_give_the_same_response() {
    let req = fake_ws_request();
    for at in 1..req.len() {
        let mut p = UpgradeParser::new(BytesMut::new());
        assert!(p.accumulate(&req[..at]).unwrap().is_none());
        assert_eq!(p.accumulate(&req[at..]).unwrap().unwrap(), EXPECTED_RESPONSE.to_vec());
    }
}

#[test]
fn header_names_and_values_ignore_case() {
    let req = request_with(&[
        "host: a",
        "CONNECTION: upgrade",
        "upgrade: WebSocket",
        "origin: b",
        "sec-websocket-version: 13",
        "sec-websocket-key: dGhlIHNhbXBsZSBub25jZQ==",
    ]);
    assert_eq!(run(&req).unwrap().unwrap(), EXPECTED_RESPONSE.to_vec());
}

#[test]
fn each_missing_header_is_refused() {
    for skip in 0..ALL_HEADERS.len() {
        let lines: Vec<&str> = ALL_HEADERS.iter().enumerate().filter(|(i, _)| *i != skip).map(|(_, l)| *l).collect();
        assert!(matches!(run(&request_with(&lines)), Err(UpgradeError::MissingHeader)));
    }
}

#[test]
fn wrong_version_header_is_refused() {
    let mut lines = ALL_HEADERS.to_vec();
    lines[4] = "Sec-WebSocket-Version: 8";
    assert!(matches!(run(&request_with(&lines)), Err(UpgradeError::InvalidValue)));
}

#[test]
fn wrong_upgrade_header_is_refused() {
    let mut lines = ALL_HEADERS.to_vec();
    lines[2] = "Upgrade: h2c";
    assert!(matches!(run(&request_with(&lines)), Err(UpgradeError::InvalidValue)));
}

#[test]
fn trailing_body_is_refused() {
    let mut req = fake_ws_request();
    req.extend_from_slice(b"body");
    assert!(matches!(run(&req), Err(UpgradeError::InvalidValue)));
}

#[test]
fn wrong_method_is_refused() {
    let req = String::from_utf8(fake_ws_request()).unwrap().replacen("GET", "POST", 1);
    assert!(matches!(run(req.as_bytes()), Err(UpgradeError::InvalidMethod)));
}

#[test]
fn wrong_path_is_refused() {
    let req = String::from_utf8(fake_ws_request()).unwrap().replacen("/ws", "/chat", 1);
    assert!(matches!(run(req.as_bytes()), Err(UpgradeError::InvalidPath)));
}

#[test]
fn wrong_http_version_is_refused() {
    let req = String::from_utf8(fake_ws_request()).unwrap().replacen("HTTP/1.1", "HTTP/1.0", 1);
    assert!(matches!(run(req.as_bytes()), Err(UpgradeError::InvalidVersion)));
}

#[test]
fn malformed_request_is_a_parse_error() {
    assert!(matches!(run(b"GET /ws HTTP/1.1\r\nHo st\r\n\r\n"), Err(UpgradeError::ParseError(_))));
}

#[test]
fn incomplete_request_waits() {
    assert!(run(b"GET /ws HTTP/1.1\r\nHost: a\r\n").unwrap().is_none());
}

fn head(headers: &[(&str, &str)], len: usize) -> RequestHead {
    RequestHead {
        method: Some(b"GET".to_vec()),
        path: Some(b"/ws".to_vec()),
        version: Some(1),
        headers: headers.iter().map(|(n, v)| (n.as_bytes().to_vec(), v.as_bytes().to_vec())).collect(),
        len,
    }
}

const GOOD: [(&str, &str); 6] = [
    ("Host", "h"),
    ("Connection", "Upgrade"),
    ("Upgrade", "websocket"),
    ("Origin", "o"),
    ("Sec-WebSocket-Version", "13"),
    ("Sec-WebSocket-Key", "abc"),
];

#[test]
fn validate_returns_the_key() {
    let h = head(&GOOD, 100);
    assert_eq!(validate_request(&h, 100).unwrap(), b"abc");
}

#[test]
fn validate_checks_in_order() {
    let mut h = head(&GOOD[..3], 100);
    h.method = Some(b"PUT".to_vec());
    h.path = Some(b"/x".to_vec());
    assert!(matches!(validate_request(&h, 100), Err(UpgradeError::InvalidMethod)));
    h.method = Some(b"GET".to_vec());
    assert!(matches!(validate_request(&h, 100), Err(UpgradeError::InvalidPath)));
    h.path = Some(b"/ws".to_vec());
    h.version = Some(0);
    assert!(matches!(validate_request(&h, 100), Err(UpgradeError::InvalidVersion)));
    h.version = Some(1);
    assert!(matches!(validate_request(&h, 100), Err(UpgradeError::MissingHeader)));
    let h = head(&GOOD, 90);
    assert!(matches!(validate_request(&h, 100), Err(UpgradeError::InvalidValue)));
}

#[test]
fn check_header_finds_first_match() {
    let h = head(&[("X-A", "1"), ("x-a", "2"), ("Upgrade", "WEBSOCKET")], 10);
    assert_eq!(<UpgradeParser as Upgrade>::check_header(&h, "x-A", None).unwrap(), b"1");
    assert_eq!(<UpgradeParser as Upgrade>::check_header(&h, "upgrade", Some("websocket")).unwrap(), b"WEBSOCKET");
    assert!(matches!(<UpgradeParser as Upgrade>::check_header(&h, "Upgrade", Some("h2c")), Err(UpgradeError::InvalidValue)));
    assert!(matches!(<UpgradeParser as Upgrade>::check_header(&h, "Origin", None), Err(UpgradeError::MissingHeader)));
}

#[test]
fn into_response_uses_the_key() {
    let p = UpgradeParser::new(BytesMut::from(&[0u8; 100][..]));
    let h = head(&GOOD, 100);
    let mut expected = b"HTTP/1.1 101 Switching Protocols\r\nUpgrade: websocket\r\nConnection: Upgrade\r\nSec-WebSocket-Accept: ".to_vec();
    expected.extend_from_slice(&accept_key(b"abc"));
    expected.extend_from_slice(b"\r\n\r\n");
    assert_eq!(p.into_response(&h).unwrap(), expected);
}
