//! The HTTP Upgrade handshake: bytes are accumulated until a complete
//! request head has arrived, the request is validated, and the
//! `101 Switching Protocols` response is built.

use crate::send_buf::{bytes_from_vec, bytes_view};
use base64::Engine;
use bytes::{Buf, BufMut};
use sha1::Digest;
use vstd::prelude::*;
use vstd::string::StringSliceAdditionalSpecFns;

verus! {

#[verifier::external_type_specification]
#[verifier::external_body]
pub struct ExHttpParseError(httparse::Error);

#[verifier::external_type_specification]
#[verifier::external_body]
pub struct ExBytesMut(bytes::BytesMut);

/// The bytes that a `BytesMut` holds.
pub uninterp spec fn bytes_mut_view(b: bytes::BytesMut) -> Seq<u8>;

/// Relies on `BytesMut::new`: an empty buffer.
#[verifier::external_body]
pub(crate) fn empty_bytes_mut() -> (r: bytes::BytesMut)
    ensures
        bytes_mut_view(r) == Seq::<u8>::empty(),
{
    bytes::BytesMut::new()
}

/// Relies on `BufMut::put_slice` for `BytesMut`: it appends the bytes of
/// `src`, growing the buffer.
#[verifier::external_body]
fn put_slice(b: &mut bytes::BytesMut, src: &[u8])
    ensures
        bytes_mut_view(*final(b)) == bytes_mut_view(*old(b)) + src@,
{
    b.put_slice(src)
}

/// Relies on `Buf::chunk` for `BytesMut`: a slice of all its bytes.
#[verifier::external_body]
fn bytes_mut_chunk(b: &bytes::BytesMut) -> (r: &[u8])
    ensures
        r@ == bytes_mut_view(*b),
{
    b.chunk()
}

/// Why a handshake request was refused.
#[derive(Debug)]
pub enum UpgradeError {
    InvalidMethod,
    InvalidPath,
    InvalidVersion,
    /// A header holds a value other than the one required, or bytes follow
    /// the request head.
    InvalidValue,
    MissingHeader,
    /// The bytes are not an HTTP request.
    ParseError(httparse::Error),
    Unknown,
}

/// The most headers that a request may carry.
pub const MAX_HEADERS: usize = 12;

/// The method that a handshake must use.
pub const METHOD: &'static str = "GET";

/// The one path on which upgrades are accepted.
pub const WS_PATH: &'static str = "/ws";

/// The minor HTTP version that a handshake must use (HTTP/1.1).
pub const HTTP_MINOR_VERSION: u8 = 1;

/// The GUID that is appended to the client's key before hashing.
pub const WS_MAGIC: &'static str = "258EAFA5-E914-47DA-95CA-C5AB0DC85B11";

/// The response up to the accept key.
pub const RESPONSE_HEAD: &'static str = "HTTP/1.1 101 Switching Protocols\r\nUpgrade: websocket\r\nConnection: Upgrade\r\nSec-WebSocket-Accept: ";

/// What ends the response after the accept key.
pub const RESPONSE_TAIL: &'static str = "\r\n\r\n";

/// A complete, valid handshake request.
pub const SAMPLE_REQUEST: &'static str = "GET /ws HTTP/1.1\r\nHost: localhost:8080\r\nConnection: Upgrade\r\nUpgrade: websocket\r\nOrigin: http://localhost\r\nSec-WebSocket-Version: 13\r\nSec-WebSocket-Key: dGhlIHNhbXBsZSBub25jZQ==\r\n\r\n";

/// The name of the header that holds the client's key.
pub const KEY_HEADER: &'static str = "Sec-WebSocket-Key";

/// A complete request head, with every text as bytes.
pub struct RequestHead {
    pub method: Option<Vec<u8>>,
    pub path: Option<Vec<u8>>,
    /// The minor version of HTTP/1.x.
    pub version: Option<u8>,
    /// Name and value of each header, in the order of the request.
    pub headers: Vec<(Vec<u8>, Vec<u8>)>,
    /// The number of bytes that the head takes.
    pub len: usize,
}

/// What the request parser made of a buffer.
pub enum HeadStatus {
    Partial,
    Complete(RequestHead),
}

/// The mathematical content of a parse.
pub enum HeadView {
    Invalid,
    Partial,
    Complete {
        method: Option<Seq<u8>>,
        path: Option<Seq<u8>>,
        version: Option<u8>,
        headers: Seq<(Seq<u8>, Seq<u8>)>,
        len: nat,
    },
}

pub open spec fn opt_bytes(v: Option<Vec<u8>>) -> Option<Seq<u8>> {
    match v {
        Some(b) => Some(b@),
        None => None,
    }
}

pub open spec fn headers_view(hs: Seq<(Vec<u8>, Vec<u8>)>) -> Seq<(Seq<u8>, Seq<u8>)> {
    hs.map_values(|h: (Vec<u8>, Vec<u8>)| (h.0@, h.1@))
}

pub open spec fn head_view(h: RequestHead) -> HeadView {
    HeadView::Complete {
        method: opt_bytes(h.method),
        path: opt_bytes(h.path),
        version: h.version,
        headers: headers_view(h.headers@),
        len: h.len as nat,
    }
}

pub open spec fn parse_view(r: Result<HeadStatus, httparse::Error>) -> HeadView {
    match r {
        Err(_) => HeadView::Invalid,
        Ok(HeadStatus::Partial) => HeadView::Partial,
        Ok(HeadStatus::Complete(h)) => head_view(h),
    }
}

/// What httparse makes of `buf` with room for `max_headers` headers.
pub uninterp spec fn parsed_head_of(buf: Seq<u8>, max_headers: usize) -> HeadView;

/// The SHA-1 digest of `data`.
pub uninterp spec fn sha1_of(data: Seq<u8>) -> Seq<u8>;

/// The standard, padded base64 text of `data`, as ASCII bytes.
pub uninterp spec fn base64_of(data: Seq<u8>) -> Seq<u8>;

/// Relies on httparse::Request::parse: it reads a request head from `buf`,
/// and where the head is complete its length is an offset into `buf`.
#[verifier::external_body]
fn parse_head(buf: &[u8], max_headers: usize) -> (r: Result<HeadStatus, httparse::Error>)
    ensures
        parse_view(r) == parsed_head_of(buf@, max_headers),
        r matches Ok(HeadStatus::Complete(h)) ==> h.len <= buf@.len(),
{
    let mut headers = vec![httparse::EMPTY_HEADER; max_headers];
    let mut req = httparse::Request::new(&mut headers);
    Ok(match req.parse(buf)? {
        httparse::Status::Partial => HeadStatus::Partial,
        httparse::Status::Complete(len) => HeadStatus::Complete(RequestHead {
            method: req.method.map(|m| m.as_bytes().to_vec()),
            path: req.path.map(|p| p.as_bytes().to_vec()),
            version: req.version,
            headers: req.headers.iter().map(|h| (h.name.as_bytes().to_vec(), h.value.to_vec())).collect(),
            len,
        }),
    })
}

/// Relies on sha1::Sha1::digest: the 20-byte SHA-1 digest of `data`.
#[verifier::external_body]
fn sha1_digest(data: &[u8]) -> (r: Vec<u8>)
    ensures
        r@ == sha1_of(data@),
        r@.len() == 20,
{
    sha1::Sha1::digest(data).to_vec()
}

/// Relies on base64's STANDARD engine: `encode` gives the padded base64
/// text of `data`.
#[verifier::external_body]
fn base64_encode(data: &[u8]) -> (r: Vec<u8>)
    ensures
        r@ == base64_of(data@),
{
    base64::engine::general_purpose::STANDARD.encode(data).into_bytes()
}

/// `c` with an ASCII capital letter turned to lower case.
pub open spec fn ascii_lower(c: u8) -> u8 {
    if 65 <= c <= 90 {
        (c + 32) as u8
    } else {
        c
    }
}

/// `a` and `b` are equal but for the case of ASCII letters.
pub open spec fn eq_ignore_case(a: Seq<u8>, b: Seq<u8>) -> bool {
    &&& a.len() == b.len()
    &&& forall|i: int| 0 <= i < a.len() ==> ascii_lower(#[trigger] a[i]) == ascii_lower(b[i])
}

/// The value of the first header named `name`, names compared without case.
pub open spec fn find_header(hs: Seq<(Seq<u8>, Seq<u8>)>, name: Seq<u8>) -> Option<Seq<u8>>
    decreases hs.len(),
{
    if hs.len() == 0 {
        None
    } else if eq_ignore_case(hs[0].0, name) {
        Some(hs[0].1)
    } else {
        find_header(hs.drop_first(), name)
    }
}

/// The value of header `name`, which must be present and, where `expected`
/// is given, equal to it but for case.
pub open spec fn header_check(
    hs: Seq<(Seq<u8>, Seq<u8>)>,
    name: Seq<u8>,
    expected: Option<Seq<u8>>,
) -> Result<Seq<u8>, UpgradeError> {
    match find_header(hs, name) {
        None => Err(UpgradeError::MissingHeader),
        Some(v) => match expected {
            Some(x) => if eq_ignore_case(v, x) {
                Ok(v)
            } else {
                Err(UpgradeError::InvalidValue)
            },
            None => Ok(v),
        },
    }
}

/// The headers that a handshake must carry, with the value that some must hold.
pub open spec fn required_headers() -> Seq<(&'static str, Option<&'static str>)> {
    seq![
        ("Host", None),
        ("Connection", Some("Upgrade")),
        ("Upgrade", Some("websocket")),
        ("Origin", None),
        ("Sec-WebSocket-Version", Some("13")),
        ("Sec-WebSocket-Key", None),
    ]
}

pub open spec fn opt_str_bytes(s: Option<&str>) -> Option<Seq<u8>> {
    match s {
        Some(x) => Some(x.spec_bytes()),
        None => None,
    }
}

/// The first failure among the checks of `req`, in order.
pub open spec fn check_required(
    hs: Seq<(Seq<u8>, Seq<u8>)>,
    req: Seq<(&str, Option<&str>)>,
) -> Result<(), UpgradeError>
    decreases req.len(),
{
    if req.len() == 0 {
        Ok(())
    } else {
        match header_check(hs, req[0].0.spec_bytes(), opt_str_bytes(req[0].1)) {
            Err(e) => Err(e),
            Ok(_) => check_required(hs, req.drop_first()),
        }
    }
}

/// The validation of a complete request head of `len` bytes found in a
/// buffer of `total` bytes: the client's key, or the first check that fails,
/// in the order method, path, version, headers, absence of a body.
pub open spec fn validation(
    method: Option<Seq<u8>>,
    path: Option<Seq<u8>>,
    version: Option<u8>,
    hs: Seq<(Seq<u8>, Seq<u8>)>,
    len: nat,
    total: nat,
) -> Result<Seq<u8>, UpgradeError> {
    if method != Some(METHOD.spec_bytes()) {
        Err(UpgradeError::InvalidMethod)
    } else if path != Some(WS_PATH.spec_bytes()) {
        Err(UpgradeError::InvalidPath)
    } else if version != Some(HTTP_MINOR_VERSION) {
        Err(UpgradeError::InvalidVersion)
    } else {
        match check_required(hs, required_headers()) {
            Err(e) => Err(e),
            Ok(_) => if total > len {
                Err(UpgradeError::InvalidValue)
            } else {
                header_check(hs, KEY_HEADER.spec_bytes(), None)
            },
        }
    }
}

/// The accept key for the client's key `key`.
pub open spec fn accept_key_of(key: Seq<u8>) -> Seq<u8> {
    base64_of(sha1_of(key + WS_MAGIC.spec_bytes()))
}

/// The response that accepts an upgrade with accept key `accept`.
pub open spec fn response_of(accept: Seq<u8>) -> Seq<u8> {
    RESPONSE_HEAD.spec_bytes() + accept + RESPONSE_TAIL.spec_bytes()
}

/// What the handshake makes of all the bytes received so far.
pub enum Handshake {
    /// The request head is not complete yet.
    Incomplete,
    /// The bytes are not an HTTP request.
    Malformed,
    Rejected(UpgradeError),
    /// The response to send.
    Accepted(Seq<u8>),
}

pub open spec fn handshake_of(buf: Seq<u8>) -> Handshake {
    match parsed_head_of(buf, MAX_HEADERS) {
        HeadView::Invalid => Handshake::Malformed,
        HeadView::Partial => Handshake::Incomplete,
        HeadView::Complete { method, path, version, headers, len } => match validation(
            method,
            path,
            version,
            headers,
            len,
            buf.len(),
        ) {
            Err(e) => Handshake::Rejected(e),
            Ok(key) => Handshake::Accepted(response_of(accept_key_of(key))),
        },
    }
}

/// `r` is the executable form of `h`.
pub open spec fn outcome_is(r: Result<Option<bytes::Bytes>, UpgradeError>, h: Handshake) -> bool {
    match h {
        Handshake::Incomplete => r matches Ok(None),
        Handshake::Malformed => r matches Err(UpgradeError::ParseError(_)),
        Handshake::Rejected(e) => r == Err::<Option<bytes::Bytes>, UpgradeError>(e),
        Handshake::Accepted(resp) => r matches Ok(Some(v)) && bytes_view(v) == resp,
    }
}

/// Appends the bytes of `s` to `v`.
fn append_bytes(v: &mut Vec<u8>, s: &[u8])
    ensures
        final(v)@ == old(v)@ + s@,
{
    let mut i: usize = 0;
    while i < s.len()
        invariant
            i <= s@.len(),
            v@ == old(v)@ + s@.subrange(0, i as int),
        decreases s@.len() - i,
    {
        v.push(s[i]);
        i = i + 1;
        assert(v@ =~= old(v)@ + s@.subrange(0, i as int));
    }
    assert(s@.subrange(0, i as int) =~= s@);
}

/// Whether `a` and `b` hold the same bytes.
pub fn bytes_eq(a: &[u8], b: &[u8]) -> (r: bool)
    ensures
        r == (a@ == b@),
{
    if a.len() != b.len() {
        return false;
    }
    let mut i: usize = 0;
    while i < a.len()
        invariant
            a@.len() == b@.len(),
            i <= a@.len(),
            forall|j: int| 0 <= j < i ==> a@[j] == b@[j],
        decreases a@.len() - i,
    {
        if a[i] != b[i] {
            return false;
        }
        i = i + 1;
    }
    assert(a@ =~= b@);
    true
}

fn to_ascii_lower(c: u8) -> (r: u8)
    ensures
        r == ascii_lower(c),
{
    if 65 <= c && c <= 90 {
        c + 32
    } else {
        c
    }
}

/// Whether `a` and `b` are equal but for the case of ASCII letters.
pub fn eq_ignore_ascii_case(a: &[u8], b: &[u8]) -> (r: bool)
    ensures
        r == eq_ignore_case(a@, b@),
{
    if a.len() != b.len() {
        return false;
    }
    let mut i: usize = 0;
    while i < a.len()
        invariant
            a@.len() == b@.len(),
            i <= a@.len(),
            forall|j: int| 0 <= j < i ==> ascii_lower(#[trigger] a@[j]) == ascii_lower(b@[j]),
        decreases a@.len() - i,
    {
        if to_ascii_lower(a[i]) != to_ascii_lower(b[i]) {
            return false;
        }
        i = i + 1;
    }
    true
}

fn opt_eq(v: &Option<Vec<u8>>, s: &str) -> (r: bool)
    ensures
        r == (opt_bytes(*v) == Some(s.spec_bytes())),
{
    match v {
        Some(b) => bytes_eq(b.as_slice(), s.as_bytes()),
        None => false,
    }
}

pub open spec fn found_view(r: Result<&[u8], UpgradeError>) -> Result<Seq<u8>, UpgradeError> {
    match r {
        Ok(v) => Ok(v@),
        Err(e) => Err(e),
    }
}

/// The value of the first header of `hs` named `name`, names compared
/// without case.
pub fn find_header_value<'a>(hs: &'a Vec<(Vec<u8>, Vec<u8>)>, name: &[u8]) -> (r: Option<&'a [u8]>)
    ensures
        match r {
            Some(v) => find_header(headers_view(hs@), name@) == Some(v@),
            None => find_header(headers_view(hs@), name@) is None,
        },
{
    let ghost hv = headers_view(hs@);
    let mut i: usize = 0;
    assert(hv.skip(0) =~= hv);
    while i < hs.len()
        invariant
            hv == headers_view(hs@),
            i <= hs@.len(),
            find_header(hv, name@) == find_header(hv.skip(i as int), name@),
        decreases hs@.len() - i,
    {
        let ghost rest = hv.skip(i as int);
        assert(rest[0] == hv[i as int]);
        assert(rest.drop_first() =~= hv.skip(i + 1));
        if eq_ignore_ascii_case(hs[i].0.as_slice(), name) {
            return Some(hs[i].1.as_slice());
        }
        i = i + 1;
    }
    None
}

/// The value of header `name`, which must be present and, where `expected`
/// is given, equal to it but for case.
pub fn check_header_in<'a>(hs: &'a Vec<(Vec<u8>, Vec<u8>)>, name: &str, expected: Option<&str>) -> (r:
    Result<&'a [u8], UpgradeError>)
    ensures
        found_view(r) == header_check(headers_view(hs@), name.spec_bytes(), opt_str_bytes(expected)),
{
    match find_header_value(hs, name.as_bytes()) {
        None => Err(UpgradeError::MissingHeader),
        Some(v) => match expected {
            Some(x) => if eq_ignore_ascii_case(v, x.as_bytes()) {
                Ok(v)
            } else {
                Err(UpgradeError::InvalidValue)
            },
            None => Ok(v),
        },
    }
}

fn required_header_table() -> (r: Vec<(&'static str, Option<&'static str>)>)
    ensures
        r@ == required_headers(),
{
    let r = vec![
        ("Host", None),
        ("Connection", Some("Upgrade")),
        ("Upgrade", Some("websocket")),
        ("Origin", None),
        ("Sec-WebSocket-Version", Some("13")),
        ("Sec-WebSocket-Key", None),
    ];
    assert(r@ =~= required_headers());
    r
}

/// Checks each required header in turn and stops at the first failure.
fn check_required_headers(hs: &Vec<(Vec<u8>, Vec<u8>)>) -> (r: Result<(), UpgradeError>)
    ensures
        r == check_required(headers_view(hs@), required_headers()),
{
    let table = required_header_table();
    let ghost hv = headers_view(hs@);
    let mut i: usize = 0;
    assert(table@.skip(0) =~= table@);
    while i < table.len()
        invariant
            hv == headers_view(hs@),
            table@ == required_headers(),
            i <= table@.len(),
            check_required(hv, table@) == check_required(hv, table@.skip(i as int)),
        decreases table@.len() - i,
    {
        let ghost rest = table@.skip(i as int);
        assert(rest[0] == table@[i as int]);
        assert(rest.drop_first() =~= table@.skip(i + 1));
        let (name, expected) = table[i];
        match check_header_in(hs, name, expected) {
            Err(e) => {
                return Err(e);
            },
            Ok(_) => {},
        }
        i = i + 1;
    }
    Ok(())
}

/// Validates a complete request head of `head.len` bytes found in a buffer
/// of `total` bytes, and returns the client's key.
pub fn validate_request<'a>(head: &'a RequestHead, total: usize) -> (r: Result<&'a [u8], UpgradeError>)
    ensures
        found_view(r) == validation(
            opt_bytes(head.method),
            opt_bytes(head.path),
            head.version,
            headers_view(head.headers@),
            head.len as nat,
            total as nat,
        ),
{
    if !opt_eq(&head.method, METHOD) {
        return Err(UpgradeError::InvalidMethod);
    }
    if !opt_eq(&head.path, WS_PATH) {
        return Err(UpgradeError::InvalidPath);
    }
    match head.version {
        Some(v) => if v != HTTP_MINOR_VERSION {
            return Err(UpgradeError::InvalidVersion);
        },
        None => {
            return Err(UpgradeError::InvalidVersion);
        },
    }
    match check_required_headers(&head.headers) {
        Err(e) => {
            return Err(e);
        },
        Ok(_) => {},
    }
    if total > head.len {
        return Err(UpgradeError::InvalidValue);
    }
    check_header_in(&head.headers, KEY_HEADER, None)
}

/// The `Sec-WebSocket-Accept` value for the client's key `key`: the base64
/// text of the SHA-1 digest of the key followed by the protocol's GUID.
pub fn accept_key(key: &[u8]) -> (r: Vec<u8>)
    ensures
        r@ == accept_key_of(key@),
{
    let mut data: Vec<u8> = Vec::new();
    append_bytes(&mut data, key);
    append_bytes(&mut data, WS_MAGIC.as_bytes());
    let digest = sha1_digest(data.as_slice());
    base64_encode(digest.as_slice())
}

/// The `101 Switching Protocols` response carrying the accept key `accept`.
pub fn response_for(accept: &[u8]) -> (r: Vec<u8>)
    ensures
        r@ == response_of(accept@),
{
    let mut out: Vec<u8> = Vec::new();
    append_bytes(&mut out, RESPONSE_HEAD.as_bytes());
    append_bytes(&mut out, accept);
    append_bytes(&mut out, RESPONSE_TAIL.as_bytes());
    out
}

/// Accumulates the bytes of a handshake request and answers it once the
/// request head is complete.
pub struct UpgradeParser {
    buf: bytes::BytesMut,
}

impl View for UpgradeParser {
    type V = Seq<u8>;

    /// The bytes received so far.
    closed spec fn view(&self) -> Seq<u8> {
        bytes_mut_view(self.buf)
    }
}

/// A parser of handshake requests.
pub trait Upgrade: Sized {
    /// The bytes received so far.
    spec fn received(&self) -> Seq<u8>;

    /// A parser whose buffer starts with the bytes of `buf`.
    fn new(buf: bytes::BytesMut) -> (r: Self)
        ensures
            r.received() == bytes_mut_view(buf),
    ;

    /// Appends `chunk` and parses everything received so far, from its first
    /// byte: `Ok(None)` while the head is incomplete, the response once a
    /// valid request has arrived, the reason otherwise.
    fn accumulate(&mut self, chunk: &[u8]) -> (r: Result<Option<bytes::Bytes>, UpgradeError>)
        ensures
            final(self).received() == old(self).received() + chunk@,
            outcome_is(r, handshake_of(final(self).received())),
    ;

    /// The value of header `name` of `head`, which must be present and,
    /// where `expected` is given, equal to it but for case.
    fn check_header<'a>(head: &'a RequestHead, name: &str, expected: Option<&str>) -> (r: Result<
        &'a [u8],
        UpgradeError,
    >)
        ensures
            found_view(r) == header_check(
                headers_view(head.headers@),
                name.spec_bytes(),
                opt_str_bytes(expected),
            ),
    ;

    /// Validates the complete request head `head` against the bytes received
    /// so far and builds the response.
    fn into_response(&self, head: &RequestHead) -> (r: Result<bytes::Bytes, UpgradeError>)
        ensures
            match validation(
                opt_bytes(head.method),
                opt_bytes(head.path),
                head.version,
                headers_view(head.headers@),
                head.len as nat,
                self.received().len(),
            ) {
                Err(e) => r == Err::<bytes::Bytes, UpgradeError>(e),
                Ok(key) => r matches Ok(v) && bytes_view(v) == response_of(accept_key_of(key)),
            },
    ;
}

impl Upgrade for UpgradeParser {
    open spec fn received(&self) -> Seq<u8> {
        self@
    }

    fn new(buf: bytes::BytesMut) -> (r: UpgradeParser) {
        UpgradeParser { buf }
    }

    fn accumulate(&mut self, chunk: &[u8]) -> (r: Result<Option<bytes::Bytes>, UpgradeError>) {
        put_slice(&mut self.buf, chunk);
        match parse_head(bytes_mut_chunk(&self.buf), MAX_HEADERS) {
            Ok(HeadStatus::Complete(head)) => match self.into_response(&head) {
                Ok(v) => Ok(Some(v)),
                Err(e) => Err(e),
            },
            Ok(HeadStatus::Partial) => Ok(None),
            Err(e) => Err(UpgradeError::ParseError(e)),
        }
    }

    fn check_header<'a>(head: &'a RequestHead, name: &str, expected: Option<&str>) -> (r: Result<
        &'a [u8],
        UpgradeError,
    >) {
        check_header_in(&head.headers, name, expected)
    }

    fn into_response(&self, head: &RequestHead) -> (r: Result<bytes::Bytes, UpgradeError>) {
        match validate_request(head, bytes_mut_chunk(&self.buf).len()) {
            Err(e) => Err(e),
            Ok(key) => {
                let accept = accept_key(key);
                Ok(bytes_from_vec(response_for(accept.as_slice())))
            },
        }
    }
}

/// A valid handshake request for the accepted path.
pub fn fake_ws_request() -> (r: Vec<u8>)
    ensures
        r@ == SAMPLE_REQUEST.spec_bytes(),
{
    let mut out: Vec<u8> = Vec::new();
    append_bytes(&mut out, SAMPLE_REQUEST.as_bytes());
    out
}

/// The bytes that a parser holds after starting from `start` and being fed
/// `chunks` in order.
pub open spec fn fed(start: Seq<u8>, chunks: Seq<Seq<u8>>) -> Seq<u8>
    decreases chunks.len(),
{
    if chunks.len() == 0 {
        start
    } else {
        fed(start + chunks[0], chunks.drop_first())
    }
}

proof fn lemma_fed_appends(start: Seq<u8>, chunks: Seq<Seq<u8>>)
    ensures
        fed(start, chunks) == start + chunks.flatten(),
    decreases chunks.len(),
{
    if chunks.len() == 0 {
        assert(start + chunks.flatten() =~= start);
    } else {
        lemma_fed_appends(start + chunks[0], chunks.drop_first());
        assert(start + chunks[0] + chunks.drop_first().flatten() =~= start + (chunks[0]
            + chunks.drop_first().flatten()));
    }
}

/// However a request is cut into chunks, a parser that starts empty and is
/// fed them in order holds the whole request after the last one, so its
/// last answer is the one that the request delivered whole receives.
pub proof fn lemma_chunking_invisible(chunks: Seq<Seq<u8>>)
    ensures
        fed(Seq::empty(), chunks) == chunks.flatten(),
        handshake_of(fed(Seq::empty(), chunks)) == handshake_of(chunks.flatten()),
{
    lemma_fed_appends(Seq::empty(), chunks);
    assert(Seq::<u8>::empty() + chunks.flatten() =~= chunks.flatten());
}

proof fn lemma_required_failure(hs: Seq<(Seq<u8>, Seq<u8>)>, req: Seq<(&str, Option<&str>)>, k: int)
    requires
        0 <= k < req.len(),
        header_check(hs, req[k].0.spec_bytes(), opt_str_bytes(req[k].1)) is Err,
    ensures
        check_required(hs, req) is Err,
    decreases req.len(),
{
    if k > 0 {
        match header_check(hs, req[0].0.spec_bytes(), opt_str_bytes(req[0].1)) {
            Err(_) => {},
            Ok(_) => {
                assert(req.drop_first()[k - 1] == req[k]);
                lemma_required_failure(hs, req.drop_first(), k - 1);
            },
        }
    }
}

/// A request whose required header `k` is missing, or holds a value other
/// than the one required (a `Sec-WebSocket-Version` other than 13), is
/// rejected and never answered with a response; where method, path, version
/// and the headers before `k` pass, the error is the one of that header.
pub proof fn lemma_required_header_rejected(buf: Seq<u8>, k: int)
    requires
        0 <= k < required_headers().len(),
        parsed_head_of(buf, MAX_HEADERS) matches HeadView::Complete { headers, .. }
            && header_check(
            headers,
            required_headers()[k].0.spec_bytes(),
            opt_str_bytes(required_headers()[k].1),
        ) is Err,
    ensures
        handshake_of(buf) is Rejected,
        parsed_head_of(buf, MAX_HEADERS) matches HeadView::Complete {
            method,
            path,
            version,
            headers,
            ..
        } ==> (method == Some(METHOD.spec_bytes()) && path == Some(WS_PATH.spec_bytes())
            && version == Some(HTTP_MINOR_VERSION) && (forall|j: int|
            0 <= j < k ==> #[trigger] header_check(
                headers,
                required_headers()[j].0.spec_bytes(),
                opt_str_bytes(required_headers()[j].1),
            ) is Ok)) ==> handshake_of(buf) == Handshake::Rejected(
            header_check(
                headers,
                required_headers()[k].0.spec_bytes(),
                opt_str_bytes(required_headers()[k].1),
            )->Err_0,
        ),
{
    let req = required_headers();
    if let HeadView::Complete { method, path, version, headers, len } = parsed_head_of(
        buf,
        MAX_HEADERS,
    ) {
        lemma_required_failure(headers, req, k);
        if forall|j: int|
            0 <= j < k ==> #[trigger] header_check(
                headers,
                req[j].0.spec_bytes(),
                opt_str_bytes(req[j].1),
            ) is Ok {
            lemma_first_failure(headers, req, k);
        }
    }
}

proof fn lemma_first_failure(hs: Seq<(Seq<u8>, Seq<u8>)>, req: Seq<(&str, Option<&str>)>, k: int)
    requires
        0 <= k < req.len(),
        header_check(hs, req[k].0.spec_bytes(), opt_str_bytes(req[k].1)) is Err,
        forall|j: int|
            0 <= j < k ==> #[trigger] header_check(hs, req[j].0.spec_bytes(), opt_str_bytes(req[j].1))
                is Ok,
    ensures
        check_required(hs, req) == Err::<(), UpgradeError>(
            header_check(hs, req[k].0.spec_bytes(), opt_str_bytes(req[k].1))->Err_0,
        ),
    decreases req.len(),
{
    if k > 0 {
        let rest = req.drop_first();
        assert(header_check(hs, req[0].0.spec_bytes(), opt_str_bytes(req[0].1)) is Ok);
        assert(rest[k - 1] == req[k]);
        assert forall|j: int| 0 <= j < k - 1 implies #[trigger] header_check(
            hs,
            rest[j].0.spec_bytes(),
            opt_str_bytes(rest[j].1),
        ) is Ok by {
            assert(rest[j] == req[j + 1]);
        }
        lemma_first_failure(hs, rest, k - 1);
    }
}

/// A request followed by more bytes than its head is never answered with a
/// response; where method, path, version and headers all pass, it is
/// refused with `InvalidValue`.
pub proof fn lemma_trailing_bytes_rejected(buf: Seq<u8>)
    requires
        parsed_head_of(buf, MAX_HEADERS) matches HeadView::Complete { len, .. } && len < buf.len(),
    ensures
        handshake_of(buf) is Rejected,
        parsed_head_of(buf, MAX_HEADERS) matches HeadView::Complete {
            method,
            path,
            version,
            headers,
            ..
        } ==> (method == Some(METHOD.spec_bytes()) && path == Some(WS_PATH.spec_bytes())
            && version == Some(HTTP_MINOR_VERSION) && check_required(headers, required_headers())
            is Ok) ==> handshake_of(buf) == Handshake::Rejected(UpgradeError::InvalidValue),
{
}

} // verus!
