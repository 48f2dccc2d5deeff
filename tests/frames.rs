use wsengine::frame::{Frame, FrameError, FrameTransducer, OpCode};

const MASK: [u8; 4] = [0x37, 0xfa, 0x21, 0x3d];

fn masked_frame(first: u8, payload: &[u8]) -> Vec<u8> {
    let mut out = vec![first];
    let n = payload.len();
    if n <= 125 {
        out.push(0x80 | n as u8);
    } else if n <= 0xFFFF {
        out.push(0x80 | 126);
        out.extend_from_slice(&(n as u16).to_be_bytes());
    } else {
        out.push(0x80 | 127);
        out.extend_from_slice(&(n as u64).to_be_bytes());
    }
    out.extend_from_slice(&MASK);
    out.extend_from_slice(payload);
    out
}

fn decode_whole(buf: &[u8]) -> Frame {
    let mut d = FrameTransducer::new();
    d.consume_bytes(buf).unwrap().unwrap()
}

fn decode_split(buf: &[u8], at: usize) -> Frame {
    let mut d = FrameTransducer::new();
    match d.consume_bytes(&buf[..at]).unwrap() {
        Some(f) => f,
        None => d.consume_bytes(&buf[at..]).unwrap().unwrap(),
    }
}

#[test]
fn short_masked_text_frame() {
    let buf = masked_frame(0x81, b"Hello");
    let f = decode_whole(&buf);
    assert!(f.fin);
    assert_eq!(f.opcode, OpCode::Text);
    assert_eq!(f.mask, Some(MASK));
    assert_eq!(f.payload, b"Hello".to_vec());
    let unmasked: Vec<u8> = f.payload.iter().enumerate().map(|(i, b)| b ^ MASK[i % 4]).collect();
    assert_eq!(unmasked.len(), 5);
}

#[test]
fn zero_length_frame_is_emitted_after_length_byte() {
    let mut d = FrameTransducer::new();
    let f = d.consume_bytes(&[0x89, 0x80]).unwrap().unwrap();
    assert!(f.fin);
    assert_eq!(f.opcode, OpCode::Ping);
    assert_eq!(f.mask, None);
    assert!(f.payload.is_empty());
}

#[test]
fn extended_16_bit_length() {
    let payload: Vec<u8> = (0..300u32).map(|i| i as u8).collect();
    let buf = masked_frame(0x02, &payload);
    assert_eq!(buf[1], 0x80 | 126);
    let f = decode_whole(&buf);
    assert!(!f.fin);
    assert_eq!(f.opcode, OpCode::Binary);
    assert_eq!(f.payload, payload);
}

#[test]
fn extended_64_bit_length() {
    let payload: Vec<u8> = (0..70_000u32).map(|i| (i * 7) as u8).collect();
    let buf = masked_frame(0x82, &payload);
    assert_eq!(buf[1], 0x80 | 127);
    let f = decode_whole(&buf);
    assert_eq!(f.opcode, OpCode::Binary);
    assert_eq!(f.payload, payload);
}

#[test]
fn extended_length_of_zero_emits_empty_masked_frame() {
    let mut buf = vec![0x81, 0x80 | 126, 0, 0];
    buf.extend_from_slice(&MASK);
    let f = decode_whole(&buf);
    assert_eq!(f.mask, Some(MASK));
    assert!(f.payload.is_empty());
}

#[test]
fn every_split_gives_the_same_frame() {
    let small = masked_frame(0x81, b"abc");
    let mid: Vec<u8> = masked_frame(0x82, &vec![5u8; 200]);
    let big: Vec<u8> = masked_frame(0x82, &vec![9u8; 66_000]);
    for buf in [small, mid] {
        let whole = decode_whole(&buf);
        for at in 0..=buf.len() {
            assert_eq!(decode_split(&buf, at), whole);
        }
    }
    let whole = decode_whole(&big);
    for at in 0..16 {
        assert_eq!(decode_split(&big, at), whole);
    }
}

#[test]
fn single_byte_feeding() {
    let buf = masked_frame(0x81, b"chunked");
    let mut d = FrameTransducer::new();
    let mut got = None;
    for (i, b) in buf.iter().enumerate() {
        let r = d.consume_bytes(&[*b]).unwrap();
        if i + 1 < buf.len() {
            assert!(r.is_none());
        } else {
            got = r;
        }
    }
    assert_eq!(got.unwrap().payload, b"chunked".to_vec());
}

#[test]
fn first_frame_only_per_call() {
    let mut buf = masked_frame(0x81, b"one");
    buf.extend(masked_frame(0x81, b"two"));
    let mut d = FrameTransducer::new();
    let f = d.consume_bytes(&buf).unwrap().unwrap();
    assert_eq!(f.payload, b"one".to_vec());
    let f2 = d.consume_bytes(&buf[9..]).unwrap().unwrap();
    assert_eq!(f2.payload, b"two".to_vec());
}

#[test]
fn unmasked_frame_is_refused() {
    let mut d = FrameTransducer::new();
    assert_eq!(d.consume_bytes(&[0x81, 0x05, b'H', b'e', b'l', b'l', b'o']), Err(FrameError::UnmaskedFrame));
}

#[test]
fn reserved_bits_are_refused() {
    let mut d = FrameTransducer::new();
    assert_eq!(d.consume_bytes(&[0xC1, 0x80]), Err(FrameError::ReservedBitsNotZero));
}

#[test]
fn unknown_opcode_is_refused() {
    let mut d = FrameTransducer::new();
    assert_eq!(d.consume_bytes(&[0x83, 0x80]), Err(FrameError::InvalidOpcode));
    let mut d = FrameTransducer::new();
    assert_eq!(d.consume_bytes(&[0x8B]), Err(FrameError::InvalidOpcode));
}

#[test]
fn all_opcodes_decode() {
    let cases = [
        (0x0u8, OpCode::Continuation),
        (0x1, OpCode::Text),
        (0x2, OpCode::Binary),
        (0x8, OpCode::Close),
        (0x9, OpCode::Ping),
        (0xA, OpCode::Pong),
    ];
    for (nib, op) in cases {
        let f = decode_whole(&[0x80 | nib, 0x80]);
        assert_eq!(f.opcode, op);
    }
}

#[test]
fn decoder_resets_after_a_frame() {
    let mut d = FrameTransducer::new();
    let f1 = d.consume_bytes(&masked_frame(0x81, b"x")).unwrap().unwrap();
    let f2 = d.consume_bytes(&masked_frame(0x02, b"yz")).unwrap().unwrap();
    assert!(f1.fin);
    assert!(!f2.fin);
    assert_eq!(f2.payload, b"yz".to_vec());
}
