//! Incremental decoder of inbound (client-to-server) WebSocket frames.
//!
//! The decoder is a state machine driven one byte at a time, so that a frame
//! may arrive split at any byte boundary. Payload bytes are handed out as
//! received: unmasking them (payload byte `i` XOR `mask[i % 4]`) is left to
//! the consumer of a frame.

use vstd::prelude::*;

verus! {

/// The frame types of the WebSocket protocol.
#[derive(Debug, Clone, Copy, PartialEq, Eq, Structural)]
pub enum OpCode {
    Continuation,
    Text,
    Binary,
    Close,
    Ping,
    Pong,
}

/// The opcode that the 4-bit value `v` stands for, if any.
pub open spec fn opcode_of_nibble(v: u8) -> Option<OpCode> {
    if v == 0 {
        Some(OpCode::Continuation)
    } else if v == 1 {
        Some(OpCode::Text)
    } else if v == 2 {
        Some(OpCode::Binary)
    } else if v == 8 {
        Some(OpCode::Close)
    } else if v == 9 {
        Some(OpCode::Ping)
    } else if v == 10 {
        Some(OpCode::Pong)
    } else {
        None
    }
}

/// Relies on `TryFrom<u8>` for `fastwebsockets::OpCode`: it maps 0, 1, 2, 8,
/// 9 and 10 to the six opcodes and fails on every other byte.
#[verifier::external_body]
fn opcode_from_nibble(v: u8) -> (r: Option<OpCode>)
    ensures
        r == opcode_of_nibble(v),
{
    match fastwebsockets::OpCode::try_from(v) {
        Ok(fastwebsockets::OpCode::Continuation) => Some(OpCode::Continuation),
        Ok(fastwebsockets::OpCode::Text) => Some(OpCode::Text),
        Ok(fastwebsockets::OpCode::Binary) => Some(OpCode::Binary),
        Ok(fastwebsockets::OpCode::Close) => Some(OpCode::Close),
        Ok(fastwebsockets::OpCode::Ping) => Some(OpCode::Ping),
        Ok(fastwebsockets::OpCode::Pong) => Some(OpCode::Pong),
        Err(_) => None,
    }
}

/// Why an inbound frame was refused.
#[derive(Debug, Clone, Copy, PartialEq, Eq, Structural)]
pub enum FrameError {
    /// One of the three reserved bits of the first header byte is set.
    ReservedBitsNotZero,
    /// The opcode nibble names no frame type.
    InvalidOpcode,
    /// The MASK bit is clear: clients must mask every frame.
    UnmaskedFrame,
}

/// A decoded frame; `payload` is still masked.
#[derive(Debug, Clone, PartialEq, Eq)]
pub struct Frame {
    pub fin: bool,
    pub opcode: OpCode,
    /// Absent for a frame whose short length byte is zero: such a frame is
    /// emitted as soon as its length byte has been read.
    pub mask: Option<[u8; 4]>,
    pub payload: Vec<u8>,
}

/// The mathematical content of a frame.
pub struct FrameView {
    pub fin: bool,
    pub opcode: OpCode,
    pub mask: Option<Seq<u8>>,
    pub payload: Seq<u8>,
}

impl View for Frame {
    type V = FrameView;

    open spec fn view(&self) -> FrameView {
        FrameView {
            fin: self.fin,
            opcode: self.opcode,
            mask: match self.mask {
                Some(m) => Some(m@),
                None => None,
            },
            payload: self.payload@,
        }
    }
}

/// What the decoder waits for next. The counts are the bytes still expected
/// in that phase.
#[derive(Debug, Clone, Copy, PartialEq, Eq, Structural)]
pub enum State {
    FinRsvOp,
    MaskLen,
    LenExt16(usize),
    LenExt64(usize),
    Mask(usize),
    Payload(u64),
}

/// The mathematical state of a decoder.
pub struct DecoderView {
    pub fin: bool,
    pub opcode: OpCode,
    pub len: u64,
    pub mask: Seq<u8>,
    pub payload: Seq<u8>,
    pub state: State,
}

/// The outcome of feeding bytes to a decoder.
pub enum Step {
    /// More bytes are needed.
    Pending,
    /// A frame is complete.
    Emit(FrameView),
    /// The input breaks the protocol.
    Fail(FrameError),
}

/// A decoder waiting for the first byte of a frame, with every field zeroed.
pub open spec fn initial_decoder() -> DecoderView {
    DecoderView {
        fin: false,
        opcode: OpCode::Close,
        len: 0,
        mask: seq![0u8, 0u8, 0u8, 0u8],
        payload: Seq::empty(),
        state: State::FinRsvOp,
    }
}

/// The phase counts stay in range and the mask has four bytes.
pub open spec fn decoder_wf(d: DecoderView) -> bool {
    &&& d.mask.len() == 4
    &&& match d.state {
        State::LenExt16(k) => 1 <= k <= 2,
        State::LenExt64(k) => 1 <= k <= 8,
        State::Mask(k) => 1 <= k <= 4,
        State::Payload(k) => k >= 1,
        _ => true,
    }
}

/// The effect of one input byte on a decoder. A refused byte leaves the
/// decoder as it was; an emitted frame resets it.
pub open spec fn step(d: DecoderView, b: u8) -> (DecoderView, Step) {
    match d.state {
        State::FinRsvOp => {
            if b & 0x70u8 != 0 {
                (d, Step::Fail(FrameError::ReservedBitsNotZero))
            } else {
                match opcode_of_nibble(b & 0x0Fu8) {
                    None => (d, Step::Fail(FrameError::InvalidOpcode)),
                    Some(op) => (
                        DecoderView { fin: b & 0x80u8 != 0, opcode: op, state: State::MaskLen, ..d },
                        Step::Pending,
                    ),
                }
            }
        },
        State::MaskLen => {
            let n = b & 0x7Fu8;
            if b & 0x80u8 == 0 {
                (d, Step::Fail(FrameError::UnmaskedFrame))
            } else if n == 0 {
                (
                    initial_decoder(),
                    Step::Emit(
                        FrameView { fin: d.fin, opcode: d.opcode, mask: None, payload: Seq::empty() },
                    ),
                )
            } else if n <= 125 {
                (DecoderView { len: n as u64, state: State::Mask(4), ..d }, Step::Pending)
            } else if n == 126 {
                (DecoderView { state: State::LenExt16(2), ..d }, Step::Pending)
            } else {
                (DecoderView { state: State::LenExt64(8), ..d }, Step::Pending)
            }
        },
        State::LenExt16(k) => {
            let len = (d.len << 8u64) | (b as u64);
            let next = if k == 1 {
                State::Mask(4)
            } else {
                State::LenExt16((k - 1) as usize)
            };
            (DecoderView { len, state: next, ..d }, Step::Pending)
        },
        State::LenExt64(k) => {
            let len = (d.len << 8u64) | (b as u64);
            let next = if k == 1 {
                State::Mask(4)
            } else {
                State::LenExt64((k - 1) as usize)
            };
            (DecoderView { len, state: next, ..d }, Step::Pending)
        },
        State::Mask(k) => {
            let mask = d.mask.update(4 - k, b);
            if k != 1 {
                (DecoderView { mask, state: State::Mask((k - 1) as usize), ..d }, Step::Pending)
            } else if d.len == 0 {
                (
                    initial_decoder(),
                    Step::Emit(
                        FrameView {
                            fin: d.fin,
                            opcode: d.opcode,
                            mask: Some(mask),
                            payload: Seq::empty(),
                        },
                    ),
                )
            } else {
                (DecoderView { mask, state: State::Payload(d.len), ..d }, Step::Pending)
            }
        },
        State::Payload(k) => {
            let payload = d.payload.push(b);
            if k == 1 {
                (
                    initial_decoder(),
                    Step::Emit(
                        FrameView { fin: d.fin, opcode: d.opcode, mask: Some(d.mask), payload },
                    ),
                )
            } else {
                (DecoderView { payload, state: State::Payload((k - 1) as u64), ..d }, Step::Pending)
            }
        },
    }
}

/// Feeds `bs` to a decoder byte by byte and stops at the first emitted
/// frame or refusal; the bytes after that point are not read.
pub open spec fn run(d: DecoderView, bs: Seq<u8>) -> (DecoderView, Step)
    decreases bs.len(),
{
    if bs.len() == 0 {
        (d, Step::Pending)
    } else {
        let (d2, s) = step(d, bs[0]);
        match s {
            Step::Pending => run(d2, bs.drop_first()),
            _ => (d2, s),
        }
    }
}

/// The step that an executable outcome stands for.
pub open spec fn outcome_step(r: Result<Option<Frame>, FrameError>) -> Step {
    match r {
        Ok(None) => Step::Pending,
        Ok(Some(f)) => Step::Emit(f@),
        Err(e) => Step::Fail(e),
    }
}

/// Decoder of the inbound frames of one connection.
pub struct FrameTransducer {
    fin: bool,
    opcode: OpCode,
    len: u64,
    mask: [u8; 4],
    payload: Vec<u8>,
    state: State,
}

impl View for FrameTransducer {
    type V = DecoderView;

    closed spec fn view(&self) -> DecoderView {
        DecoderView {
            fin: self.fin,
            opcode: self.opcode,
            len: self.len,
            mask: self.mask@,
            payload: self.payload@,
            state: self.state,
        }
    }
}

impl FrameTransducer {
    pub open spec fn wf(&self) -> bool {
        decoder_wf(self@)
    }

    pub fn new() -> (r: FrameTransducer)
        ensures
            r@ == initial_decoder(),
            r.wf(),
    {
        let r = FrameTransducer {
            fin: false,
            opcode: OpCode::Close,
            len: 0,
            mask: [0u8; 4],
            payload: Vec::new(),
            state: State::FinRsvOp,
        };
        assert(r.mask@ =~= seq![0u8, 0u8, 0u8, 0u8]);
        r
    }

    /// Feeds `buf` to the decoder and returns the first frame that it
    /// completes. The bytes of `buf` after that frame are not read: a caller
    /// with more input calls again with the rest.
    pub fn consume_bytes(&mut self, buf: &[u8]) -> (r: Result<Option<Frame>, FrameError>)
        requires
            old(self).wf(),
        ensures
            final(self).wf(),
            (final(self)@, outcome_step(r)) == run(old(self)@, buf@),
    {
        let mut i: usize = 0;
        assert(buf@.skip(0) =~= buf@);
        while i < buf.len()
            invariant
                self.wf(),
                i <= buf@.len(),
                run(old(self)@, buf@) == run(self@, buf@.skip(i as int)),
            decreases buf@.len() - i,
        {
            let byte = buf[i];
            let ghost rest = buf@.skip(i as int);
            assert(rest[0] == byte);
            assert(rest.drop_first() =~= buf@.skip(i + 1));
            let res = self.parse_next_byte(byte);
            match res {
                Ok(Some(frame)) => {
                    return Ok(Some(frame));
                },
                Err(e) => {
                    return Err(e);
                },
                Ok(None) => {},
            }
            i = i + 1;
        }
        assert(buf@.skip(i as int).len() == 0);
        Ok(None)
    }

    /// Feeds one byte to the decoder.
    pub fn parse_next_byte(&mut self, byte: u8) -> (r: Result<Option<Frame>, FrameError>)
        requires
            old(self).wf(),
        ensures
            final(self).wf(),
            (final(self)@, outcome_step(r)) == step(old(self)@, byte),
    {
        match self.state {
            State::FinRsvOp => {
                if byte & 0x70u8 != 0 {
                    return Err(FrameError::ReservedBitsNotZero);
                }
                match opcode_from_nibble(byte & 0x0Fu8) {
                    None => {
                        return Err(FrameError::InvalidOpcode);
                    },
                    Some(op) => {
                        self.fin = byte & 0x80u8 != 0;
                        self.opcode = op;
                        self.state = State::MaskLen;
                    },
                }
            },
            State::MaskLen => {
                if byte & 0x80u8 == 0 {
                    return Err(FrameError::UnmaskedFrame);
                }
                let n = byte & 0x7Fu8;
                if n == 0 {
                    let frame = Frame {
                        fin: self.fin,
                        opcode: self.opcode,
                        mask: None,
                        payload: Vec::new(),
                    };
                    self.clean();
                    return Ok(Some(frame));
                } else if n <= 125 {
                    self.len = n as u64;
                    self.state = State::Mask(4);
                } else if n == 126 {
                    self.state = State::LenExt16(2);
                } else {
                    self.state = State::LenExt64(8);
                }
            },
            State::LenExt16(k) => {
                self.len = (self.len << 8u64) | (byte as u64);
                if k == 1 {
                    self.state = State::Mask(4);
                } else {
                    self.state = State::LenExt16(k - 1);
                }
            },
            State::LenExt64(k) => {
                self.len = (self.len << 8u64) | (byte as u64);
                if k == 1 {
                    self.state = State::Mask(4);
                } else {
                    self.state = State::LenExt64(k - 1);
                }
            },
            State::Mask(k) => {
                self.mask[4 - k] = byte;
                if k != 1 {
                    self.state = State::Mask(k - 1);
                } else if self.len == 0 {
                    let frame = Frame {
                        fin: self.fin,
                        opcode: self.opcode,
                        mask: Some(self.mask),
                        payload: Vec::new(),
                    };
                    self.clean();
                    return Ok(Some(frame));
                } else {
                    self.state = State::Payload(self.len);
                }
            },
            State::Payload(k) => {
                self.payload.push(byte);
                if k == 1 {
                    let mut payload: Vec<u8> = Vec::new();
                    std::mem::swap(&mut payload, &mut self.payload);
                    let frame = Frame {
                        fin: self.fin,
                        opcode: self.opcode,
                        mask: Some(self.mask),
                        payload,
                    };
                    self.clean();
                    return Ok(Some(frame));
                } else {
                    self.state = State::Payload(k - 1);
                }
            },
        }
        Ok(None)
    }

    /// Resets the decoder to wait for the first byte of a frame.
    fn clean(&mut self)
        ensures
            final(self)@ == initial_decoder(),
            final(self).wf(),
    {
        self.fin = false;
        self.opcode = OpCode::Close;
        self.len = 0;
        self.mask = [0u8; 4];
        self.payload = Vec::new();
        self.state = State::FinRsvOp;
        assert(self.mask@ =~= seq![0u8, 0u8, 0u8, 0u8]);
    }
}

/// Splitting the input does not change what is decoded: where the bytes `a`
/// complete no frame and break no rule, feeding `a` and then `b` ends in the
/// same state and outcome as feeding `a + b` at once.
pub proof fn lemma_split_input(d: DecoderView, a: Seq<u8>, b: Seq<u8>)
    requires
        run(d, a).1 is Pending,
    ensures
        run(d, a + b) == run(run(d, a).0, b),
    decreases a.len(),
{
    if a.len() == 0 {
        assert(a + b =~= b);
    } else {
        let (d2, s) = step(d, a[0]);
        assert((a + b)[0] == a[0]);
        assert((a + b).drop_first() =~= a.drop_first() + b);
        lemma_split_input(d2, a.drop_first(), b);
    }
}

/// A frame whose second byte has the MASK bit clear is refused, whatever
/// follows it: a decoder that has read a valid first header byte fails on
/// that second byte.
pub proof fn lemma_unmasked_refused(b0: u8, b1: u8, rest: Seq<u8>)
    requires
        b1 & 0x80u8 == 0,
    ensures
        run(initial_decoder(), seq![b0, b1] + rest).1 is Fail,
{
    let bs = seq![b0, b1] + rest;
    assert(bs[0] == b0);
    let (d1, s1) = step(initial_decoder(), b0);
    if s1 is Pending {
        let tail = bs.drop_first();
        assert(tail[0] == b1);
        assert(d1.state == State::MaskLen);
        assert(step(d1, b1).1 is Fail);
        assert(run(d1, tail).1 is Fail);
    }
}

} // verus!
