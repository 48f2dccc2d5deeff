//! The lifecycle of one pooled connection slot: closed, upgrading (the
//! handshake parser owns the input), active (the frame decoder owns the
//! input), or failed; with a generation counter that tells the sockets that
//! used the slot apart, and the outbound buffer.

use crate::frame::{initial_decoder, step, DecoderView, Frame, FrameError, FrameTransducer, FrameView, Step};
use crate::io_uring::{token_generation, token_of, IoUringOp};
use crate::send_buf::SendBuf;
use crate::upgrade::{empty_bytes_mut, handshake_of, Handshake, Upgrade, UpgradeParser};
use vstd::prelude::*;

verus! {

/// What a connection is doing, with the parser or decoder that it owns.
pub enum ConnState {
    Closed,
    Upgrade(UpgradeParser),
    WebSocket(FrameTransducer),
    Error,
}

/// The phase of a connection, without what it owns.
#[derive(Debug, Clone, Copy, PartialEq, Eq, Structural)]
pub enum Phase {
    Closed,
    Upgrading,
    Active,
    Error,
}

/// The generation that follows `g`, wrapping at the width of the counter.
pub open spec fn next_generation(g: u16) -> u16 {
    if g == 0xFFFF {
        0
    } else {
        (g + 1) as u16
    }
}

/// The generation after `n` reuses of a slot whose generation was `g`.
pub open spec fn generation_after(g: u16, n: nat) -> u16
    decreases n,
{
    if n == 0 {
        g
    } else {
        next_generation(generation_after(g, (n - 1) as nat))
    }
}

/// Feeds `bs` to a decoder until it runs out or a byte is refused: the final
/// decoder, every frame completed on the way, and the refusal if any.
pub open spec fn decode_all(d: DecoderView, bs: Seq<u8>) -> (DecoderView, Seq<FrameView>, Option<FrameError>)
    decreases bs.len(),
{
    if bs.len() == 0 {
        (d, Seq::empty(), None)
    } else {
        let (d2, s) = step(d, bs[0]);
        match s {
            Step::Pending => decode_all(d2, bs.drop_first()),
            Step::Emit(f) => {
                let (d3, fs, e) = decode_all(d2, bs.drop_first());
                (d3, seq![f] + fs, e)
            },
            Step::Fail(e) => (d2, Seq::empty(), Some(e)),
        }
    }
}

pub open spec fn frames_view(fs: Seq<Frame>) -> Seq<FrameView> {
    fs.map_values(|f: Frame| f@)
}

/// One connection slot.
pub struct Connection {
    state: ConnState,
    gen: u16,
    leftover: SendBuf,
}

impl Connection {
    pub closed spec fn phase_of(&self) -> Phase {
        match self.state {
            ConnState::Closed => Phase::Closed,
            ConnState::Upgrade(_) => Phase::Upgrading,
            ConnState::WebSocket(_) => Phase::Active,
            ConnState::Error => Phase::Error,
        }
    }

    pub closed spec fn generation_of(&self) -> u16 {
        self.gen
    }

    /// The chunks waiting to be sent.
    pub closed spec fn outbound_of(&self) -> Seq<Seq<u8>> {
        self.leftover@
    }

    /// The handshake bytes received so far, while upgrading.
    pub closed spec fn handshake_bytes(&self) -> Seq<u8> {
        match self.state {
            ConnState::Upgrade(p) => p.received(),
            _ => Seq::empty(),
        }
    }

    /// The state of the frame decoder, while active.
    pub closed spec fn decoder_of(&self) -> DecoderView {
        match self.state {
            ConnState::WebSocket(d) => d@,
            _ => initial_decoder(),
        }
    }

    pub closed spec fn wf(&self) -> bool {
        &&& self.leftover.wf()
        &&& match self.state {
            ConnState::WebSocket(d) => d.wf(),
            _ => true,
        }
    }

    /// A closed slot of generation 0.
    pub fn new() -> (r: Connection)
        ensures
            r.wf(),
            r.phase_of() == Phase::Closed,
            r.generation_of() == 0,
            r.outbound_of() == Seq::<Seq<u8>>::empty(),
    {
        Connection { state: ConnState::Closed, gen: 0, leftover: SendBuf::new() }
    }

    /// Starts a new socket on a closed or failed slot: the handshake begins
    /// with an empty buffer, the generation moves on by one, and the outbound
    /// buffer is emptied.
    pub fn accept(&mut self)
        requires
            old(self).wf(),
            old(self).phase_of() == Phase::Closed || old(self).phase_of() == Phase::Error,
        ensures
            final(self).wf(),
            final(self).phase_of() == Phase::Upgrading,
            final(self).handshake_bytes() == Seq::<u8>::empty(),
            final(self).generation_of() == next_generation(old(self).generation_of()),
            final(self).outbound_of() == Seq::<Seq<u8>>::empty(),
    {
        self.state = ConnState::Upgrade(UpgradeParser::new(empty_bytes_mut()));
        self.gen = self.gen.wrapping_add(1);
        self.leftover = SendBuf::new();
    }

    /// Ends the current socket from any phase: parser or decoder state and
    /// unsent bytes are dropped.
    pub fn close(&mut self)
        requires
            old(self).wf(),
        ensures
            final(self).wf(),
            final(self).phase_of() == Phase::Closed,
            final(self).generation_of() == old(self).generation_of(),
            final(self).outbound_of() == Seq::<Seq<u8>>::empty(),
    {
        self.state = ConnState::Closed;
        self.leftover = SendBuf::new();
    }

    pub fn phase(&self) -> (r: Phase)
        ensures
            r == self.phase_of(),
    {
        match self.state {
            ConnState::Closed => Phase::Closed,
            ConnState::Upgrade(_) => Phase::Upgrading,
            ConnState::WebSocket(_) => Phase::Active,
            ConnState::Error => Phase::Error,
        }
    }

    pub fn generation(&self) -> (r: u16)
        ensures
            r == self.generation_of(),
    {
        self.gen
    }

    /// The chunks waiting to be sent.
    pub fn outbound(&self) -> (r: &SendBuf)
        requires
            self.wf(),
        ensures
            r@ == self.outbound_of(),
            r.wf(),
    {
        &self.leftover
    }

    /// Hands the bytes `chunk`, as received from the socket, to the parser
    /// or decoder of the current phase, and returns the frames completed.
    ///
    /// While upgrading, the handshake goes on; once it is accepted, the
    /// response is queued for sending and the connection becomes active; a
    /// refused handshake fails the connection. While active, every byte of
    /// `chunk` is decoded, until a refused byte fails the connection. A closed
    /// or failed connection ignores the bytes.
    pub fn receive(&mut self, chunk: &[u8]) -> (r: Vec<Frame>)
        requires
            old(self).wf(),
        ensures
            final(self).wf(),
            final(self).generation_of() == old(self).generation_of(),
            old(self).phase_of() == Phase::Closed || old(self).phase_of() == Phase::Error ==> {
                &&& final(self).phase_of() == old(self).phase_of()
                &&& final(self).outbound_of() == old(self).outbound_of()
                &&& r@.len() == 0
            },
            old(self).phase_of() == Phase::Upgrading ==> {
                &&& r@.len() == 0
                &&& match handshake_of(old(self).handshake_bytes() + chunk@) {
                    Handshake::Incomplete => {
                        &&& final(self).phase_of() == Phase::Upgrading
                        &&& final(self).handshake_bytes() == old(self).handshake_bytes() + chunk@
                        &&& final(self).outbound_of() == old(self).outbound_of()
                    },
                    Handshake::Accepted(resp) => {
                        &&& final(self).phase_of() == Phase::Active
                        &&& final(self).decoder_of() == initial_decoder()
                        &&& final(self).outbound_of() == if resp.len() == 0 {
                            old(self).outbound_of()
                        } else {
                            old(self).outbound_of().push(resp)
                        }
                    },
                    _ => {
                        &&& final(self).phase_of() == Phase::Error
                        &&& final(self).outbound_of() == old(self).outbound_of()
                    },
                }
            },
            old(self).phase_of() == Phase::Active ==> {
                let (d, fs, e) = decode_all(old(self).decoder_of(), chunk@);
                &&& frames_view(r@) == fs
                &&& final(self).outbound_of() == old(self).outbound_of()
                &&& match e {
                    None => final(self).phase_of() == Phase::Active && final(self).decoder_of() == d,
                    Some(_) => final(self).phase_of() == Phase::Error,
                }
            },
    {
        let mut frames: Vec<Frame> = Vec::new();
        let mut st = ConnState::Closed;
        std::mem::swap(&mut st, &mut self.state);
        match st {
            ConnState::Closed => {
                self.state = ConnState::Closed;
            },
            ConnState::Error => {
                self.state = ConnState::Error;
            },
            ConnState::Upgrade(mut parser) => {
                match parser.accumulate(chunk) {
                    Ok(None) => {
                        self.state = ConnState::Upgrade(parser);
                    },
                    Ok(Some(resp)) => {
                        self.leftover.push_back(resp);
                        self.state = ConnState::WebSocket(FrameTransducer::new());
                    },
                    Err(_) => {
                        self.state = ConnState::Error;
                    },
                }
            },
            ConnState::WebSocket(mut dec) => {
                let ghost d0 = dec@;
                let mut i: usize = 0;
                assert(chunk@.skip(0) =~= chunk@);
                while i < chunk.len()
                    invariant
                        dec.wf(),
                        i <= chunk@.len(),
                        self.gen == old(self).gen,
                        self.leftover == old(self).leftover,
                        old(self).phase_of() == Phase::Active,
                        self.leftover.wf(),
                        old(self).decoder_of() == d0,
                        ({
                            let (da, fa, ea) = decode_all(d0, chunk@);
                            let (di, fi, ei) = decode_all(dec@, chunk@.skip(i as int));
                            da == di && fa == frames_view(frames@) + fi && ea == ei
                        }),
                    decreases chunk@.len() - i,
                {
                    let ghost rest = chunk@.skip(i as int);
                    assert(rest[0] == chunk@[i as int]);
                    assert(rest.drop_first() =~= chunk@.skip(i + 1));
                    let ghost fs_before = frames_view(frames@);
                    match dec.parse_next_byte(chunk[i]) {
                        Ok(None) => {},
                        Ok(Some(f)) => {
                            frames.push(f);
                            assert(frames_view(frames@) =~= fs_before.push(f@));
                            let ghost (d3, fs3, e3) = decode_all(dec@, chunk@.skip(i + 1));
                            assert(fs_before + (seq![f@] + fs3) =~= fs_before.push(f@) + fs3);
                        },
                        Err(_) => {
                            assert(frames_view(frames@) + Seq::<FrameView>::empty()
                                =~= frames_view(frames@));
                            self.state = ConnState::Error;
                            return frames;
                        },
                    }
                    i = i + 1;
                }
                assert(chunk@.skip(i as int) =~= Seq::<u8>::empty());
                assert(frames_view(frames@) + Seq::<FrameView>::empty() =~= frames_view(frames@));
                self.state = ConnState::WebSocket(dec);
            },
        }
        frames
    }
}

/// After `n` reuses of a slot the generation is the first one plus `n`,
/// modulo the width of the counter.
pub proof fn lemma_generation_after(g: u16, n: nat)
    ensures
        generation_after(g, n) as int == (g as int + n) % 0x10000,
    decreases n,
{
    if n > 0 {
        lemma_generation_after(g, (n - 1) as nat);
        assert(generation_after(g, n) as int == (g as int + n) % 0x10000) by (nonlinear_arith)
            requires
                generation_after(g, (n - 1) as nat) as int == (g as int + (n - 1)) % 0x10000,
                generation_after(g, n) == next_generation(generation_after(g, (n - 1) as nat)),
                n > 0,
        ;
    }
}

/// A token issued for generation `g` of a slot is told apart from the slot
/// after any number of reuses from one up to the width of the counter less
/// one: its generation field differs from the slot's generation.
pub proof fn lemma_stale_token(fd: Option<u32>, g: u16, shard: u8, op: IoUringOp, n: nat)
    requires
        1 <= n < 0x10000,
    ensures
        token_generation(token_of(fd, g, shard, op)) == g,
        token_generation(token_of(fd, g, shard, op)) != generation_after(g, n),
{
    crate::io_uring::lemma_token_generation(fd, g, shard, op);
    lemma_generation_after(g, n);
}

} // verus!
