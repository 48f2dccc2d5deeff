//! Completion tokens: the operation kind, the shard, the generation of the
//! connection slot and an optional file descriptor, packed into one `u64`.

use vstd::prelude::*;

verus! {

/// The kind of operation that a completion belongs to.
#[derive(Debug, Clone, Copy, PartialEq, Eq, Structural)]
pub enum IoUringOp {
    Accept,
    Close,
    PollAdd,
    ProvideBuffers,
    Recv,
    RemoveBuffers,
    Send,
    Unknown,
}

/// The byte that stands for `op` in the low byte of a token.
pub open spec fn op_byte(op: IoUringOp) -> u8 {
    match op {
        IoUringOp::Accept => 13,
        IoUringOp::Close => 19,
        IoUringOp::PollAdd => 6,
        IoUringOp::ProvideBuffers => 31,
        IoUringOp::Recv => 27,
        IoUringOp::RemoveBuffers => 32,
        IoUringOp::Send => 26,
        IoUringOp::Unknown => 255,
    }
}

/// The operation whose byte is `v`, if any.
pub open spec fn op_of_byte(v: u8) -> Option<IoUringOp> {
    if v == 6 {
        Some(IoUringOp::PollAdd)
    } else if v == 13 {
        Some(IoUringOp::Accept)
    } else if v == 19 {
        Some(IoUringOp::Close)
    } else if v == 26 {
        Some(IoUringOp::Send)
    } else if v == 27 {
        Some(IoUringOp::Recv)
    } else if v == 31 {
        Some(IoUringOp::ProvideBuffers)
    } else if v == 32 {
        Some(IoUringOp::RemoveBuffers)
    } else if v == 255 {
        Some(IoUringOp::Unknown)
    } else {
        None
    }
}

impl IoUringOp {
    /// The byte that stands for this operation in a token.
    pub fn to_byte(self) -> (r: u8)
        ensures
            r == op_byte(self),
    {
        match self {
            IoUringOp::Accept => 13,
            IoUringOp::Close => 19,
            IoUringOp::PollAdd => 6,
            IoUringOp::ProvideBuffers => 31,
            IoUringOp::Recv => 27,
            IoUringOp::RemoveBuffers => 32,
            IoUringOp::Send => 26,
            IoUringOp::Unknown => 255,
        }
    }
}

impl TryFrom<u8> for IoUringOp {
    type Error = ();

    fn try_from(v: u8) -> (r: Result<IoUringOp, ()>) {
        match v {
            6 => Ok(IoUringOp::PollAdd),
            13 => Ok(IoUringOp::Accept),
            19 => Ok(IoUringOp::Close),
            26 => Ok(IoUringOp::Send),
            27 => Ok(IoUringOp::Recv),
            31 => Ok(IoUringOp::ProvideBuffers),
            32 => Ok(IoUringOp::RemoveBuffers),
            255 => Ok(IoUringOp::Unknown),
            _ => Err(()),
        }
    }
}

impl vstd::std_specs::convert::TryFromSpecImpl<u8> for IoUringOp {
    open spec fn obeys_try_from_spec() -> bool {
        true
    }

    open spec fn try_from_spec(v: u8) -> Result<IoUringOp, ()> {
        match op_of_byte(v) {
            Some(op) => Ok(op),
            None => Err(()),
        }
    }
}

/// The all-ones value that marks "no file descriptor" in a token.
pub const NO_FD: u32 = 0xFFFF_FFFF;

/// The 32 bits that a token holds for `fd`.
pub open spec fn fd_bits(fd: Option<u32>) -> u32 {
    match fd {
        Some(v) => v,
        None => NO_FD,
    }
}

/// The token for an operation: `op` in bits 0..8, `shard` in bits 8..16,
/// `generation` in bits 16..32 and the file descriptor in bits 32..64.
pub open spec fn token_of(fd: Option<u32>, generation: u16, shard: u8, op: IoUringOp) -> u64 {
    (op_byte(op) as u64) | ((shard as u64) << 8u64) | ((generation as u64) << 16u64) | ((
    fd_bits(fd) as u64) << 32u64)
}

/// The operation recorded in bits 0..8 of `t`; an unknown byte reads as `Unknown`.
pub open spec fn token_op(t: u64) -> IoUringOp {
    match op_of_byte((t & 0xFF) as u8) {
        Some(op) => op,
        None => IoUringOp::Unknown,
    }
}

/// The shard recorded in bits 8..16 of `t`.
pub open spec fn token_shard(t: u64) -> u8 {
    ((t >> 8u64) & 0xFF) as u8
}

/// The generation recorded in bits 16..32 of `t`.
pub open spec fn token_generation(t: u64) -> u16 {
    ((t >> 16u64) & 0xFFFF) as u16
}

/// The file descriptor recorded in bits 32..64 of `t`, absent where they are all ones.
pub open spec fn token_fd(t: u64) -> Option<u32> {
    let v = (t >> 32u64) as u32;
    if v == NO_FD {
        None
    } else {
        Some(v)
    }
}

/// Packing and unpacking of completion tokens.
pub trait UserDataExt: Sized {
    /// The token as a 64-bit value.
    spec fn token_value(&self) -> u64;

    fn pack(fd: Option<u32>, gen: u16, shard: u8, event: IoUringOp) -> (r: Self)
        ensures
            r.token_value() == token_of(fd, gen, shard, event),
    ;

    fn opcode(&self) -> (r: IoUringOp)
        ensures
            r == token_op(self.token_value()),
    ;

    fn shard(&self) -> (r: u8)
        ensures
            r == token_shard(self.token_value()),
    ;

    fn gen(&self) -> (r: u16)
        ensures
            r == token_generation(self.token_value()),
    ;

    fn fd(&self) -> (r: Option<u32>)
        ensures
            r == token_fd(self.token_value()),
    ;
}

impl UserDataExt for u64 {
    open spec fn token_value(&self) -> u64 {
        *self
    }

    fn pack(fd: Option<u32>, gen: u16, shard: u8, event: IoUringOp) -> (r: u64) {
        let fd_u32: u32 = match fd {
            Some(v) => v,
            None => NO_FD,
        };
        (event.to_byte() as u64) | ((shard as u64) << 8u64) | ((gen as u64) << 16u64) | ((
        fd_u32 as u64) << 32u64)
    }

    fn opcode(&self) -> (r: IoUringOp) {
        let raw = (*self & 0xFF) as u8;
        match IoUringOp::try_from(raw) {
            Ok(op) => op,
            Err(_) => IoUringOp::Unknown,
        }
    }

    fn shard(&self) -> (r: u8) {
        ((*self >> 8u64) & 0xFF) as u8
    }

    fn gen(&self) -> (r: u16) {
        ((*self >> 16u64) & 0xFFFF) as u16
    }

    fn fd(&self) -> (r: Option<u32>) {
        let fd = (*self >> 32u64) as u32;
        if fd == NO_FD {
            None
        } else {
            Some(fd)
        }
    }
}

/// Unpacking a packed token gives back every field it was packed from; a
/// descriptor equal to the all-ones marker is the one value that reads back
/// as absent.
pub proof fn lemma_token_round_trip(fd: Option<u32>, gen: u16, shard: u8, op: IoUringOp)
    requires
        fd != Some(NO_FD),
    ensures
        token_fd(token_of(fd, gen, shard, op)) == fd,
        token_generation(token_of(fd, gen, shard, op)) == gen,
        token_shard(token_of(fd, gen, shard, op)) == shard,
        token_op(token_of(fd, gen, shard, op)) == op,
{
    let o = op_byte(op);
    let f = fd_bits(fd);
    let t = token_of(fd, gen, shard, op);
    assert(t == (o as u64) | ((shard as u64) << 8u64) | ((gen as u64) << 16u64) | ((f as u64)
        << 32u64));
    assert((((o as u64) | ((shard as u64) << 8u64) | ((gen as u64) << 16u64) | ((f as u64)
        << 32u64)) & 0xFF) as u8 == o) by (bit_vector);
    assert((((((o as u64) | ((shard as u64) << 8u64) | ((gen as u64) << 16u64) | ((f as u64)
        << 32u64)) >> 8u64) & 0xFF) as u8) == shard) by (bit_vector);
    assert((((((o as u64) | ((shard as u64) << 8u64) | ((gen as u64) << 16u64) | ((f as u64)
        << 32u64)) >> 16u64) & 0xFFFF) as u16) == gen) by (bit_vector);
    assert(((((o as u64) | ((shard as u64) << 8u64) | ((gen as u64) << 16u64) | ((f as u64)
        << 32u64)) >> 32u64) as u32) == f) by (bit_vector);
    assert(op_of_byte(op_byte(op)) == Some(op));
    match fd {
        Some(v) => {},
        None => {},
    }
}

/// The generation field of a token is the generation it was packed with.
pub proof fn lemma_token_generation(fd: Option<u32>, gen: u16, shard: u8, op: IoUringOp)
    ensures
        token_generation(token_of(fd, gen, shard, op)) == gen,
{
    let o = op_byte(op);
    let f = fd_bits(fd);
    assert((((((o as u64) | ((shard as u64) << 8u64) | ((gen as u64) << 16u64) | ((f as u64)
        << 32u64)) >> 16u64) & 0xFFFF) as u16) == gen) by (bit_vector);
}

} // verus!
