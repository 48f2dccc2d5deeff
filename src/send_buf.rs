//! The outbound buffer of a connection: a queue of byte chunks waiting to be
//! written, the front chunk first.

use bytes::Buf;
use vstd::prelude::*;

verus! {

#[verifier::external_type_specification]
#[verifier::external_body]
pub struct ExBytes(bytes::Bytes);

/// The bytes that a `Bytes` holds.
pub uninterp spec fn bytes_view(b: bytes::Bytes) -> Seq<u8>;

/// Relies on `From<Vec<u8>>` for `bytes::Bytes`: it takes over the vector's bytes.
#[verifier::external_body]
pub(crate) fn bytes_from_vec(v: Vec<u8>) -> (r: bytes::Bytes)
    ensures
        bytes_view(r) == v@,
{
    bytes::Bytes::from(v)
}

/// Relies on `Buf::remaining` for `bytes::Bytes`: the number of bytes it holds.
#[verifier::external_body]
fn bytes_len(b: &bytes::Bytes) -> (r: usize)
    ensures
        r == bytes_view(*b).len(),
{
    b.remaining()
}

/// Relies on `Buf::chunk` for `bytes::Bytes`: a slice of all its bytes.
#[verifier::external_body]
fn bytes_chunk(b: &bytes::Bytes) -> (r: &[u8])
    ensures
        r@ == bytes_view(*b),
{
    b.chunk()
}

/// Relies on `Buf::advance` for `bytes::Bytes`: it drops the first `n` bytes,
/// and panics where `n` exceeds the length.
#[verifier::external_body]
fn bytes_advance(b: &mut bytes::Bytes, n: usize)
    requires
        n <= bytes_view(*old(b)).len(),
    ensures
        bytes_view(*final(b)) == bytes_view(*old(b)).skip(n as int),
{
    b.advance(n)
}

/// A queue of chunks of bytes waiting to be sent, front chunk first.
pub struct SendBuf {
    bufs: std::collections::VecDeque<bytes::Bytes>,
}

impl View for SendBuf {
    type V = Seq<Seq<u8>>;

    /// The unsent bytes of each chunk, front first.
    closed spec fn view(&self) -> Seq<Seq<u8>> {
        self.bufs@.map_values(|b: bytes::Bytes| bytes_view(b))
    }
}

impl SendBuf {
    /// No chunk in the queue is empty.
    pub open spec fn wf(&self) -> bool {
        forall|i: int| 0 <= i < self@.len() ==> #[trigger] self@[i].len() > 0
    }

    pub fn new() -> (r: SendBuf)
        ensures
            r@ == Seq::<Seq<u8>>::empty(),
            r.wf(),
    {
        let r = SendBuf { bufs: std::collections::VecDeque::new() };
        assert(r@ =~= Seq::<Seq<u8>>::empty());
        r
    }

    /// The bytes to send next: the unsent bytes of the front chunk.
    pub fn get_front(&self) -> (r: Option<&[u8]>)
        ensures
            match r {
                Some(s) => self@.len() > 0 && s@ == self@[0],
                None => self@.len() == 0,
            },
    {
        if self.bufs.len() == 0 {
            None
        } else {
            Some(bytes_chunk(&self.bufs[0]))
        }
    }

    /// Records that the first `sent` bytes of the front chunk have been
    /// written; a chunk with nothing left is dropped, so that the chunk
    /// pushed after it comes to the front.
    pub fn advance_front(&mut self, sent: usize)
        requires
            old(self).wf(),
            old(self)@.len() > 0,
            sent <= old(self)@[0].len(),
        ensures
            final(self).wf(),
            sent == old(self)@[0].len() ==> final(self)@ == old(self)@.drop_first(),
            sent < old(self)@[0].len() ==> final(self)@ == old(self)@.update(
                0,
                old(self)@[0].skip(sent as int),
            ),
            final(self)@.flatten() == old(self)@.flatten().skip(sent as int),
    {
        let ghost old_view = self@;
        let mut front = self.bufs.pop_front().unwrap();
        assert(self@ =~= old_view.drop_first());
        bytes_advance(&mut front, sent);
        if bytes_len(&front) != 0 {
            self.bufs.push_front(front);
            assert(self@ =~= old_view.update(0, old_view[0].skip(sent as int)));
            assert(self@.drop_first() =~= old_view.drop_first());
        }
        assert(old_view.flatten() == old_view[0] + old_view.drop_first().flatten());
        assert(old_view.flatten().skip(sent as int) =~= old_view[0].skip(sent as int)
            + old_view.drop_first().flatten());
    }

    /// Puts `buf` before every other chunk, as a chunk that was only partly
    /// written goes back; an empty `buf` leaves the queue as it is.
    pub fn push_front(&mut self, buf: bytes::Bytes)
        requires
            old(self).wf(),
        ensures
            final(self).wf(),
            final(self)@ == if bytes_view(buf).len() == 0 {
                old(self)@
            } else {
                seq![bytes_view(buf)] + old(self)@
            },
            final(self)@.flatten() == bytes_view(buf) + old(self)@.flatten(),
    {
        let ghost v = bytes_view(buf);
        if bytes_len(&buf) != 0 {
            self.bufs.push_front(buf);
            assert(self@ =~= seq![v] + old(self)@);
            assert(self@.drop_first() =~= old(self)@);
        } else {
            assert(v + old(self)@.flatten() =~= old(self)@.flatten());
        }
    }

    /// Puts `buf` after every other chunk; an empty `buf` leaves the queue as
    /// it is.
    pub fn push_back(&mut self, buf: bytes::Bytes)
        requires
            old(self).wf(),
        ensures
            final(self).wf(),
            final(self)@ == if bytes_view(buf).len() == 0 {
                old(self)@
            } else {
                old(self)@.push(bytes_view(buf))
            },
            final(self)@.flatten() == old(self)@.flatten() + bytes_view(buf),
    {
        let ghost v = bytes_view(buf);
        if bytes_len(&buf) != 0 {
            self.bufs.push_back(buf);
            assert(self@ =~= old(self)@.push(v));
            proof {
                old(self)@.lemma_flatten_push(v);
            }
        } else {
            assert(old(self)@.flatten() + v =~= old(self)@.flatten());
        }
    }

    /// The number of chunks in the queue.
    pub fn len(&self) -> (r: usize)
        ensures
            r == self@.len(),
    {
        self.bufs.len()
    }
}

/// Pushes and advances may interleave in any order: advancing over `n` of
/// the queued bytes `queued` and then pushing `c` leaves the same bytes as
/// pushing `c` first and then advancing over `n`. So the bytes still queued
/// are always the bytes pushed, in order, less as many leading bytes as the
/// advances together consumed.
pub proof fn lemma_push_advance_commute(queued: Seq<u8>, n: int, c: Seq<u8>)
    requires
        0 <= n <= queued.len(),
    ensures
        queued.skip(n) + c == (queued + c).skip(n),
{
    assert(queued.skip(n) + c =~= (queued + c).skip(n));
}

} // verus!
