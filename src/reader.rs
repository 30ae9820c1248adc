//! Reassembly of one block from the chunks of a streamed object read.
use bytes::BytesMut;
use vstd::prelude::*;

use crate::checksums::{crc32c_of, ChecksummedBytes};
use crate::error::{DataCacheError, DataCacheResult};

verus! {

#[verifier::external_type_specification]
#[verifier::external_body]
pub struct ExBytesMut(BytesMut);

/// The bytes held by a `BytesMut`.
pub uninterp spec fn buffer_contents(b: BytesMut) -> Seq<u8>;

/// Relies on bytes::BytesMut::new: a buffer holding no bytes.
#[verifier::external_body]
fn buffer_new() -> (r: BytesMut)
    ensures
        buffer_contents(r) == Seq::<u8>::empty(),
{
    BytesMut::new()
}

/// Relies on bytes::BytesMut::len: the number of bytes held.
#[verifier::external_body]
fn buffer_len(b: &BytesMut) -> (r: usize)
    ensures
        r == buffer_contents(*b).len(),
{
    b.len()
}

/// Relies on bytes::BytesMut::extend_from_slice: appends `s`; it panics when
/// the new length overflows `usize`.
#[verifier::external_body]
fn buffer_extend(b: &mut BytesMut, s: &[u8])
    requires
        buffer_contents(*old(b)).len() + s@.len() <= usize::MAX,
    ensures
        buffer_contents(*final(b)) == buffer_contents(*old(b)) + s@,
{
    b.extend_from_slice(s)
}

/// Relies on `From<BytesMut> for Vec<u8>`: the same bytes, as a `Vec`.
#[verifier::external_body]
fn buffer_into_vec(b: BytesMut) -> (r: Vec<u8>)
    ensures
        r@ == buffer_contents(b),
{
    Vec::from(b)
}

/// What the object store reports while a block's object is being read.
#[derive(Clone, Debug, PartialEq, Eq)]
pub enum StoreEvent {
    /// The object does not exist.
    NotFound,
    /// The store failed otherwise; the message describes its error.
    Failure(String),
    /// Bytes starting at the given offset from the start of the object.
    Chunk(u64, Vec<u8>),
    /// The stream ended.
    Finished,
}

/// What the reader asks for after an event.
#[derive(Debug, PartialEq, Eq)]
pub enum ReadStep {
    /// Raise the store's read window by this many bytes and deliver the next event.
    Continue(u64),
    /// The read is over, with this outcome.
    Done(DataCacheResult<Option<ChecksummedBytes>>),
}

/// The bytes received so far after `body` arrives at `offset`, or `None` when
/// the chunk does not start where the received bytes end (or would end past
/// what a `usize` can count).
pub open spec fn accept_chunk(received: Seq<u8>, offset: u64, body: Seq<u8>) -> Option<Seq<u8>> {
    if offset as int == received.len() && received.len() + body.len() <= usize::MAX {
        Some(received + body)
    } else {
        None
    }
}

/// The bytes received after a run of chunks, or `None` when one of them is out of place.
pub open spec fn reassemble(received: Seq<u8>, chunks: Seq<(u64, Seq<u8>)>) -> Option<Seq<u8>>
    decreases chunks.len(),
{
    if chunks.len() == 0 {
        Some(received)
    } else {
        match accept_chunk(received, chunks[0].0, chunks[0].1) {
            Some(next) => reassemble(next, chunks.drop_first()),
            None => None,
        }
    }
}

/// The bodies of a run of chunks, one after the other.
pub open spec fn concat_bodies(chunks: Seq<(u64, Seq<u8>)>) -> Seq<u8>
    decreases chunks.len(),
{
    if chunks.len() == 0 {
        seq![]
    } else {
        chunks[0].1 + concat_bodies(chunks.drop_first())
    }
}

/// Each chunk starts where the previous one ended, the first at `start`, and
/// the last ends within what a `usize` can count.
pub open spec fn in_order(chunks: Seq<(u64, Seq<u8>)>, start: int) -> bool
    decreases chunks.len(),
{
    if chunks.len() == 0 {
        start <= usize::MAX
    } else {
        chunks[0].0 as int == start && in_order(chunks.drop_first(), start + chunks[0].1.len())
    }
}

/// Chunks delivered in order reassemble into their bodies, appended to what was
/// already received.
pub proof fn lemma_reassemble_in_order(received: Seq<u8>, chunks: Seq<(u64, Seq<u8>)>)
    requires
        in_order(chunks, received.len() as int),
    ensures
        reassemble(received, chunks) == Some(received + concat_bodies(chunks)),
        received.len() + concat_bodies(chunks).len() <= usize::MAX,
    decreases chunks.len(),
{
    if chunks.len() == 0 {
        assert(received + concat_bodies(chunks) =~= received);
    } else {
        let next = received + chunks[0].1;
        lemma_reassemble_in_order(next, chunks.drop_first());
        assert(next + concat_bodies(chunks.drop_first()) =~= received + concat_bodies(chunks));
    }
}

/// A chunk that does not start where the received bytes end fails the whole read.
pub proof fn lemma_misplaced_chunk_fails(received: Seq<u8>, chunks: Seq<(u64, Seq<u8>)>)
    requires
        chunks.len() > 0,
        chunks[0].0 as int != received.len(),
    ensures
        reassemble(received, chunks) is None,
{
}

/// State of one block read: the bytes received so far.
pub struct BlockRead {
    block_size: u64,
    buffer: BytesMut,
}

impl BlockRead {
    pub closed spec fn received(&self) -> Seq<u8> {
        buffer_contents(self.buffer)
    }

    pub closed spec fn window_step(&self) -> u64 {
        self.block_size
    }

    /// A read of a block of `block_size` bytes that has received nothing yet.
    pub fn new(block_size: u64) -> (r: BlockRead)
        ensures
            r.received() == Seq::<u8>::empty(),
            r.window_step() == block_size,
    {
        BlockRead { block_size, buffer: buffer_new() }
    }

    /// How far to raise the read window: once before any event, so that the read
    /// starts even with an initial window of zero, and again after each chunk.
    pub fn window_increment(&self) -> (r: u64)
        ensures
            r == self.window_step(),
    {
        self.block_size
    }

    /// Takes in one event of the stream and says what comes next.
    pub fn step(&mut self, event: StoreEvent) -> (r: ReadStep)
        ensures
            final(self).window_step() == old(self).window_step(),
            match event {
                StoreEvent::NotFound => r == ReadStep::Done(Ok(None)),
                StoreEvent::Failure(m) => r == ReadStep::Done(Err(DataCacheError::IoFailure(m))),
                StoreEvent::Chunk(offset, body) => match accept_chunk(
                    old(self).received(),
                    offset,
                    body@,
                ) {
                    Some(next) => r == ReadStep::Continue(old(self).window_step())
                        && final(self).received() == next,
                    None => r == ReadStep::Done(Err(DataCacheError::InvalidBlockOffset)),
                },
                StoreEvent::Finished => r matches ReadStep::Done(Ok(Some(b))) && b.data_view()
                    == old(self).received() && b.checksum_view() == crc32c_of(
                    old(self).received(),
                ),
            },
    {
        match event {
            StoreEvent::NotFound => ReadStep::Done(Ok(None)),
            StoreEvent::Failure(m) => ReadStep::Done(Err(DataCacheError::IoFailure(m))),
            StoreEvent::Chunk(offset, body) => {
                let received = buffer_len(&self.buffer);
                if offset != received as u64 || body.len() > usize::MAX - received {
                    ReadStep::Done(Err(DataCacheError::InvalidBlockOffset))
                } else {
                    buffer_extend(&mut self.buffer, body.as_slice());
                    ReadStep::Continue(self.block_size)
                }
            },
            StoreEvent::Finished => {
                let mut taken = buffer_new();
                std::mem::swap(&mut taken, &mut self.buffer);
                ReadStep::Done(Ok(Some(ChecksummedBytes::new(buffer_into_vec(taken)))))
            },
        }
    }
}

} // verus!
