//! The streaming digest of a table's serialized contents.
//!
//! The bytes are hashed in the order in which they arrive, chunk by chunk,
//! without holding more than one chunk. The digest depends on that order: a
//! source that does not deliver the rows of a table in a stable order may give
//! two digests for the same data. Where the order of the rows must not
//! matter, use the row digest instead.

use vstd::prelude::*;
use crate::encoding::{hex_string, lower_hex};
use crate::hashing::{
    blake3_output, hasher_finalize, hasher_input, hasher_key, hasher_new, hasher_offset,
    hasher_update,
};

verus! {

/// The size of the buffer that a scan reads into: one MiB.
pub const CHUNK_SIZE: usize = 1048576;

/// The digest, as 64 hexadecimal digits, of a stream of bytes.
pub open spec fn stream_digest(bytes: Seq<u8>) -> Seq<char> {
    lower_hex(blake3_output(None, bytes))
}

/// What has been taken in after `chunks` were fed one after the other to an
/// engine that held `start`.
pub open spec fn fed(start: Seq<u8>, chunks: Seq<Seq<u8>>) -> Seq<u8>
    decreases chunks.len(),
{
    if chunks.len() == 0 {
        start
    } else {
        fed(start, chunks.drop_last()) + chunks.last()
    }
}

/// Feeding chunk by chunk takes in the concatenation of the chunks.
pub proof fn lemma_fed_is_concatenation(start: Seq<u8>, chunks: Seq<Seq<u8>>)
    ensures
        fed(start, chunks) == start + chunks.flatten(),
    decreases chunks.len(),
{
    if chunks.len() == 0 {
        assert(start + chunks.flatten() =~= start);
    } else {
        lemma_fed_is_concatenation(start, chunks.drop_last());
        chunks.drop_last().lemma_flatten_push(chunks.last());
        assert(chunks.drop_last().push(chunks.last()) =~= chunks);
        assert(start + (chunks.drop_last().flatten() + chunks.last()) =~= (start
            + chunks.drop_last().flatten()) + chunks.last());
    }
}

/// Where the chunk boundaries fall does not matter: two ways of cutting the
/// same bytes into chunks give the same digest.
pub proof fn lemma_digest_ignores_chunking(a: Seq<Seq<u8>>, b: Seq<Seq<u8>>)
    requires
        a.flatten() == b.flatten(),
    ensures
        fed(Seq::empty(), a) == fed(Seq::empty(), b),
        stream_digest(fed(Seq::empty(), a)) == stream_digest(fed(Seq::empty(), b)),
{
    lemma_fed_is_concatenation(Seq::empty(), a);
    lemma_fed_is_concatenation(Seq::empty(), b);
}

/// The bytes delivered in one chunk give the digest of the same bytes
/// delivered in any number of chunks.
pub proof fn lemma_one_chunk_or_many(whole: Seq<u8>, chunks: Seq<Seq<u8>>)
    requires
        chunks.flatten() == whole,
    ensures
        stream_digest(fed(Seq::empty(), chunks)) == stream_digest(whole),
        stream_digest(fed(Seq::empty(), seq![whole])) == stream_digest(whole),
{
    lemma_fed_is_concatenation(Seq::empty(), chunks);
    assert(Seq::<u8>::empty() + whole =~= whole);
    let one = seq![whole];
    assert(one.drop_last() =~= Seq::<Seq<u8>>::empty());
    assert(one.last() == whole);
    assert(fed(Seq::empty(), one.drop_last()) == Seq::<u8>::empty());
    assert(fed(Seq::empty(), one) == fed(Seq::empty(), one.drop_last()) + one.last());
    assert(fed(Seq::empty(), one) =~= whole);
}

/// What one read from the byte source gave.
#[derive(Clone, Copy, Debug)]
pub enum ReadOutcome {
    /// The read failed.
    Failed,
    /// The read put this many bytes at the start of the buffer; zero at the
    /// end of the data.
    Read(usize),
}

/// The streaming digest engine for one table.
pub struct StreamDigest {
    hasher: blake3::Hasher,
    streamed: u64,
}

impl View for StreamDigest {
    type V = Seq<u8>;

    /// All bytes taken so far, in the order they came.
    closed spec fn view(&self) -> Seq<u8> {
        hasher_input(self.hasher)
    }
}

impl StreamDigest {
    /// The hasher is unkeyed and the byte count is the number of bytes taken.
    pub closed spec fn wf(&self) -> bool {
        &&& hasher_key(self.hasher) == None::<Seq<u8>>
        &&& hasher_offset(self.hasher) == 0
        &&& self.streamed as nat == hasher_input(self.hasher).len()
    }

    /// An engine that has taken no bytes.
    pub fn new() -> (engine: Self)
        ensures
            engine.wf(),
            engine@ == Seq::<u8>::empty(),
    {
        StreamDigest { hasher: hasher_new(), streamed: 0 }
    }

    /// Takes one chunk of the stream.
    pub fn update(&mut self, chunk: &[u8])
        requires
            old(self).wf(),
            old(self)@.len() + chunk@.len() <= u64::MAX,
        ensures
            final(self).wf(),
            final(self)@ == old(self)@ + chunk@,
    {
        hasher_update(&mut self.hasher, chunk);
        self.streamed = self.streamed + chunk.len() as u64;
    }

    /// Takes the result of one read into `buf` and says whether to read on.
    /// A failed read and a read of no bytes both end the scan and change
    /// nothing; any other read takes the bytes that it put into the buffer.
    pub fn on_read(&mut self, buf: &[u8], outcome: ReadOutcome) -> (more: bool)
        requires
            old(self).wf(),
            outcome matches ReadOutcome::Read(n) ==> n <= buf@.len() && old(self)@.len() + n
                <= u64::MAX,
        ensures
            final(self).wf(),
            final(self)@ == old(self)@ + read_bytes(buf@, outcome),
            more <==> read_bytes(buf@, outcome).len() > 0,
    {
        match outcome {
            ReadOutcome::Failed => {
                assert(self@ + read_bytes(buf@, outcome) =~= self@);
                false
            },
            ReadOutcome::Read(n) => {
                if n == 0 {
                    assert(self@ + read_bytes(buf@, outcome) =~= self@);
                    false
                } else {
                    self.update(&buf[0..n]);
                    true
                }
            },
        }
    }

    /// The number of bytes taken so far.
    pub fn bytes_streamed(&self) -> (n: u64)
        requires
            self.wf(),
        ensures
            n as nat == self@.len(),
    {
        self.streamed
    }

    /// The digest of the bytes taken so far, as 64 lowercase hexadecimal
    /// digits. The engine can take more bytes afterwards.
    pub fn finish(&self) -> (digest: String)
        requires
            self.wf(),
        ensures
            digest@ == stream_digest(self@),
    {
        let out = hasher_finalize(&self.hasher);
        hex_string(out.as_slice())
    }
}

/// The bytes that a read contributes to the stream: those that it put into
/// the buffer, or none where it failed.
pub open spec fn read_bytes(buf: Seq<u8>, outcome: ReadOutcome) -> Seq<u8> {
    match outcome {
        ReadOutcome::Failed => Seq::empty(),
        ReadOutcome::Read(n) => buf.subrange(0, n as int),
    }
}

/// The chunks held by a vector, in order.
pub open spec fn chunk_views(chunks: Seq<Vec<u8>>) -> Seq<Seq<u8>> {
    Seq::new(chunks.len(), |i: int| chunks[i]@)
}

/// The digest of a stream that is given as a sequence of chunks.
pub fn digest_chunks(chunks: &Vec<Vec<u8>>) -> (digest: String)
    ensures
        digest@ == stream_digest(chunk_views(chunks@).flatten()),
{
    let mut hasher = hasher_new();
    let mut i: usize = 0;
    assert(chunk_views(chunks@).take(0) =~= Seq::<Seq<u8>>::empty());
    while i < chunks.len()
        invariant
            i <= chunks.len(),
            hasher_key(hasher) == None::<Seq<u8>>,
            hasher_offset(hasher) == 0,
            hasher_input(hasher) == fed(Seq::empty(), chunk_views(chunks@).take(i as int)),
        decreases chunks.len() - i,
    {
        hasher_update(&mut hasher, chunks[i].as_slice());
        proof {
            let next = chunk_views(chunks@).take(i + 1);
            assert(next.drop_last() =~= chunk_views(chunks@).take(i as int));
            assert(next.last() == chunks[i as int]@);
        }
        i += 1;
    }
    proof {
        assert(chunk_views(chunks@).take(chunks.len() as int) =~= chunk_views(chunks@));
        lemma_fed_is_concatenation(Seq::empty(), chunk_views(chunks@));
        assert(Seq::<u8>::empty() + chunk_views(chunks@).flatten() =~= chunk_views(
            chunks@,
        ).flatten());
    }
    let out = hasher_finalize(&hasher);
    hex_string(out.as_slice())
}

} // verus!
