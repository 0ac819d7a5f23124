//! Splitting long inputs into chunks and grouping the chunks into batches.
//!
//! Each input is cut into chunks of at most a fixed number of samples. The chunks of
//! all inputs are queued in order, and whenever the queue holds a full batch, the batch
//! leaves. What is still queued when the inputs end leaves as a last batch.

use vstd::prelude::*;

verus! {

/// The number of chunks that go to the model together.
pub const BATCH_SIZE: usize = 10;

/// The greatest number of samples in a chunk.
pub const MAX_SEQUENCE_LENGTH: usize = 172800;

/// A run of consecutive samples of one input.
#[derive(Clone, Copy, Debug, PartialEq, Eq, Structural)]
pub struct Chunk {
    /// Which input the samples belong to.
    pub input: usize,
    /// The position of the first sample.
    pub start: usize,
    /// The number of samples.
    pub len: usize,
}

/// The number of chunks of at most `max_len` samples that `len` samples fill.
pub open spec fn chunk_count(len: nat, max_len: nat) -> nat {
    ((len + max_len - 1) / (max_len as int)) as nat
}

/// The chunks that an input of `len` samples is cut into: one after the other, each of
/// `max_len` samples, but for the last, which holds what is left.
pub open spec fn chunks_of(input: usize, len: nat, max_len: nat) -> Seq<Chunk> {
    Seq::new(
        chunk_count(len, max_len),
        |k: int|
            Chunk {
                input,
                start: (k * max_len) as usize,
                len: (if len - k * max_len < max_len {
                    len - k * max_len
                } else {
                    max_len as int
                }) as usize,
            },
    )
}

/// What is queued, and the batches that have left, after `chunks` joined a queue that
/// held `pending`. A batch leaves as soon as the queue holds `size` chunks.
pub open spec fn fed(pending: Seq<Chunk>, chunks: Seq<Chunk>, size: nat) -> (
    Seq<Chunk>,
    Seq<Seq<Chunk>>,
)
    decreases chunks.len(),
{
    if chunks.len() == 0 {
        (pending, Seq::empty())
    } else {
        let (held, batches) = fed(pending, chunks.drop_last(), size);
        let grown = held.push(chunks.last());
        if grown.len() == size {
            (Seq::empty(), batches.push(grown))
        } else {
            (grown, batches)
        }
    }
}

/// The chunks of each batch, batch after batch.
pub open spec fn batch_views(batches: Seq<Vec<Chunk>>) -> Seq<Seq<Chunk>> {
    batches.map_values(|batch: Vec<Chunk>| batch@)
}

/// Batching loses no chunk and keeps the chunks in order, and every batch that leaves
/// is full.
pub proof fn lemma_fed_keeps_order(pending: Seq<Chunk>, chunks: Seq<Chunk>, size: nat)
    ensures
        fed(pending, chunks, size).1.flatten() + fed(pending, chunks, size).0 == pending + chunks,
        forall|b: int|
            0 <= b < fed(pending, chunks, size).1.len() ==> (#[trigger] fed(
                pending,
                chunks,
                size,
            ).1[b]).len() == size,
    decreases chunks.len(),
{
    if chunks.len() == 0 {
        assert(Seq::<Seq<Chunk>>::empty().flatten() + pending =~= pending + chunks);
    } else {
        let before = chunks.drop_last();
        let (held, batches) = fed(pending, before, size);
        lemma_fed_keeps_order(pending, before, size);
        let grown = held.push(chunks.last());
        assert(pending + chunks =~= (pending + before).push(chunks.last()));
        if grown.len() == size {
            batches.lemma_flatten_push(grown);
            assert(batches.push(grown).flatten() + Seq::<Chunk>::empty() =~= (batches.flatten()
                + held).push(chunks.last()));
        } else {
            assert(batches.flatten() + grown =~= (batches.flatten() + held).push(chunks.last()));
        }
    }
}

/// Cuts an input of `len` samples into chunks of at most `max_len` samples.
pub fn split(input: usize, len: usize, max_len: usize) -> (r: Vec<Chunk>)
    requires
        max_len > 0,
    ensures
        r@ == chunks_of(input, len as nat, max_len as nat),
{
    let mut chunks: Vec<Chunk> = Vec::new();
    let mut start: usize = 0;
    let ghost mut k: int = 0;
    while start < len
        invariant
            max_len > 0,
            0 <= k,
            start <= len,
            start == if k * max_len < len {
                k * max_len
            } else {
                len as int
            },
            k > 0 ==> (k - 1) * max_len < len,
            chunks.len() == k,
            forall|j: int|
                0 <= j < k ==> chunks[j] == chunks_of(input, len as nat, max_len as nat)[j],
            k <= chunk_count(len as nat, max_len as nat),
        decreases len - start,
    {
        let left = len - start;
        let take = if left < max_len {
            left
        } else {
            max_len
        };
        proof {
            assert((k + 1) * max_len == k * max_len + max_len) by (nonlinear_arith);
            assert(k < chunk_count(len as nat, max_len as nat)) by {
                lemma_chunk_count(len as int, max_len as int, k + 1);
            }
        }
        chunks.push(Chunk { input, start, len: take });
        start = start + take;
        proof {
            k = k + 1;
        }
    }
    proof {
        if k == 0 {
            assert(len == 0);
            assert(chunk_count(len as nat, max_len as nat) == 0) by (nonlinear_arith)
                requires
                    len == 0,
                    max_len > 0,
            ;
        } else {
            lemma_chunk_count_exact(len as int, max_len as int, k);
        }
        assert(chunks@ =~= chunks_of(input, len as nat, max_len as nat));
    }
    chunks
}

/// An input that reaches beyond `k - 1` full chunks fills at least `k` chunks.
proof fn lemma_chunk_count(len: int, max_len: int, k: int)
    requires
        max_len > 0,
        0 <= len,
        k >= 1,
        (k - 1) * max_len < len,
    ensures
        k <= chunk_count(len as nat, max_len as nat),
{
    let x = len + max_len - 1;
    assert(k * max_len <= x) by (nonlinear_arith)
        requires
            (k - 1) * max_len < len,
            x == len + max_len - 1,
    ;
    assert(k <= x / max_len) by (nonlinear_arith)
        requires
            k * max_len <= x,
            max_len > 0,
    ;
}

/// An input that reaches beyond `k - 1` full chunks and not beyond `k` fills `k` chunks.
proof fn lemma_chunk_count_exact(len: int, max_len: int, k: int)
    requires
        max_len > 0,
        0 <= len,
        k >= 1,
        (k - 1) * max_len < len <= k * max_len,
    ensures
        k == chunk_count(len as nat, max_len as nat),
{
    let x = len + max_len - 1;
    lemma_chunk_count(len, max_len, k);
    assert((k + 1) * max_len == k * max_len + max_len) by (nonlinear_arith);
    assert(x / max_len < k + 1) by (nonlinear_arith)
        requires
            x < (k + 1) * max_len,
            max_len > 0,
    ;
}

/// The queue of chunks that wait for a batch to fill.
pub struct Batcher {
    batch_size: usize,
    max_len: usize,
    pending: Vec<Chunk>,
    started: bool,
}

impl Batcher {
    /// The chunks that are queued, oldest first.
    pub closed spec fn pending(&self) -> Seq<Chunk> {
        self.pending@
    }

    /// The number of chunks at which a batch leaves.
    pub closed spec fn batch_size(&self) -> nat {
        self.batch_size as nat
    }

    /// The greatest number of samples in a chunk.
    pub closed spec fn max_len(&self) -> nat {
        self.max_len as nat
    }

    /// Whether an input was added.
    pub closed spec fn started(&self) -> bool {
        self.started
    }

    /// An empty queue for batches of `batch_size` chunks of at most
    /// `max_sequence_length` samples.
    pub fn new(batch_size: usize, max_sequence_length: usize) -> (r: Batcher)
        requires
            max_sequence_length > 0,
        ensures
            r.pending() == Seq::<Chunk>::empty(),
            r.batch_size() == batch_size,
            r.max_len() == max_sequence_length,
            !r.started(),
    {
        Batcher { batch_size, max_len: max_sequence_length, pending: Vec::new(), started: false }
    }

    /// Queues the chunks of input number `input`, which has `len` samples, and returns
    /// the batches that leave, in order.
    pub fn add_input(&mut self, input: usize, len: usize) -> (r: Vec<Vec<Chunk>>)
        requires
            old(self).max_len() > 0,
        ensures
            (final(self).pending(), batch_views(r@)) == fed(
                old(self).pending(),
                chunks_of(input, len as nat, old(self).max_len()),
                old(self).batch_size(),
            ),
            final(self).batch_size() == old(self).batch_size(),
            final(self).max_len() == old(self).max_len(),
            final(self).started(),
    {
        let chunks = split(input, len, self.max_len);
        let mut batches: Vec<Vec<Chunk>> = Vec::new();
        let mut i: usize = 0;
        self.started = true;
        assert(chunks@.take(0) =~= Seq::<Chunk>::empty());
        assert(batch_views(batches@) =~= Seq::<Seq<Chunk>>::empty());
        while i < chunks.len()
            invariant
                i <= chunks.len(),
                self.max_len > 0,
                self.started,
                self.batch_size == old(self).batch_size,
                self.max_len == old(self).max_len,
                (self.pending@, batch_views(batches@)) == fed(
                    old(self).pending(),
                    chunks@.take(i as int),
                    self.batch_size as nat,
                ),
            decreases chunks.len() - i,
        {
            proof {
                assert(chunks@.take(i + 1).drop_last() =~= chunks@.take(i as int));
            }
            let ghost before = batch_views(batches@);
            self.pending.push(chunks[i]);
            if self.pending.len() == self.batch_size {
                let mut batch: Vec<Chunk> = Vec::new();
                core::mem::swap(&mut batch, &mut self.pending);
                batches.push(batch);
                assert(batch_views(batches@) =~= before.push(batch@));
            }
            i += 1;
        }
        assert(chunks@.take(i as int) =~= chunks@);
        batches
    }

    /// Ends the queue. Where an input was added, what is still queued leaves as the
    /// last batch, even if that is nothing.
    pub fn finish(self) -> (r: Option<Vec<Chunk>>)
        ensures
            r is Some <==> self.started(),
            r matches Some(batch) ==> batch@ == self.pending(),
    {
        if self.started {
            Some(self.pending)
        } else {
            None
        }
    }
}

} // verus!
