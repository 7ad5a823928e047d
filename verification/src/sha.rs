//! The digestion engine: bytes go in one at a time or in runs, and the digest
//! of everything that went in comes out once, at the end.
use vstd::prelude::*;
use crate::compression::{compress, compressed};
use crate::constants::{BLOCK_SIZE_BYTES, INITIAL_HASH_STATE};
use crate::message::{
    be64, bit_length, block_at, digest_of, lemma_be32_by_shifts, lemma_be64_by_shifts,
    lemma_digest_is_standard, lemma_one_closing_block, lemma_state_after_prefix,
    lemma_two_closing_blocks, sha256, state_after, state_bytes, tail, zeros,
};

verus! {

/// A SHA-256 computation in progress.
///
/// The engine stands for the message fed to it so far: that message is its
/// view. It keeps only what the rest of the computation needs: the hash state
/// after the full blocks of the message, the bytes after the last full block,
/// and the number of bits seen.
pub struct Sha256Digestion {
    // Current state of the hash
    hash_state: [u32; 8],
    // The bytes that do not fill a block yet
    reading_block: Vec<u8>,
    // Number of bits in the message
    bit_count: u64,
    // Everything that was fed in
    message: Ghost<Seq<u8>>,
}

impl View for Sha256Digestion {
    type V = Seq<u8>;

    /// The message fed in so far.
    closed spec fn view(&self) -> Seq<u8> {
        self.message@
    }
}

impl Sha256Digestion {
    /// The eight words of the running hash state.
    pub closed spec fn hash_state(&self) -> Seq<u32> {
        self.hash_state@
    }

    /// The bytes waiting for their block to fill.
    pub closed spec fn buffer(&self) -> Seq<u8> {
        self.reading_block@
    }

    /// The running count of bits fed in.
    pub closed spec fn bit_count(&self) -> u64 {
        self.bit_count
    }

    /// The engine holds what its message determines: the state after the
    /// message's full blocks, the at most 63 bytes that follow them, and the
    /// message's bit count.
    pub open spec fn wf(&self) -> bool {
        &&& self.hash_state() == state_after(self@, self@.len() / 64)
        &&& self.buffer() == tail(self@)
        &&& self.bit_count() == bit_length(self@.len())
    }

    /// An engine that has been fed nothing.
    pub fn new() -> (s: Sha256Digestion)
        ensures
            s.wf(),
            s@ == Seq::<u8>::empty(),
            s.hash_state() == INITIAL_HASH_STATE@,
            s.buffer() == Seq::<u8>::empty(),
            s.bit_count() == 0,
    {
        let s = Sha256Digestion {
            hash_state: INITIAL_HASH_STATE,
            reading_block: Vec::with_capacity(BLOCK_SIZE_BYTES),
            bit_count: 0,
            message: Ghost(Seq::empty()),
        };
        assert(s.buffer() =~= tail(s@));
        s
    }

    /// Compresses the full block in the buffer into the hash state. The
    /// buffer is left as it is: the caller empties it.
    fn update_hash_state(&mut self)
        requires
            old(self).reading_block@.len() == 64,
        ensures
            final(self).hash_state@ == compressed(
                old(self).hash_state@,
                old(self).reading_block@,
            ),
            final(self).reading_block == old(self).reading_block,
            final(self).bit_count == old(self).bit_count,
            final(self).message == old(self).message,
    {
        self.hash_state = compress(&self.hash_state, self.reading_block.as_slice());
    }

    /// Produce the final hash value
    pub fn digest(self) -> (hash_output: [u8; 32])
        requires
            self.wf(),
        ensures
            hash_output@ == digest_of(self@),
            self@.len() % 64 != 55 ==> hash_output@ == sha256(self@),
    {
        let mut engine = self;
        let ghost msg = self@;
        let ghost rest = msg.len() % 64;
        let ghost state = engine.hash_state@;
        let bit_count = engine.bit_count;
        assert(engine.reading_block@ == tail(msg));
        // We know this fits (or add_byte would have flushed)
        engine.reading_block.push(0x80);

        // Not enough space to add 64 bit length on the end
        if engine.reading_block.len() >= BLOCK_SIZE_BYTES - 8 {
            // Fill up with things
            while engine.reading_block.len() < BLOCK_SIZE_BYTES
                invariant
                    rest < engine.reading_block.len() <= 64,
                    engine.reading_block@ == tail(msg) + seq![0x80u8] + zeros(
                        (engine.reading_block.len() - rest - 1) as nat,
                    ),
                    engine.hash_state@ == state,
                    tail(msg).len() == rest,
                decreases 64 - engine.reading_block.len(),
            {
                engine.reading_block.push(0);
            }
            engine.update_hash_state();
            engine.reading_block.clear();
            assert(engine.reading_block@ =~= zeros(0));
        }
        let ghost mid = engine.hash_state@;
        let ghost head = if rest < 55 {
            tail(msg) + seq![0x80u8]
        } else {
            Seq::<u8>::empty()
        };
        assert(engine.reading_block@ =~= head + zeros(0));

        // Pad with zeros until we should add the length
        while engine.reading_block.len() < BLOCK_SIZE_BYTES - 8
            invariant
                head.len() <= engine.reading_block.len() <= 56,
                engine.reading_block@ == head + zeros(
                    (engine.reading_block.len() - head.len()) as nat,
                ),
                engine.hash_state@ == mid,
            decreases 56 - engine.reading_block.len(),
        {
            engine.reading_block.push(0);
        }
        let ghost body = engine.reading_block@;
        // Now push on the length
        for i in 0..8usize
            invariant
                engine.reading_block@ == body + be64(bit_count).take(i as int),
                engine.hash_state@ == mid,
        {
            proof {
                lemma_be64_by_shifts(bit_count, i as int);
            }
            engine.reading_block.push((bit_count >> ((7 - i) * 8)) as u8);
        }
        assert(engine.reading_block@ =~= body + be64(bit_count));
        engine.update_hash_state();
        engine.reading_block.clear();
        proof {
            if rest < 55 {
                lemma_one_closing_block(msg);
            } else {
                lemma_two_closing_blocks(msg);
            }
        }

        let mut hash_output: [u8; 32] = [0; 32];
        for i in 0..8usize
            invariant
                forall|j: int|
                    0 <= j < 4 * i ==> hash_output@[j] == state_bytes(engine.hash_state@)[j],
        {
            let h: u32 = engine.hash_state[i];
            proof {
                lemma_be32_by_shifts(h);
            }
            hash_output[(i * 4)] = (h >> 24) as u8;
            hash_output[(i * 4) + 1] = (h >> 16) as u8;
            hash_output[(i * 4) + 2] = (h >> 8) as u8;
            hash_output[(i * 4) + 3] = h as u8;
        }
        proof {
            assert(hash_output@ =~= state_bytes(engine.hash_state@));
            if msg.len() % 64 != 55 {
                lemma_digest_is_standard(msg);
            }
        }
        hash_output
    }

    /// Add a single byte to the digest
    ///
    /// The byte joins the buffer and the bit count grows by 8, wrapping at
    /// 2^64. A buffer that this fills is compressed into the hash state and
    /// emptied.
    pub fn add_byte(&mut self, byte: u8)
        requires
            old(self).wf(),
        ensures
            final(self).wf(),
            final(self)@ == old(self)@.push(byte),
            final(self).bit_count() == old(self).bit_count().wrapping_add(8),
            old(self).buffer().len() < 63 ==> final(self).hash_state() == old(self).hash_state()
                && final(self).buffer() == old(self).buffer().push(byte),
            old(self).buffer().len() >= 63 ==> final(self).hash_state() == compressed(
                old(self).hash_state(),
                old(self).buffer().push(byte),
            ) && final(self).buffer() == Seq::<u8>::empty(),
    {
        let ghost before = self.message@;
        let ghost full = before.len() / 64;
        self.reading_block.push(byte);
        self.bit_count = self.bit_count.wrapping_add(8);
        self.message = Ghost(before.push(byte));
        proof {
            assert(self.reading_block@ =~= self.message@.skip(64 * full as int));
            lemma_state_after_prefix(before, self.message@, full);
        }
        if self.reading_block.len() == BLOCK_SIZE_BYTES {
            // We have a full block: update hash state
            assert(self.reading_block@ =~= block_at(self.message@, full as int));
            self.update_hash_state();
            self.reading_block.clear();
            assert(self.reading_block@ =~= tail(self.message@));
        }
    }

    /// Adds a run of bytes to the digest, in order: the same as adding them
    /// one by one.
    pub fn add_bytes(&mut self, bytes: &[u8])
        requires
            old(self).wf(),
        ensures
            final(self).wf(),
            final(self)@ == old(self)@ + bytes@,
    {
        let n = bytes.len();
        for i in 0..n
            invariant
                n == bytes@.len(),
                self.wf(),
                self@ == old(self)@ + bytes@.take(i as int),
        {
            self.add_byte(bytes[i]);
            assert(bytes@.take(i + 1) =~= bytes@.take(i as int).push(bytes@[i as int]));
            assert(self@ =~= old(self)@ + bytes@.take(i + 1));
        }
        assert(bytes@.take(n as int) =~= bytes@);
    }

    /// An engine holds no more than its message determines: two engines that
    /// were fed the same message are in the same state, and so give the same
    /// digest.
    pub proof fn lemma_state_determined_by_message(&self, other: &Sha256Digestion)
        requires
            self.wf(),
            other.wf(),
            self@ == other@,
        ensures
            self.hash_state() == other.hash_state(),
            self.buffer() == other.buffer(),
            self.bit_count() == other.bit_count(),
            digest_of(self@) == digest_of(other@),
    {
    }

    /// The buffer of an engine never holds a full block.
    pub proof fn lemma_buffer_below_block(&self)
        requires
            self.wf(),
        ensures
            self.buffer().len() == self@.len() % 64,
            self.buffer().len() < 64,
    {
    }
}

/// The message that an engine holds after the runs of `chunks` were fed to it
/// in order, one call of `add_bytes` for each, where it held `start` before.
/// A call of `add_byte` is a run of one byte.
pub open spec fn fed(start: Seq<u8>, chunks: Seq<Seq<u8>>) -> Seq<u8>
    decreases chunks.len(),
{
    if chunks.len() == 0 {
        start
    } else {
        fed(start, chunks.drop_last()) + chunks.last()
    }
}

/// The split of `bytes` into runs of one byte each.
pub open spec fn bytewise(bytes: Seq<u8>) -> Seq<Seq<u8>> {
    Seq::new(bytes.len(), |i: int| seq![bytes[i]])
}

/// Feeding runs one after the other is feeding their concatenation.
pub proof fn lemma_fed_is_concatenation(start: Seq<u8>, chunks: Seq<Seq<u8>>)
    ensures
        fed(start, chunks) == start + chunks.flatten(),
    decreases chunks.len(),
{
    if chunks.len() == 0 {
        assert(start + chunks.flatten() =~= start);
    } else {
        lemma_fed_is_concatenation(start, chunks.drop_last());
        chunks.drop_last().lemma_flatten_push(chunks.last());
        assert(chunks.drop_last().push(chunks.last()) =~= chunks);
        assert(start + chunks.drop_last().flatten() + chunks.last() =~= start + (
            chunks.drop_last().flatten() + chunks.last()
        ));
    }
}

/// The runs of one byte each put together are the bytes.
pub proof fn lemma_bytewise_flatten(bytes: Seq<u8>)
    ensures
        bytewise(bytes).flatten() == bytes,
    decreases bytes.len(),
{
    if bytes.len() == 0 {
        assert(bytewise(bytes) =~= Seq::<Seq<u8>>::empty());
        assert(bytewise(bytes).flatten() =~= bytes);
    } else {
        let init = bytes.drop_last();
        lemma_bytewise_flatten(init);
        assert(bytewise(bytes) =~= bytewise(init).push(seq![bytes.last()]));
        bytewise(init).lemma_flatten_push(seq![bytes.last()]);
        assert(init + seq![bytes.last()] =~= bytes);
    }
}

/// Chunking invariance: however a message is split into runs, an engine that
/// was fed the runs in order holds the message, and its digest is the digest
/// of the message. Two splits of one message give one digest; so does the
/// split into single bytes and the message fed whole.
pub proof fn lemma_chunking_invariance(first: Seq<Seq<u8>>, second: Seq<Seq<u8>>)
    requires
        first.flatten() == second.flatten(),
    ensures
        fed(Seq::empty(), first) == first.flatten(),
        fed(Seq::empty(), first) == fed(Seq::empty(), second),
        digest_of(fed(Seq::empty(), first)) == digest_of(fed(Seq::empty(), second)),
        fed(Seq::empty(), bytewise(first.flatten())) == fed(Seq::empty(), first),
        fed(Seq::empty(), seq![first.flatten()]) == fed(Seq::empty(), first),
{
    let whole = first.flatten();
    lemma_fed_is_concatenation(Seq::empty(), first);
    lemma_fed_is_concatenation(Seq::empty(), second);
    lemma_fed_is_concatenation(Seq::empty(), bytewise(whole));
    lemma_fed_is_concatenation(Seq::empty(), seq![whole]);
    lemma_bytewise_flatten(whole);
    seq![whole].lemma_flatten_singleton();
    assert(Seq::<u8>::empty() + whole =~= whole);
}

} // verus!
