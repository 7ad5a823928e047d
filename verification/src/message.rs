//! What a whole message hashes to: the padding rule, the compression of the
//! padded message block by block, and the bytes of the final state.
//!
//! Two padding rules are defined here. [`padded`] is the rule of the engine in
//! this crate; [`standard_padded`] is the rule of the SHA-256 standard. They
//! agree on every message but those whose length is 55 modulo 64, where the
//! engine spends one block more than the standard (see [`zero_padding`]).
use vstd::prelude::*;
use crate::compression::compressed;
use crate::constants::INITIAL_HASH_STATE;

verus! {

/// `n` zero bytes.
pub open spec fn zeros(n: nat) -> Seq<u8> {
    Seq::new(n, |i: int| 0u8)
}

/// The eight bytes of a 64-bit number, the most significant first.
pub open spec fn be64(n: u64) -> Seq<u8> {
    seq![
        (n / 0x100_0000_0000_0000) as u8,
        (n / 0x1_0000_0000_0000 % 0x100) as u8,
        (n / 0x100_0000_0000 % 0x100) as u8,
        (n / 0x1_0000_0000 % 0x100) as u8,
        (n / 0x100_0000 % 0x100) as u8,
        (n / 0x1_0000 % 0x100) as u8,
        (n / 0x100 % 0x100) as u8,
        (n % 0x100) as u8,
    ]
}

/// The four bytes of a 32-bit word, the most significant first.
pub open spec fn be32(w: u32) -> Seq<u8> {
    seq![
        (w / 0x100_0000) as u8,
        (w / 0x1_0000 % 0x100) as u8,
        (w / 0x100 % 0x100) as u8,
        (w % 0x100) as u8,
    ]
}

/// Byte `i` of the big-endian form of `n` is `n` shifted right by the bits
/// that follow that byte, cut to eight bits.
pub proof fn lemma_be64_by_shifts(n: u64, i: int)
    requires
        0 <= i < 8,
    ensures
        be64(n)[i] == (n >> (((7 - i) * 8) as u64)) as u8,
{
    assert((n >> 56u64) as u8 == (n / 0x100_0000_0000_0000) as u8) by (bit_vector);
    assert((n >> 48u64) as u8 == (n / 0x1_0000_0000_0000 % 0x100) as u8) by (bit_vector);
    assert((n >> 40u64) as u8 == (n / 0x100_0000_0000 % 0x100) as u8) by (bit_vector);
    assert((n >> 32u64) as u8 == (n / 0x1_0000_0000 % 0x100) as u8) by (bit_vector);
    assert((n >> 24u64) as u8 == (n / 0x100_0000 % 0x100) as u8) by (bit_vector);
    assert((n >> 16u64) as u8 == (n / 0x1_0000 % 0x100) as u8) by (bit_vector);
    assert((n >> 8u64) as u8 == (n / 0x100 % 0x100) as u8) by (bit_vector);
    assert((n >> 0u64) as u8 == (n % 0x100) as u8) by (bit_vector);
}

/// The bytes of the big-endian form of `w`, by shifts.
pub proof fn lemma_be32_by_shifts(w: u32)
    ensures
        be32(w) == seq![(w >> 24u32) as u8, (w >> 16u32) as u8, (w >> 8u32) as u8, w as u8],
{
    assert((w >> 24u32) as u8 == (w / 0x100_0000) as u8) by (bit_vector);
    assert((w >> 16u32) as u8 == (w / 0x1_0000 % 0x100) as u8) by (bit_vector);
    assert((w >> 8u32) as u8 == (w / 0x100 % 0x100) as u8) by (bit_vector);
    assert(w as u8 == (w % 0x100) as u8) by (bit_vector);
    assert(be32(w) =~= seq![(w >> 24u32) as u8, (w >> 16u32) as u8, (w >> 8u32) as u8, w as u8]);
}

/// The bit count that goes into the padding of a message of `len` bytes.
///
/// The count is kept in 64 bits. For messages shorter than 2^61 bytes it is
/// the number of bits in the message. The standard defines no digest for
/// longer messages; here the count wraps around.
pub open spec fn bit_length(len: nat) -> u64 {
    ((8 * len) % 0x1_0000_0000_0000_0000) as u64
}

/// The number of zero bytes in the engine's padding of a message of `len`
/// bytes.
///
/// The marker byte follows the message. Where it lands before byte 56 of its
/// block, zeros run up to byte 56 and the count closes that block. Where it
/// lands on byte 56 or later, zeros run to the end of the block and through
/// the first 56 bytes of one more block. On byte 56 exactly, which is where
/// it lands for a message of 55 bytes modulo 64, the count would still fit
/// in the block: the standard puts it there, the engine does not.
pub open spec fn zero_padding(len: nat) -> nat {
    if len % 64 < 55 {
        (55 - len % 64) as nat
    } else {
        (119 - len % 64) as nat
    }
}

/// The number of zero bytes in the standard's padding of a message of `len`
/// bytes: the least number that, with the marker before and the eight bytes
/// of the count after, ends a block.
pub open spec fn standard_zero_padding(len: nat) -> nat {
    ((119 - len % 64) % 64) as nat
}

/// The message as the engine pads it: a `0x80` byte, zero bytes, and the bit
/// count in eight big-endian bytes. Its length is a multiple of 64.
pub open spec fn padded(msg: Seq<u8>) -> Seq<u8> {
    msg + seq![0x80u8] + zeros(zero_padding(msg.len())) + be64(bit_length(msg.len()))
}

/// The message as the standard pads it.
pub open spec fn standard_padded(msg: Seq<u8>) -> Seq<u8> {
    msg + seq![0x80u8] + zeros(standard_zero_padding(msg.len())) + be64(bit_length(msg.len()))
}

/// Block `i` of `data`, counting from 0: the 64 bytes from `64 * i` on.
pub open spec fn block_at(data: Seq<u8>, i: int) -> Seq<u8> {
    data.subrange(64 * i, 64 * i + 64)
}

/// The bytes of `msg` that follow its last full block: fewer than 64.
pub open spec fn tail(msg: Seq<u8>) -> Seq<u8> {
    msg.skip(msg.len() - msg.len() % 64)
}

/// The hash state after the first `n` blocks of `data` have been compressed,
/// one after the other, starting from the initial state.
pub open spec fn state_after(data: Seq<u8>, n: nat) -> Seq<u32>
    decreases n,
{
    if n == 0 {
        INITIAL_HASH_STATE@
    } else {
        compressed(state_after(data, (n - 1) as nat), block_at(data, n - 1))
    }
}

/// The 32 bytes of an 8-word hash state: each word in big-endian order, the
/// words in state order.
pub open spec fn state_bytes(state: Seq<u32>) -> Seq<u8> {
    Seq::new(32, |i: int| be32(state[i / 4])[i % 4])
}

/// The hash of data that is a whole number of blocks: the bytes of the state
/// after all of them.
pub open spec fn hash_of_blocks(data: Seq<u8>) -> Seq<u8> {
    state_bytes(state_after(data, data.len() / 64))
}

/// The digest that the engine gives for `msg`.
pub open spec fn digest_of(msg: Seq<u8>) -> Seq<u8> {
    hash_of_blocks(padded(msg))
}

/// The SHA-256 digest of `msg`, as the standard defines it.
pub open spec fn sha256(msg: Seq<u8>) -> Seq<u8> {
    hash_of_blocks(standard_padded(msg))
}

/// The standard's count of zero bytes ends a block, and no smaller count
/// does.
pub proof fn lemma_standard_zero_padding_is_least(len: nat, k: nat)
    ensures
        (len + 1 + standard_zero_padding(len) + 8) % 64 == 0,
        (len + 1 + k + 8) % 64 == 0 ==> standard_zero_padding(len) <= k,
{
}

/// The engine pads as the standard does, and so gives the standard's digest,
/// for every message whose length is not 55 modulo 64.
pub proof fn lemma_digest_is_standard(msg: Seq<u8>)
    requires
        msg.len() % 64 != 55,
    ensures
        padded(msg) == standard_padded(msg),
        digest_of(msg) == sha256(msg),
{
}

/// For a message whose length is 55 modulo 64 the engine's padding is the
/// standard's with 64 more zero bytes, one block longer.
pub proof fn lemma_padding_at_55(msg: Seq<u8>)
    requires
        msg.len() % 64 == 55,
    ensures
        standard_padded(msg) == msg + seq![0x80u8] + be64(bit_length(msg.len())),
        padded(msg) == msg + seq![0x80u8] + zeros(64) + be64(bit_length(msg.len())),
        padded(msg).len() == standard_padded(msg).len() + 64,
{
    assert(standard_padded(msg) =~= msg + seq![0x80u8] + be64(bit_length(msg.len())));
}

/// The padded message is a whole number of blocks: one more than the message
/// has full blocks where fewer than 55 bytes follow them, else two more.
pub proof fn lemma_padded_len(msg: Seq<u8>)
    ensures
        padded(msg).len() % 64 == 0,
        padded(msg).len() == 64 * (msg.len() / 64) + (if msg.len() % 64 < 55 {
            64int
        } else {
            128int
        }),
{
}

/// The state after `n` blocks depends on the first `64 * n` bytes only.
pub proof fn lemma_state_after_prefix(a: Seq<u8>, b: Seq<u8>, n: nat)
    requires
        64 * n <= a.len(),
        64 * n <= b.len(),
        forall|i: int| 0 <= i < 64 * n ==> a[i] == b[i],
    ensures
        state_after(a, n) == state_after(b, n),
    decreases n,
{
    if n > 0 {
        lemma_state_after_prefix(a, b, (n - 1) as nat);
        assert(block_at(a, n - 1) =~= block_at(b, n - 1));
    }
}

/// Where fewer than 55 bytes follow the last full block, the padded message
/// ends one block after the message's full blocks: the tail, the marker,
/// zeros up to byte 56, and the bit count.
pub proof fn lemma_one_closing_block(msg: Seq<u8>)
    requires
        msg.len() % 64 < 55,
    ensures
        state_after(padded(msg), padded(msg).len() / 64) == compressed(
            state_after(msg, msg.len() / 64),
            tail(msg) + seq![0x80u8] + zeros((55 - msg.len() % 64) as nat) + be64(
                bit_length(msg.len()),
            ),
        ),
{
    let p = padded(msg);
    let full = msg.len() / 64;
    lemma_padded_len(msg);
    lemma_state_after_prefix(msg, p, full);
    assert(block_at(p, full as int) =~= tail(msg) + seq![0x80u8] + zeros(
        (55 - msg.len() % 64) as nat,
    ) + be64(bit_length(msg.len())));
}

/// Where 55 bytes or more follow the last full block, the padded message ends
/// two blocks after the message's full blocks: the tail, the marker and zeros
/// fill the first, and the second is 56 zeros and the bit count.
pub proof fn lemma_two_closing_blocks(msg: Seq<u8>)
    requires
        msg.len() % 64 >= 55,
    ensures
        state_after(padded(msg), padded(msg).len() / 64) == compressed(
            compressed(
                state_after(msg, msg.len() / 64),
                tail(msg) + seq![0x80u8] + zeros((63 - msg.len() % 64) as nat),
            ),
            zeros(56) + be64(bit_length(msg.len())),
        ),
{
    let p = padded(msg);
    let full = msg.len() / 64;
    lemma_padded_len(msg);
    lemma_state_after_prefix(msg, p, full);
    assert(block_at(p, full as int) =~= tail(msg) + seq![0x80u8] + zeros(
        (63 - msg.len() % 64) as nat,
    ));
    assert(block_at(p, full as int + 1) =~= zeros(56) + be64(bit_length(msg.len())));
    assert(state_after(p, (full + 2) as nat) == compressed(
        state_after(p, (full + 1) as nat),
        block_at(p, full as int + 1),
    ));
}

} // verus!
