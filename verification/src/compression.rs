//! The compression function: one 64-byte block mixed into the hash state.
use vstd::prelude::*;
use crate::constants::K;
use crate::primitives::{
    b_sigma_0, b_sigma_1, big_sigma0, big_sigma1, ch, choose_bits, l_sigma_0, l_sigma_1,
    maj, majority_bits, mod32, small_sigma0, small_sigma1,
};

verus! {

/// The `i`-th big-endian 32-bit word of `block`: four bytes, the most
/// significant first.
pub open spec fn block_word(block: Seq<u8>, i: int) -> u32 {
    (block[4 * i] * 0x100_0000 + block[4 * i + 1] * 0x1_0000 + block[4 * i + 2] * 0x100
        + block[4 * i + 3]) as u32
}

/// Word `t` of the message schedule of `block`, for `0 <= t < 64`: the first
/// sixteen are the block's own words, each later one mixes four earlier ones.
pub open spec fn schedule_word(block: Seq<u8>, t: int) -> u32
    decreases t,
{
    if t < 16 {
        block_word(block, t)
    } else {
        mod32(
            small_sigma1(schedule_word(block, t - 2)) + schedule_word(block, t - 7)
                + small_sigma0(schedule_word(block, t - 15)) + schedule_word(block, t - 16),
        )
    }
}

fn load_word(block: &[u8], i: usize) -> (w: u32)
    requires
        block@.len() == 64,
        i < 16,
    ensures
        w == block_word(block@, i as int),
{
    let b0: u8 = block[4 * i];
    let b1: u8 = block[4 * i + 1];
    let b2: u8 = block[4 * i + 2];
    let b3: u8 = block[4 * i + 3];
    let w: u32 = (b0 as u32) << 24 | (b1 as u32) << 16 | (b2 as u32) << 8 | (b3 as u32);
    assert(w == (b0 * 0x100_0000 + b1 * 0x1_0000 + b2 * 0x100 + b3) as u32) by (bit_vector)
        requires
            w == (b0 as u32) << 24 | (b1 as u32) << 16 | (b2 as u32) << 8 | (b3 as u32),
    ;
    w
}

/// Expands a block into the 64 words of its message schedule.
pub fn message_schedule(block: &[u8]) -> (sched: [u32; 64])
    requires
        block@.len() == 64,
    ensures
        forall|t: int| 0 <= t < 64 ==> sched@[t] == schedule_word(block@, t),
{
    let mut sched: [u32; 64] = [0; 64];
    for i in 0..16usize
        invariant
            block@.len() == 64,
            forall|t: int| 0 <= t < i ==> sched@[t] == schedule_word(block@, t),
    {
        sched[i] = load_word(block, i);
    }
    for t in 16..64usize
        invariant
            forall|j: int| 0 <= j < t ==> sched@[j] == schedule_word(block@, j),
    {
        sched[t] = l_sigma_1(sched[t - 2]).wrapping_add(sched[t - 7]).wrapping_add(
            l_sigma_0(sched[t - 15]),
        ).wrapping_add(sched[t - 16]);
    }
    sched
}

/// One round of mixing: the eight working variables `a` to `h`, held in that
/// order in `v`, after round constant `k` and schedule word `w` went in.
pub open spec fn round(v: Seq<u32>, k: u32, w: u32) -> Seq<u32> {
    let t1 = mod32(v[7] + big_sigma1(v[4]) + choose_bits(v[4], v[5], v[6]) + k + w);
    let t2 = mod32(big_sigma0(v[0]) + majority_bits(v[0], v[1], v[2]));
    seq![mod32(t1 + t2), v[0], v[1], v[2], mod32(v[3] + t1), v[4], v[5], v[6]]
}

/// The working variables after the first `t` rounds on `block`, starting from
/// `state`.
pub open spec fn working_vars(state: Seq<u32>, block: Seq<u8>, t: int) -> Seq<u32>
    decreases t,
{
    if t <= 0 {
        state
    } else {
        round(working_vars(state, block, t - 1), K[t - 1], schedule_word(block, t - 1))
    }
}

/// The hash state that follows `state` once `block` has been compressed into
/// it: 64 rounds, then each working variable added to the word it started
/// from.
#[verifier::opaque]
pub open spec fn compressed(state: Seq<u32>, block: Seq<u8>) -> Seq<u32> {
    let v = working_vars(state, block, 64);
    Seq::new(8, |i: int| mod32(state[i] + v[i]))
}

/// A wrapping addition is the sum reduced modulo 2^32.
proof fn lemma_wrapping_pair(x: u32, y: u32)
    ensures
        x.wrapping_add(y) == mod32(x + y),
{
}

/// Four wrapping additions in a row reduce the sum of the five words once.
proof fn lemma_wrapping_chain(h: u32, s: u32, c: u32, k: u32, w: u32)
    ensures
        h.wrapping_add(s).wrapping_add(c).wrapping_add(k).wrapping_add(w) == mod32(
            h + s + c + k + w,
        ),
{
}

/// One round is what the chain of wrapping additions in `compress` computes.
proof fn lemma_round_by_wrapping(
    a: u32,
    b: u32,
    c: u32,
    d: u32,
    e: u32,
    f: u32,
    g: u32,
    h: u32,
    k: u32,
    w: u32,
)
    ensures
        ({
            let t1 = h.wrapping_add(big_sigma1(e)).wrapping_add(choose_bits(e, f, g)).wrapping_add(
                k,
            ).wrapping_add(w);
            let t2 = big_sigma0(a).wrapping_add(majority_bits(a, b, c));
            seq![t1.wrapping_add(t2), a, b, c, d.wrapping_add(t1), e, f, g] == round(
                seq![a, b, c, d, e, f, g, h],
                k,
                w,
            )
        }),
{
    let t1 = h.wrapping_add(big_sigma1(e)).wrapping_add(choose_bits(e, f, g)).wrapping_add(
        k,
    ).wrapping_add(w);
    let t2 = big_sigma0(a).wrapping_add(majority_bits(a, b, c));
    lemma_wrapping_chain(h, big_sigma1(e), choose_bits(e, f, g), k, w);
    lemma_wrapping_pair(big_sigma0(a), majority_bits(a, b, c));
    lemma_wrapping_pair(t1, t2);
    lemma_wrapping_pair(d, t1);
}

/// Compresses one 64-byte block into an 8-word hash state and returns the new
/// state.
pub fn compress(state: &[u32; 8], block: &[u8]) -> (out: [u32; 8])
    requires
        block@.len() == 64,
    ensures
        out@ == compressed(state@, block@),
{
    let sched = message_schedule(block);
    let mut a: u32 = state[0];
    let mut b: u32 = state[1];
    let mut c: u32 = state[2];
    let mut d: u32 = state[3];
    let mut e: u32 = state[4];
    let mut f: u32 = state[5];
    let mut g: u32 = state[6];
    let mut h: u32 = state[7];
    assert(seq![a, b, c, d, e, f, g, h] =~= state@);

    for t in 0..64usize
        invariant
            forall|j: int| 0 <= j < 64 ==> sched@[j] == schedule_word(block@, j),
            seq![a, b, c, d, e, f, g, h] == working_vars(state@, block@, t as int),
    {
        proof {
            lemma_round_by_wrapping(a, b, c, d, e, f, g, h, K[t as int], sched@[t as int]);
        }
        let t1 = h.wrapping_add(b_sigma_1(e)).wrapping_add(ch(e, f, g)).wrapping_add(
            K[t],
        ).wrapping_add(sched[t]);
        let t2 = b_sigma_0(a).wrapping_add(maj(a, b, c));
        h = g;
        g = f;
        f = e;
        e = d.wrapping_add(t1);
        d = c;
        c = b;
        b = a;
        a = t1.wrapping_add(t2);
    }
    let out = [
        state[0].wrapping_add(a),
        state[1].wrapping_add(b),
        state[2].wrapping_add(c),
        state[3].wrapping_add(d),
        state[4].wrapping_add(e),
        state[5].wrapping_add(f),
        state[6].wrapping_add(g),
        state[7].wrapping_add(h),
    ];
    proof {
        let v = working_vars(state@, block@, 64);
        assert(v == seq![a, b, c, d, e, f, g, h]);
        assert forall|i: int| 0 <= i < 8 implies out@[i] == mod32(state@[i] + v[i]) by {
            lemma_wrapping_pair(state@[i], v[i]);
        }
        reveal(compressed);
        assert(out@ =~= compressed(state@, block@));
    }
    out
}

} // verus!
