//! Word-level building blocks of SHA-256.
//!
//! The standard defines these operations directly on 32-bit words, by shifts
//! and bitwise logic, so each specification function below is that definition
//! and each executable function is proved to compute it.
use vstd::prelude::*;

verus! {

/// Rotation of a 32-bit word to the right by `n` places, for `n < 32`.
pub open spec fn rotr(x: u32, n: u32) -> u32 {
    if n == 0 {
        x
    } else {
        (x >> n) | (x << ((32 - n) as u32))
    }
}

/// `Ch`: each bit of `x` chooses between the bits of `y` and `z`.
pub open spec fn choose_bits(x: u32, y: u32, z: u32) -> u32 {
    (x & y) ^ (!x & z)
}

/// `Maj`: each result bit is the majority of the three input bits.
pub open spec fn majority_bits(x: u32, y: u32, z: u32) -> u32 {
    (x & y) ^ (x & z) ^ (y & z)
}

/// The upper-case sigma applied to working variable `a` in each round.
pub open spec fn big_sigma0(x: u32) -> u32 {
    rotr(x, 2) ^ rotr(x, 13) ^ rotr(x, 22)
}

/// The upper-case sigma applied to working variable `e` in each round.
pub open spec fn big_sigma1(x: u32) -> u32 {
    rotr(x, 6) ^ rotr(x, 11) ^ rotr(x, 25)
}

/// The lower-case sigma applied to the schedule word 15 places back.
pub open spec fn small_sigma0(x: u32) -> u32 {
    rotr(x, 7) ^ rotr(x, 18) ^ (x >> 3u32)
}

/// The lower-case sigma applied to the schedule word 2 places back.
pub open spec fn small_sigma1(x: u32) -> u32 {
    rotr(x, 17) ^ rotr(x, 19) ^ (x >> 10u32)
}

/// The residue of `n` modulo 2^32, as a word. Sums of words are taken as
/// integers and reduced once, which is what a chain of wrapping additions
/// computes.
pub open spec fn mod32(n: int) -> u32 {
    (n % 0x1_0000_0000) as u32
}

/// Rotates `val` right by `rot` bits.
pub fn rot_r(val: u32, rot: u32) -> (r: u32)
    requires
        rot < 32,
    ensures
        r == rotr(val, rot),
{
    if rot == 0 {
        val
    } else {
        (val >> rot) | (val << (32 - rot))
    }
}

pub fn ch(x: u32, y: u32, z: u32) -> (r: u32)
    ensures
        r == choose_bits(x, y, z),
{
    (x & y) ^ (!x & z)
}

pub fn maj(x: u32, y: u32, z: u32) -> (r: u32)
    ensures
        r == majority_bits(x, y, z),
{
    (x & y) ^ (x & z) ^ (y & z)
}

pub fn b_sigma_0(x: u32) -> (r: u32)
    ensures
        r == big_sigma0(x),
{
    rot_r(x, 2) ^ rot_r(x, 13) ^ rot_r(x, 22)
}

pub fn b_sigma_1(x: u32) -> (r: u32)
    ensures
        r == big_sigma1(x),
{
    rot_r(x, 6) ^ rot_r(x, 11) ^ rot_r(x, 25)
}

pub fn l_sigma_0(x: u32) -> (r: u32)
    ensures
        r == small_sigma0(x),
{
    rot_r(x, 7) ^ rot_r(x, 18) ^ (x >> 3)
}

pub fn l_sigma_1(x: u32) -> (r: u32)
    ensures
        r == small_sigma1(x),
{
    rot_r(x, 17) ^ rot_r(x, 19) ^ (x >> 10)
}

} // verus!
