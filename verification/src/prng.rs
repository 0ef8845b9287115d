//! Deterministic pseudo-random numbers from an integer avalanche hash.

use vstd::prelude::*;

verus! {

/// The 32-bit integer mix: xor-shift, add-shift, xor-shift, multiply,
/// xor-shift, every step taken modulo 2^32.
pub open spec fn mix(x: u32) -> u32 {
    let a = (x ^ 61) ^ (x >> 16);
    let b = a.wrapping_add(a << 3);
    let c = b ^ (b >> 4);
    let d = c.wrapping_mul(0x27d4_eb2d);
    d ^ (d >> 15)
}

/// Replaces `*inp` by its mix.
pub fn hash(inp: &mut u32)
    ensures
        *final(inp) == mix(*old(inp)),
{
    let x: u32 = *inp;
    let a: u32 = (x ^ 61) ^ (x >> 16);
    let b: u32 = a.wrapping_add(a << 3);
    let c: u32 = b ^ (b >> 4);
    let d: u32 = c.wrapping_mul(0x27d4_eb2d);
    *inp = d ^ (d >> 15);
}

/// Advances `seed` by one mix and returns the new seed masked by `max`. The
/// seed is advanced before it is read, so the next call reads another seed.
/// Because `max` is a mask, the numbers cover all of `0..=max` only where
/// `max` is one less than a power of two; this generator is for placing
/// pellets, not for anything that needs good randomness.
pub fn rand(max: u32, seed: &mut u32) -> (r: u32)
    ensures
        *final(seed) == mix(*old(seed)),
        r == *final(seed) & max,
        r <= max,
{
    hash(seed);
    let s: u32 = *seed;
    assert(s & max <= max) by (bit_vector);
    s & max
}

/// Each of the five steps of the mix can be undone, so none of them maps
/// two numbers to one.
proof fn lemma_shift_sixteen_is_injective(x: u32, y: u32)
    by (bit_vector)
    requires
        (x ^ 61) ^ (x >> 16) == (y ^ 61) ^ (y >> 16),
    ensures
        x == y,
{
}

proof fn lemma_times_nine_is_injective(x: u32, y: u32)
    by (bit_vector)
    requires
        x.wrapping_add(x << 3) == y.wrapping_add(y << 3),
    ensures
        x == y,
{
}

proof fn lemma_shift_four_is_injective(x: u32, y: u32)
    by (bit_vector)
    requires
        x ^ (x >> 4) == y ^ (y >> 4),
    ensures
        x == y,
{
}

proof fn lemma_multiply_is_injective(x: u32, y: u32)
    by (bit_vector)
    requires
        x.wrapping_mul(0x27d4_eb2d) == y.wrapping_mul(0x27d4_eb2d),
    ensures
        x == y,
{
}

proof fn lemma_shift_fifteen_is_injective(x: u32, y: u32)
    by (bit_vector)
    requires
        x ^ (x >> 15) == y ^ (y >> 15),
    ensures
        x == y,
{
}

/// The mix loses nothing: two seeds that differ still differ after they were
/// advanced, so two sequences of random numbers never run into one.
pub proof fn mix_is_injective(x: u32, y: u32)
    requires
        mix(x) == mix(y),
    ensures
        x == y,
{
    let xa = (x ^ 61) ^ (x >> 16);
    let ya = (y ^ 61) ^ (y >> 16);
    let xb = xa.wrapping_add(xa << 3);
    let yb = ya.wrapping_add(ya << 3);
    let xc = xb ^ (xb >> 4);
    let yc = yb ^ (yb >> 4);
    let xd = xc.wrapping_mul(0x27d4_eb2d);
    let yd = yc.wrapping_mul(0x27d4_eb2d);
    lemma_shift_fifteen_is_injective(xd, yd);
    lemma_multiply_is_injective(xc, yc);
    lemma_shift_four_is_injective(xb, yb);
    lemma_times_nine_is_injective(xa, ya);
    lemma_shift_sixteen_is_injective(x, y);
}

/// A keypress byte spread over four shifted copies, two of them inverted.
pub open spec fn spread(byte: u8) -> u32 {
    let b = byte as u32;
    b | ((!b) << 1) | (b << 2) | ((!b) << 3)
}

/// The seed after a keypress byte was mixed into it.
pub open spec fn folded(seed: u32, byte: u8) -> u32 {
    mix(seed ^ mix(spread(byte)))
}

/// Mixes a keypress byte into `seed`, so that what the player types moves
/// the pellets that are placed later.
pub fn fold_entropy(seed: u32, byte: u8) -> (r: u32)
    ensures
        r == folded(seed, byte),
{
    let b: u32 = byte as u32;
    let mut entropy: u32 = b | ((!b) << 1) | (b << 2) | ((!b) << 3);
    hash(&mut entropy);
    let mut stirred: u32 = seed ^ entropy;
    hash(&mut stirred);
    stirred
}

} // verus!
