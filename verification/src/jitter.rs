use vstd::prelude::*;

verus! {

/// The 32-bit hash from which both renderers derive a pixel's sub-pixel
/// jitter: the low 16 bits of a multiplicative mix of the pixel's
/// coordinates and the sample number, all arithmetic modulo 2^32.
pub open spec fn jitter_hash(x: u32, y: u32, sample: u32) -> u32 {
    let n = ((x * 374761393int + y * 668265263int + sample * 1013904223int) % 0x1_0000_0000)
        as u32;
    let m = (((n ^ (n >> 13u32)) * 1274126177int) % 0x1_0000_0000) as u32;
    m & 0xFFFFu32
}

/// Two 32-bit wrapping additions give the sum modulo 2^32.
proof fn lemma_wrapping_sum(a: int, b: int, c: int)
    requires
        0 <= a,
        0 <= b,
        0 <= c,
    ensures
        ({
            let m = 0x1_0000_0000int;
            let ab = (a % m + b % m) % m;
            (ab + c % m) % m == (a + b + c) % m
        }),
{
    let m = 0x1_0000_0000int;
    vstd::arithmetic::div_mod::lemma_add_mod_noop(a, b, m);
    vstd::arithmetic::div_mod::lemma_add_mod_noop(a + b, c, m);
}

/// The integer part of the pixel jitter: `jitter_hash(x, y, sample)`, a value
/// in `0..=0xFFFF` that the renderers scale to `[0, 1]`.
pub fn rand_simple_bits(x: u32, y: u32, sample: u32) -> (bits: u32)
    ensures
        bits == jitter_hash(x, y, sample),
        bits <= 0xFFFF,
{
    let a = x.wrapping_mul(374761393);
    let b = y.wrapping_mul(668265263);
    let c = sample.wrapping_mul(1013904223);
    let n = a.wrapping_add(b).wrapping_add(c);
    proof {
        let m = 0x1_0000_0000int;
        let ab = a.wrapping_add(b);
        assert(ab == (a + b) % m);
        assert(n == (ab + c) % m);
        lemma_wrapping_sum(x * 374761393int, y * 668265263int, sample * 1013904223int);
    }
    let n = (n ^ (n >> 13)).wrapping_mul(1274126177);
    let bits = n & 0xFFFF;
    assert(bits <= 0xFFFF) by (bit_vector)
        requires
            bits == n & 0xFFFF,
    ;
    bits
}

} // verus!
