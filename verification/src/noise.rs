use vstd::prelude::*;

verus! {

/// Modulus of 32-bit wrapping arithmetic.
pub open spec fn m32() -> int {
    0x1_0000_0000
}

/// Seed of the noise generator for a burst that starts at sample `start`:
/// 0x1234_5678 xor (`start` truncated to 32 bits, times 2_654_435_761, wrapping).
pub open spec fn noise_seed_spec(start: usize) -> u32 {
    0x1234_5678u32 ^ (((start as u32) as int * 2_654_435_761) % m32()) as u32
}

/// Seed of the noise generator for a burst that starts at sample `start`.
pub fn noise_seed(start: usize) -> (s: u32)
    ensures
        s == noise_seed_spec(start),
{
    0x1234_5678u32 ^ (start as u32).wrapping_mul(2_654_435_761)
}

/// The next state of the noise generator: the linear congruential step
/// seed * 1_664_525 + 1_013_904_223 modulo 2^32.
pub fn lcg_next(seed: u32) -> (s: u32)
    ensures
        s as int == (seed as int * 1_664_525 + 1_013_904_223) % m32(),
{
    let r = seed.wrapping_mul(1_664_525).wrapping_add(1_013_904_223);
    proof {
        let x = seed as int * 1_664_525;
        let y = 1_013_904_223int;
        vstd::arithmetic::div_mod::lemma_add_mod_noop(x, y, m32());
        vstd::arithmetic::div_mod::lemma_mod_bound(x, m32());
    }
    r
}

/// The 23 high bits of a generator state: a white-noise sample in
/// `0 .. 2^23`. The player divides it by `2^23` and subtracts one, which
/// maps it into [-1, 0).
pub fn noise_bits(seed: u32) -> (b: u32)
    ensures
        b as int == seed as int / 512,
        b < 0x80_0000,
{
    let b = seed >> 9;
    assert(seed >> 9 == seed / 512) by (bit_vector);
    b
}

} // verus!
