//! A small linear-congruential random source.
//!
//! Each draw advances the state three times and assembles a 31-bit number from
//! bits 16 and above of each new state.
use vstd::prelude::*;

verus! {

/// The multiplier of the generator.
pub const MULTIPLIER: u64 = 1103515245;

/// The increment of the generator.
pub const INCREMENT: u64 = 12345;

/// One step of the generator: `x * MULTIPLIER + INCREMENT`, modulo 2^64.
pub open spec fn lcg_next(x: u64) -> u64 {
    vstd::wrapping::u64_specs::wrapping_add(
        vstd::wrapping::u64_specs::wrapping_mul(x, MULTIPLIER),
        INCREMENT,
    )
}

/// The bits of a state that a draw keeps: the state divided by 2^16, modulo
/// `modulus`.
pub open spec fn chunk(state: u64, modulus: u64) -> nat {
    ((state / 65536) % modulus) as nat
}

/// The number that a draw from `seed` returns: eleven bits from the first new
/// state, then ten from the second, then ten from the third.
pub open spec fn draw(seed: u64) -> nat {
    let n1 = lcg_next(seed);
    let n2 = lcg_next(n1);
    let n3 = lcg_next(n2);
    chunk(n1, 2048) * 1048576 + chunk(n2, 1024) * 1024 + chunk(n3, 1024)
}

/// The state after a draw from `seed`.
pub open spec fn seed_after(seed: u64) -> u64 {
    lcg_next(lcg_next(lcg_next(seed)))
}

/// Appends `low` as ten lower bits to `high`.
fn push_ten_bits(high: u64, low: u64) -> (r: u64)
    requires
        high < 0x20_0000,
        low < 1024,
    ensures
        r == high * 1024 + low,
        r < 0x8000_0000,
{
    assert((high << 10u64) ^ low == high * 1024 + low) by (bit_vector)
        requires
            high < 0x20_0000,
            low < 1024,
    ;
    (high << 10u64) ^ low
}

/// Draws a number in `0 .. 2^31` and advances `seed`.
pub fn sync_rand(seed: &mut u64) -> (r: u64)
    ensures
        r == draw(*old(seed)),
        r < 0x8000_0000,
        *final(seed) == seed_after(*old(seed)),
{
    let mut next: u64 = *seed;

    next = next.wrapping_mul(MULTIPLIER);
    next = next.wrapping_add(INCREMENT);
    let mut result: u64 = (next / 65536) % 2048;

    next = next.wrapping_mul(MULTIPLIER);
    next = next.wrapping_add(INCREMENT);
    result = push_ten_bits(result, (next / 65536) % 1024);

    next = next.wrapping_mul(MULTIPLIER);
    next = next.wrapping_add(INCREMENT);
    result = push_ten_bits(result, (next / 65536) % 1024);

    *seed = next;
    result
}

/// Rescales `val` from the range `in_min ..= in_max` to `out_min ..= out_max`
/// in integer arithmetic: `out_min + ((val - in_min) / (in_max - in_min)) *
/// (out_max - out_min)`, the quotient rounded down.
pub fn map(val: u64, in_min: u64, in_max: u64, out_min: u64, out_max: u64) -> (r: u64)
    requires
        in_min <= val,
        in_min < in_max,
        out_min <= out_max,
        out_min + ((val - in_min) / (in_max - in_min) as int) * (out_max - out_min) <= u64::MAX,
    ensures
        r == out_min + ((val - in_min) / (in_max - in_min) as int) * (out_max - out_min),
{
    let q: u64 = (val - in_min) / (in_max - in_min);
    assert(0 <= q * (out_max - out_min)) by (nonlinear_arith)
        requires
            out_min <= out_max,
    ;
    out_min + q * (out_max - out_min)
}

/// Draws a number and rescales it from `0 ..= u64::MAX` to `min ..= max`.
/// A draw is always below 2^31, so the rescaled quotient is zero and the
/// result is `min`, whatever was drawn.
pub fn sync_rand_range(seed: &mut u64, min: u64, max: u64) -> (r: u64)
    requires
        min <= max,
    ensures
        r == min,
        min <= r <= max,
        *final(seed) == seed_after(*old(seed)),
{
    let val = sync_rand(seed);
    assert((val - 0) / (u64::MAX - 0) == 0);
    map(val, 0, u64::MAX, min, max)
}

} // verus!
