//! A polyphonic audio synthesis and mixing engine.
//!
//! The engine produces streams of audio samples for held keys, shapes each
//! stream with an attack-decay-sustain-release envelope, and sums the active
//! streams into one continuous output feed.
//!
//! All amplitudes and gains are fixed-point numbers: the value [`UNIT`]
//! stands for an amplitude of one, so a sample `s` represents the real
//! amplitude `s / UNIT`. Times are counted in whole samples ("ticks") at
//! [`SAMPLE_RATE`] ticks per second. The surrounding program converts
//! to and from the audio hardware's own sample format at the edges.

use vstd::prelude::*;
use vstd::arithmetic::div_mod::lemma_div_is_ordered;
use vstd::arithmetic::div_mod::lemma_div_multiples_vanish;
use vstd::arithmetic::div_mod::lemma_div_pos_is_pos;

pub mod argparse;
pub mod envelope;
pub mod mixer;
pub mod sampler;
pub mod signal;
pub mod wave;
pub mod wavio;

verus! {

/// The audio sample rate, in samples per second.
pub const SAMPLE_RATE: u32 = 48000;

/// The number of samples we want buffered by the audio output.
/// Smaller is better, until the underruns start.
pub const WANT_BUFSIZE: u32 = 256;

/// Fixed-point scale: the sample value that stands for amplitude 1.0.
pub const UNIT: i64 = 65536;

/// Truncating division of `x` by the positive divisor `d`: the quotient is
/// rounded towards zero, as the hardware's signed division rounds.
pub open spec fn div_trunc(x: int, d: int) -> int {
    if x >= 0 {
        x / d
    } else {
        -((-x) / d)
    }
}

/// Scale the product of two fixed-point quantities back into fixed point:
/// `x * y / UNIT`, rounded towards zero.
pub open spec fn mul_q(x: int, y: int) -> int {
    div_trunc(x * y, UNIT as int)
}

/// A quotient of non-negative `n` by positive `d` lies between `0` and any
/// `b` with `n <= b * d`.
pub proof fn lemma_div_range(n: int, b: int, d: int)
    requires
        0 < d,
        0 <= n,
        n <= b * d,
    ensures
        0 <= n / d <= b,
{
    lemma_div_pos_is_pos(n, d);
    lemma_div_is_ordered(n, b * d, d);
    lemma_div_multiples_vanish(b, d);
    assert(b * d == d * b) by (nonlinear_arith);
}

/// A product of an envelope level and a valid amplitude scales back to a
/// valid amplitude.
pub proof fn lemma_mul_q_range(e: int, s: int)
    requires
        0 <= e <= UNIT,
        -UNIT <= s <= UNIT,
    ensures
        -UNIT <= mul_q(e, s) <= UNIT,
        -0x1_0000_0000_0000 <= e * s <= 0x1_0000_0000_0000,
{
    let u = UNIT as int;
    if s >= 0 {
        assert(0 <= e * s <= u * u) by (nonlinear_arith)
            requires 0 <= e <= u && 0 <= s <= u;
        lemma_div_range(e * s, u, u);
    } else {
        assert(0 <= e * (-s) <= u * u && e * s == -(e * (-s))) by (nonlinear_arith)
            requires 0 <= e <= u && 0 < -s <= u;
        lemma_div_range(e * (-s), u, u);
    }
}

/// Copy a sample buffer.
pub fn copy_samples(v: &Vec<i64>) -> (r: Vec<i64>)
    ensures
        r@ == v@,
{
    let mut r: Vec<i64> = Vec::new();
    let mut i: usize = 0;
    proof {
        assert(v@.take(0) =~= r@);
    }
    while i < v.len()
        invariant
            i <= v@.len(),
            r@ == v@.take(i as int),
        decreases v@.len() - i,
    {
        r.push(v[i]);
        proof {
            assert(v@.take(i + 1 as int) =~= v@.take(i as int).push(v@[i as int]));
        }
        i = i + 1;
    }
    proof {
        assert(v@.take(v@.len() as int) =~= v@);
    }
    r
}

/// Whether a string equals a literal.
pub(crate) fn str_is(s: &String, lit: &str) -> (r: bool)
    ensures
        r == (s@ == lit@),
{
    let owned: String = lit.to_owned();
    *s == owned
}

/// Multiply two fixed-point quantities, rounding towards zero.
pub fn scale_q(x: i64, y: i64) -> (r: i64)
    requires
        -0x4000_0000_0000_0000 <= x * y <= 0x4000_0000_0000_0000,
    ensures
        r == mul_q(x as int, y as int),
{
    let p: i64 = x * y;
    if p >= 0 {
        p / UNIT
    } else {
        -((-p) / UNIT)
    }
}

} // verus!

