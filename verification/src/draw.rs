//! Random draws as fixed-point fractions.
//!
//! A draw is a `u32` that stands for the real number `draw / 2^32` of the
//! half-open unit interval. Scaling a draw to a range multiplies the two and
//! rounds down, so a uniform draw yields every integer below the range with
//! (up to the 32-bit resolution) the same probability.

use vstd::prelude::*;

verus! {

/// Number of distinct draws: a draw `d` stands for the fraction
/// `d / DRAW_RESOLUTION`.
pub const DRAW_RESOLUTION: u64 = 0x1_0000_0000;

/// The integer part of `range * draw / 2^32`.
pub open spec fn scaled(range: nat, draw: u32) -> nat {
    (range * draw as nat) / (DRAW_RESOLUTION as nat)
}

/// A scaled draw stays below a non-empty range, and is 0 for an empty one.
pub proof fn lemma_scaled_below(range: nat, draw: u32)
    ensures
        range > 0 ==> scaled(range, draw) < range,
        range == 0 ==> scaled(range, draw) == 0,
{
    let d = draw as nat;
    let m = DRAW_RESOLUTION as nat;
    if range > 0 {
        assert(range * d < range * m) by (nonlinear_arith)
            requires
                d < m,
                range > 0,
        ;
    }
}

/// Scales `draw` to the integers below `range`.
pub fn random_in_range(range: u64, draw: u32) -> (r: u64)
    ensures
        r == scaled(range as nat, draw),
        range > 0 ==> r < range,
{
    proof {
        lemma_scaled_below(range as nat, draw);
    }
    let wide: u128 = (range as u128) * (draw as u128);
    (wide / (DRAW_RESOLUTION as u128)) as u64
}

/// The draw `draw` scaled to the integers from `a` up to, and without,
/// `b`; `a` where there is none.
pub open spec fn scaled_between(a: u32, b: u32, draw: u32) -> int {
    if a < b {
        a + scaled((b - a) as nat, draw)
    } else {
        a as int
    }
}

/// Scales `draw` to the integers from `a` up to, and without, `b`; `a`
/// where there is none.
pub fn random_u32(a: u32, b: u32, draw: u32) -> (r: u32)
    ensures
        r == scaled_between(a, b, draw),
        a <= r,
        a < b ==> r < b,
{
    if a < b {
        let offset: u64 = random_in_range((b - a) as u64, draw);
        a + offset as u32
    } else {
        a
    }
}

/// One draw from the thread-local generator of `rand`, made by
/// `rand::thread_rng()` and `Rng::gen`. Nothing is claimed of its value.
#[verifier::external_body]
fn thread_draw() -> u32 {
    rand::Rng::gen::<u32>(&mut rand::thread_rng())
}

/// As many fresh draws as asked for, each from the thread-local random
/// number generator.
pub fn fresh_draws(count: usize) -> (draws: Vec<u32>)
    ensures
        draws@.len() == count,
{
    let mut draws: Vec<u32> = Vec::new();
    while draws.len() < count
        invariant
            draws@.len() <= count,
        decreases count - draws@.len(),
    {
        draws.push(thread_draw());
    }
    draws
}

} // verus!
