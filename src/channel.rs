//! Exact quantization of colour channels to bytes.
//!
//! A channel value here has the form `(alpha + beta * √s) / gamma` with
//! integers `alpha`, `beta`, `s >= 0` and `gamma > 0`. Its byte is
//! `floor(255.999 * c)` after clamping `c` to `[0, 1]`, computed without any
//! rounding: every comparison against the square root is decided on squares.
use vstd::prelude::*;

verus! {

/// `2^126`, the bound under which squares are formed in `i128`.
pub open spec fn square_bound() -> int {
    0x4000_0000_0000_0000_0000_0000_0000_0000
}

/// Whether `u * √s <= q`, stated over integers: for `u <= 0` the left side is
/// at most zero, for `u > 0` it is at least zero, and two non-negative
/// quantities compare as their squares do.
pub open spec fn times_sqrt_le(u: int, s: int, q: int) -> bool {
    if u <= 0 {
        q >= 0 || u * u * s >= q * q
    } else {
        q >= 0 && u * u * s <= q * q
    }
}

/// Decides `u * √s <= q` for `s >= 0`.
pub fn sqrt_le(u: i128, s: i128, q: i128) -> (r: bool)
    requires
        0 <= s,
        -0x8000_0000_0000_0000 <= u <= 0x8000_0000_0000_0000,
        -0x8000_0000_0000_0000 <= q <= 0x8000_0000_0000_0000,
        u * u * s <= square_bound(),
    ensures
        r == times_sqrt_le(u as int, s as int, q as int),
{
    proof {
        let (ui, si, qi) = (u as int, s as int, q as int);
        assert(0 <= ui * ui <= square_bound() && 0 <= qi * qi <= square_bound()) by (nonlinear_arith)
            requires
                -0x8000_0000_0000_0000 <= ui <= 0x8000_0000_0000_0000,
                -0x8000_0000_0000_0000 <= qi <= 0x8000_0000_0000_0000,
        ;
        assert(0 <= (ui * ui) * si) by (nonlinear_arith)
            requires
                0 <= si,
        ;
        assert((ui * ui) * si == ui * ui * si) by (nonlinear_arith);
    }
    let uu = u * u;
    let qq = q * q;
    let uus = uu * s;
    if u <= 0 {
        q >= 0 || uus >= qq
    } else {
        q >= 0 && uus <= qq
    }
}

/// Whether `k <= 255.999 * (alpha + beta * √s) / gamma`, that is
/// `1000 * k * gamma <= 255999 * (alpha + beta * √s)` for `gamma > 0`.
pub open spec fn byte_le(k: int, alpha: int, beta: int, s: int, gamma: int) -> bool {
    times_sqrt_le(-255999 * beta, s, 255999 * alpha - 1000 * k * gamma)
}

/// `b` is `floor(255.999 * c)` for `c = (alpha + beta * √s) / gamma` clamped
/// to `[0, 1]`: every byte from 1 to `b` lies at or below `255.999 * c`, and
/// the next one, if there is one, does not.
pub open spec fn is_channel_byte(b: int, alpha: int, beta: int, s: int, gamma: int) -> bool {
    0 <= b <= 255 && (forall|j: int| 1 <= j <= b ==> byte_le(j, alpha, beta, s, gamma)) && (b
        < 255 ==> !byte_le(b + 1, alpha, beta, s, gamma))
}

/// A channel has one byte: two bytes that both meet `is_channel_byte` for
/// the same channel are equal.
pub proof fn lemma_channel_byte_unique(b1: int, b2: int, alpha: int, beta: int, s: int, gamma: int)
    requires
        is_channel_byte(b1, alpha, beta, s, gamma),
        is_channel_byte(b2, alpha, beta, s, gamma),
    ensures
        b1 == b2,
{
    if b1 < b2 {
        assert(byte_le(b1 + 1, alpha, beta, s, gamma));
    } else if b2 < b1 {
        assert(byte_le(b2 + 1, alpha, beta, s, gamma));
    }
}

/// Bounds under which a channel's comparisons are formed in `i128`.
pub open spec fn channel_in_range(alpha: int, beta: int, s: int, gamma: int) -> bool {
    -0x1000_0000_0000 <= alpha <= 0x1000_0000_0000 && -0x8000 <= beta <= 0x8000 && 0 <= s && 0
        < gamma <= 0x400_0000_0000 && beta * beta * s <= 0x20_0000_0000_0000_0000_0000
}

/// The byte of the channel `(alpha + beta * √s) / gamma`.
pub fn channel_byte(alpha: i64, beta: i64, s: i64, gamma: i64) -> (b: u8)
    requires
        channel_in_range(alpha as int, beta as int, s as int, gamma as int),
    ensures
        is_channel_byte(b as int, alpha as int, beta as int, s as int, gamma as int),
{
    proof {
        let bi = beta as int;
        assert(-0x1_0000_0000_0000 <= -255999 * bi <= 0x1_0000_0000_0000) by (nonlinear_arith)
            requires
                -0x8000 <= bi <= 0x8000,
        ;
    }
    let u: i128 = -255999 * (beta as i128);
    proof {
        let (bi, si, ui) = (beta as int, s as int, u as int);
        assert(ui * ui * si == 255999 * 255999 * (bi * bi * si)) by (nonlinear_arith)
            requires
                ui == -255999 * bi,
        ;
        assert(255999 * 255999 * (bi * bi * si) <= square_bound()) by (nonlinear_arith)
            requires
                bi * bi * si <= 0x20_0000_0000_0000_0000_0000,
        ;
    }
    let mut b: u8 = 0;
    let mut done = false;
    while !done && b < 255
        invariant
            0 <= b <= 255,
            channel_in_range(alpha as int, beta as int, s as int, gamma as int),
            u == -255999 * beta,
            u * u * s <= square_bound(),
            forall|j: int| 1 <= j <= b ==> byte_le(j, alpha as int, beta as int, s as int, gamma as int),
            done ==> b < 255 && !byte_le(b + 1, alpha as int, beta as int, s as int, gamma as int),
        decreases 255 - b + (if done { 0int } else { 1int }),
    {
        let k: i128 = b as i128 + 1;
        proof {
            let (ai, gi, ki) = (alpha as int, gamma as int, k as int);
            assert(-0x4000_0000_0000_0000 <= 1000 * ki * gi <= 0x4000_0000_0000_0000)
                by (nonlinear_arith)
                requires
                    1 <= ki <= 255,
                    0 < gi <= 0x400_0000_0000,
            ;
        }
        let q: i128 = 255999 * (alpha as i128) - 1000 * k * (gamma as i128);
        if sqrt_le(u, s as i128, q) {
            b = b + 1;
        } else {
            done = true;
        }
    }
    b
}

} // verus!
