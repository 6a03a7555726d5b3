use vstd::prelude::*;

use vstd::arithmetic::div_mod::lemma_fundamental_div_mod;
use vstd::arithmetic::div_mod::lemma_fundamental_div_mod_converse;

verus! {

/// One channel of the two-stop linear interpolation law
/// `round(s * (1 - t) + e * t)` with `t = y / (side - 1)`, computed exactly
/// over the integers: the quotient `(s * (side - 1 - y) + e * y) / (side - 1)`
/// rounded half up. On a canvas of a single row the start stop is used.
pub open spec fn lerp_channel(s: u8, e: u8, y: int, side: int) -> u8
    recommends
        0 <= y < side,
{
    if side <= 1 {
        s
    } else {
        ((2 * (s * (side - 1 - y) + e * y) + (side - 1)) / (2 * (side - 1))) as u8
    }
}

/// The foreground color of canvas row `y` under an explicit two-stop
/// gradient from `start` to `end` over `side` rows.
pub open spec fn lerp_color(start: [u8; 3], end: [u8; 3], y: int, side: int) -> [u8; 3] {
    [
        lerp_channel(start[0], end[0], y, side),
        lerp_channel(start[1], end[1], y, side),
        lerp_channel(start[2], end[2], y, side),
    ]
}

/// The interpolated channel stays an exact 8-bit value: for in-range rows
/// the rounded quotient lies between the two stops' extremes.
pub proof fn lemma_lerp_channel_in_range(s: u8, e: u8, y: int, side: int)
    requires
        0 <= y < side,
    ensures
        lerp_channel(s, e, y, side) == ((2 * (s * (side - 1 - y) + e * y) + (side - 1)) / (2 * (
        side - 1))) || side <= 1,
        side > 1 ==> 0 <= (2 * (s * (side - 1 - y) + e * y) + (side - 1)) / (2 * (side - 1)) <= 255,
{
    if side > 1 {
        let den = side - 1;
        let num = s * (side - 1 - y) + e * y;
        assert(0 <= num <= 255 * den) by (nonlinear_arith)
            requires
                0 <= y < side,
                den == side - 1,
                num == s * (side - 1 - y) + e * y,
                0 <= s <= 255,
                0 <= e <= 255,
        ;
        assert(0 <= (2 * num + den) / (2 * den) <= 255) by (nonlinear_arith)
            requires
                0 <= num <= 255 * den,
                den >= 1,
        ;
    }
}

/// The two-stop gradient meets its stops exactly: the first canvas row
/// carries the start color, and on a canvas of at least two rows the last
/// row carries the end color.
pub proof fn lemma_gradient_endpoints(start: [u8; 3], end: [u8; 3], side: int)
    requires
        side >= 1,
    ensures
        lerp_color(start, end, 0, side) == start,
        side >= 2 ==> lerp_color(start, end, side - 1, side) == end,
{
    if side >= 2 {
        lemma_lerp_channel_at_stop(start[0], end[0], side);
        lemma_lerp_channel_at_stop(start[1], end[1], side);
        lemma_lerp_channel_at_stop(start[2], end[2], side);
    }
    assert(lerp_color(start, end, 0, side) =~= start);
    if side >= 2 {
        assert(lerp_color(start, end, side - 1, side) =~= end);
    }
}

/// Every row sits within rounding of the interpolation law: the channel
/// value `c` chosen for row `y` keeps `c * (side - 1)` within half a unit of
/// `s * (side - 1 - y) + e * y`, the law's exact numerator.
pub proof fn lemma_lerp_channel_within_rounding(s: u8, e: u8, y: int, side: int)
    requires
        side >= 2,
        0 <= y < side,
    ensures
        ({
            let den = side - 1;
            let num = s * (side - 1 - y) + e * y;
            let c = lerp_channel(s, e, y, side) as int;
            -den <= 2 * num - 2 * den * c < den
        }),
{
    let den = side - 1;
    let num = s * (side - 1 - y) + e * y;
    lemma_lerp_channel_in_range(s, e, y, side);
    let q = (2 * num + den) / (2 * den);
    lemma_fundamental_div_mod(2 * num + den, 2 * den);
    assert(2 * den * q == (2 * den) * q) by (nonlinear_arith);
}

/// At the first row the interpolation returns the start channel exactly;
/// at the last row, the end channel.
proof fn lemma_lerp_channel_at_stop(s: u8, e: u8, side: int)
    requires
        side >= 2,
    ensures
        lerp_channel(s, e, 0, side) == s,
        lerp_channel(s, e, side - 1, side) == e,
{
    let den = side - 1;
    assert(2 * (s * (side - 1 - 0) + e * 0) + den == s * (2 * den) + den) by (nonlinear_arith)
        requires
            den == side - 1,
    ;
    lemma_fundamental_div_mod_converse(s * (2 * den) + den, 2 * den, s as int, den);
    assert(2 * (s * (side - 1 - (side - 1)) + e * (side - 1)) + den == e * (2 * den) + den)
        by (nonlinear_arith)
        requires
            den == side - 1,
    ;
    lemma_fundamental_div_mod_converse(e * (2 * den) + den, 2 * den, e as int, den);
}

/// Executable form of `lerp_channel`.
pub fn lerp_channel_exec(s: u8, e: u8, y: u32, side: u32) -> (r: u8)
    requires
        y < side,
    ensures
        r == lerp_channel(s, e, y as int, side as int),
{
    if side <= 1 {
        return s;
    }
    let den: u64 = side as u64 - 1;
    let yy: u64 = y as u64;
    proof {
        assert(s * ((den - yy) as int) <= 255 * den && e * yy <= 255 * den) by (nonlinear_arith)
            requires
                s <= 255,
                e <= 255,
                0 <= yy <= den,
        ;
        lemma_lerp_channel_in_range(s, e, y as int, side as int);
    }
    let num: u64 = s as u64 * (den - yy) + e as u64 * yy;
    let q: u64 = (2 * num + den) / (2 * den);
    q as u8
}

/// The foreground color of canvas row `y` under an explicit two-stop
/// gradient: each channel interpolated linearly from `start` to `end`.
pub fn gradient_color(start: &[u8; 3], end: &[u8; 3], y: u32, side: u32) -> (r: [u8; 3])
    requires
        y < side,
    ensures
        r == lerp_color(*start, *end, y as int, side as int),
{
    let r = [
        lerp_channel_exec(start[0], end[0], y, side),
        lerp_channel_exec(start[1], end[1], y, side),
        lerp_channel_exec(start[2], end[2], y, side),
    ];
    proof {
        assert(r =~= lerp_color(*start, *end, y as int, side as int));
    }
    r
}

/// One step of the auto-gradient walk: the channels move by +1, +2, +3 with
/// 8-bit wraparound.
pub open spec fn auto_step(c: [u8; 3]) -> [u8; 3] {
    [
        vstd::wrapping::u8_specs::wrapping_add(c[0], 1),
        vstd::wrapping::u8_specs::wrapping_add(c[1], 2),
        vstd::wrapping::u8_specs::wrapping_add(c[2], 3),
    ]
}

/// The auto-gradient foreground color at module row `row`: the base color
/// stepped `row` times.
pub open spec fn auto_color(base: [u8; 3], row: nat) -> [u8; 3]
    decreases row,
{
    if row == 0 {
        base
    } else {
        auto_step(auto_color(base, (row - 1) as nat))
    }
}

/// Executable form of `auto_step`.
pub fn auto_step_color(c: &[u8; 3]) -> (r: [u8; 3])
    ensures
        r == auto_step(*c),
{
    let r = [c[0].wrapping_add(1), c[1].wrapping_add(2), c[2].wrapping_add(3)];
    proof {
        assert(r =~= auto_step(*c));
    }
    r
}

} // verus!
