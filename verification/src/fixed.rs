//! Saturating fixed-point scalars.
//!
//! A scalar is an `i64` counting steps of `1 / 65536` of a world unit.
//! Every operation rounds toward zero and saturates at `FX_MAX` steps in
//! magnitude, so the operations are total over `i64` and each executable
//! function returns exactly what its `_sp` spec function states.

use vstd::prelude::*;
use vstd::arithmetic::div_mod::{
    lemma_div_is_ordered, lemma_div_is_ordered_by_denominator, lemma_div_pos_is_pos,
    lemma_fundamental_div_mod, lemma_mod_bound,
};

verus! {

/// Fixed-point steps per world unit; also the representation of the scalar one.
pub const ONE: i64 = 65536;

/// The scalar two.
pub const TWO: i64 = 131072;

/// The scalar one half.
pub const HALF: i64 = 32768;

/// Saturation bound of every fixed-point operation (2^46 steps).
pub const FX_MAX: i64 = 70368744177664;

/// Magnitude of an integer.
pub open spec fn iabs(x: int) -> int {
    if x < 0 {
        -x
    } else {
        x
    }
}

/// A value the fixed-point operations can produce.
pub open spec fn fx_ok(x: int) -> bool {
    -(FX_MAX as int) <= x <= FX_MAX as int
}

/// Saturation into the representable range.
pub open spec fn fx_clip(x: int) -> int {
    if x > FX_MAX as int {
        FX_MAX as int
    } else if x < -(FX_MAX as int) {
        -(FX_MAX as int)
    } else {
        x
    }
}

/// Division rounding toward zero, as the executable operations compute it.
pub open spec fn tdiv(a: int, b: int) -> int
    recommends
        b != 0,
{
    let q = iabs(a) / iabs(b);
    if (a < 0) != (b < 0) {
        -q
    } else {
        q
    }
}

/// Fixed-point addition.
pub open spec fn fx_add_sp(a: int, b: int) -> int {
    fx_clip(a + b)
}

/// Fixed-point subtraction.
pub open spec fn fx_sub_sp(a: int, b: int) -> int {
    fx_clip(a - b)
}

/// Fixed-point negation.
pub open spec fn fx_neg_sp(a: int) -> int {
    fx_clip(-a)
}

/// Fixed-point multiplication: the full product, rescaled toward zero.
pub open spec fn fx_mul_sp(a: int, b: int) -> int {
    fx_clip(tdiv(a * b, ONE as int))
}

/// Fixed-point division.
pub open spec fn fx_div_sp(a: int, b: int) -> int
    recommends
        b != 0,
{
    fx_clip(tdiv(a * (ONE as int), b))
}

/// The integer square root: the greatest `r` with `r * r <= n`.
pub open spec fn sqrt_floor(n: nat) -> nat
    decreases n,
{
    if n == 0 {
        0
    } else {
        let r = sqrt_floor((n - 1) as nat);
        if (r + 1) * (r + 1) <= n {
            r + 1
        } else {
            r
        }
    }
}

/// Fixed-point square root of a non-negative scalar.
pub open spec fn fx_sqrt_sp(x: int) -> int
    recommends
        x >= 0,
{
    sqrt_floor((x * (ONE as int)) as nat) as int
}

pub proof fn lemma_sqrt_floor(n: nat)
    ensures
        sqrt_floor(n) * sqrt_floor(n) <= n,
        n < (sqrt_floor(n) + 1) * (sqrt_floor(n) + 1),
    decreases n,
{
    if n != 0 {
        let m = (n - 1) as nat;
        lemma_sqrt_floor(m);
        let r = sqrt_floor(m);
        assert(sqrt_floor(n) == if (r + 1) * (r + 1) <= n {
            r + 1
        } else {
            r
        });
        if (r + 1) * (r + 1) <= n {
            assert(n == (r + 1) * (r + 1));
            assert((r + 1) * (r + 1) < ((r + 1) + 1) * ((r + 1) + 1)) by (nonlinear_arith);
        }
    } else {
        assert(sqrt_floor(0) == 0);
        assert(0 * 0 <= 0nat) by (nonlinear_arith);
        assert(0nat < (0 + 1) * (0 + 1)) by (nonlinear_arith);
    }
}

pub proof fn lemma_sqrt_unique(n: nat, r: nat)
    requires
        r * r <= n,
        n < (r + 1) * (r + 1),
    ensures
        sqrt_floor(n) == r,
{
    lemma_sqrt_floor(n);
    let s = sqrt_floor(n);
    if s < r {
        assert((s + 1) * (s + 1) <= r * r) by (nonlinear_arith)
            requires
                s + 1 <= r,
        ;
        assert(false);
    }
    if r < s {
        assert((r + 1) * (r + 1) <= s * s) by (nonlinear_arith)
            requires
                r + 1 <= s,
        ;
        assert(false);
    }
}

pub proof fn lemma_sqrt_at_least(n: nat, b: nat)
    requires
        b * b <= n,
    ensures
        sqrt_floor(n) >= b,
{
    lemma_sqrt_floor(n);
    let s = sqrt_floor(n);
    if s < b {
        assert((s + 1) * (s + 1) <= b * b) by (nonlinear_arith)
            requires
                s + 1 <= b,
        ;
        assert(false);
    }
}

pub proof fn lemma_sqrt_at_most(n: nat, b: nat)
    requires
        n < b * b,
    ensures
        sqrt_floor(n) < b,
{
    lemma_sqrt_floor(n);
    let s = sqrt_floor(n);
    if b <= s {
        assert(b * b <= s * s) by (nonlinear_arith)
            requires
                b <= s,
        ;
        assert(false);
    }
}

/// Magnitude and sign of a product, in the raw terms the solver needs.
proof fn lemma_mul_sign_abs(a: int, b: int, ma: int, mb: int)
    by (nonlinear_arith)
    requires
        ma == if a < 0 { -a } else { a },
        mb == if b < 0 { -b } else { b },
    ensures
        (if a * b < 0 { -(a * b) } else { a * b }) == ma * mb,
        (a * b < 0) <==> (((a < 0) != (b < 0)) && a != 0 && b != 0),
{
}

/// Division toward zero is monotone in the dividend.
pub proof fn lemma_tdiv_mono(a1: int, a2: int, b: int)
    requires
        a1 <= a2,
        b > 0,
    ensures
        tdiv(a1, b) <= tdiv(a2, b),
{
    if a1 >= 0 {
        lemma_div_is_ordered(a1, a2, b);
    } else if a2 < 0 {
        lemma_div_is_ordered(-a2, -a1, b);
    } else {
        lemma_div_pos_is_pos(-a1, b);
        lemma_div_pos_is_pos(a2, b);
    }
}

/// Division toward zero is odd in the dividend.
pub proof fn lemma_tdiv_neg(a: int, b: int)
    requires
        b > 0,
    ensures
        tdiv(-a, b) == -tdiv(a, b),
{
}

/// A square never scales to a negative value.
pub proof fn lemma_fx_square_nonneg(x: int)
    ensures
        0 <= fx_mul_sp(x, x) <= FX_MAX as int,
{
    assert(x * x >= 0) by (nonlinear_arith);
    lemma_div_pos_is_pos(x * x, ONE as int);
}

/// Multiplying by the scalar one is exact on representable values.
pub proof fn lemma_fx_mul_one(x: int)
    requires
        fx_ok(x),
    ensures
        fx_mul_sp(ONE as int, x) == x,
        fx_mul_sp(x, ONE as int) == x,
{
    lemma_mul_sign_abs(ONE as int, x, ONE as int, iabs(x));
    lemma_mul_sign_abs(x, ONE as int, iabs(x), ONE as int);
    vstd::arithmetic::div_mod::lemma_div_multiples_vanish(iabs(x), ONE as int);
    assert((ONE as int) * iabs(x) == iabs(x) * (ONE as int)) by (nonlinear_arith);
}

/// Multiplying by zero gives zero.
pub proof fn lemma_fx_mul_zero(x: int)
    ensures
        fx_mul_sp(0, x) == 0,
        fx_mul_sp(x, 0) == 0,
{
    assert(0 * x == 0) by (nonlinear_arith);
    assert(x * 0 == 0) by (nonlinear_arith);
}

/// Negating one factor negates a product.
pub proof fn lemma_fx_mul_neg(a: int, b: int)
    requires
        fx_ok(b),
    ensures
        fx_mul_sp(a, fx_neg_sp(b)) == -fx_mul_sp(a, b),
{
    assert(a * (-b) == -(a * b)) by (nonlinear_arith);
    lemma_tdiv_neg(a * b, ONE as int);
}

/// Rescaling a product rounds its magnitude down: the result, scaled back
/// up, never exceeds the exact product of the magnitudes.
pub proof fn lemma_fx_mul_scaled_bound(a: int, b: int)
    ensures
        iabs(fx_mul_sp(a, b)) * (ONE as int) <= iabs(a) * iabs(b),
{
    let m = a * b;
    lemma_mul_sign_abs(a, b, iabs(a), iabs(b));
    lemma_fundamental_div_mod(iabs(m), ONE as int);
    lemma_mod_bound(iabs(m), ONE as int);
    lemma_div_pos_is_pos(iabs(m), ONE as int);
}

/// A fixed-point quotient, scaled back up by its divisor, never exceeds
/// the exact scaled dividend.
pub proof fn lemma_fx_div_scaled_bound(c: int, d: int)
    requires
        d > 0,
    ensures
        iabs(fx_div_sp(c, d)) * d <= iabs(c) * (ONE as int),
{
    let m = c * (ONE as int);
    let q = iabs(m) / d;
    lemma_fundamental_div_mod(iabs(m), d);
    lemma_mod_bound(iabs(m), d);
    lemma_div_pos_is_pos(iabs(m), d);
    assert(iabs(fx_div_sp(c, d)) <= q);
    assert(iabs(fx_div_sp(c, d)) * d <= q * d) by (nonlinear_arith)
        requires
            iabs(fx_div_sp(c, d)) <= q,
            d > 0,
    ;
}

/// A scaled square rounds down: the result times the scale never exceeds
/// the exact square.
pub proof fn lemma_fx_square_lower(a: int)
    ensures
        0 <= fx_mul_sp(a, a),
        fx_mul_sp(a, a) * (ONE as int) <= a * a,
{
    lemma_fx_square_nonneg(a);
    assert(a * a >= 0) by (nonlinear_arith);
    lemma_fundamental_div_mod(a * a, ONE as int);
    lemma_mod_bound(a * a, ONE as int);
    lemma_div_pos_is_pos(a * a, ONE as int);
    let q = (a * a) / (ONE as int);
    if q > FX_MAX as int {
        assert((FX_MAX as int) * (ONE as int) <= q * (ONE as int)) by (nonlinear_arith)
            requires
                FX_MAX as int <= q,
        ;
    }
}

/// For a coordinate within one unit, the scaled square is exact to within
/// one step and stays within one unit.
pub proof fn lemma_fx_square_bounds(a: int)
    requires
        iabs(a) <= ONE as int,
    ensures
        0 <= fx_mul_sp(a, a) <= ONE as int,
        fx_mul_sp(a, a) * (ONE as int) <= a * a,
        a * a < (fx_mul_sp(a, a) + 1) * (ONE as int),
{
    lemma_fx_square_lower(a);
    assert(a * a <= (ONE as int) * (ONE as int)) by (nonlinear_arith)
        requires
            -(ONE as int) <= a <= ONE as int,
    ;
    lemma_fundamental_div_mod(a * a, ONE as int);
    lemma_mod_bound(a * a, ONE as int);
    lemma_div_pos_is_pos(a * a, ONE as int);
    lemma_div_is_ordered(a * a, (ONE as int) * (ONE as int), ONE as int);
}

/// A quotient of non-negative by positive stays non-negative.
pub proof fn lemma_fx_div_nonneg(a: int, b: int)
    requires
        a >= 0,
        b > 0,
    ensures
        fx_div_sp(a, b) >= 0,
{
    lemma_div_pos_is_pos(a * (ONE as int), b);
}

/// Dividing a scalar no larger than one by a scalar no smaller than one
/// cannot grow past one.
pub proof fn lemma_fx_div_small(c: int, len: int)
    requires
        iabs(c) <= ONE as int,
        len >= ONE as int,
    ensures
        iabs(fx_div_sp(c, len)) <= ONE as int,
{
    lemma_mul_sign_abs(c, ONE as int, iabs(c), ONE as int);
    lemma_div_is_ordered(iabs(c) * (ONE as int), (ONE as int) * (ONE as int), len);
    lemma_div_is_ordered_by_denominator((ONE as int) * (ONE as int), ONE as int, len);
    lemma_div_pos_is_pos(iabs(c) * (ONE as int), len);
}

fn clip_i128(x: i128) -> (r: i64)
    ensures
        r as int == fx_clip(x as int),
{
    if x > FX_MAX as i128 {
        FX_MAX
    } else if x < -(FX_MAX as i128) {
        -FX_MAX
    } else {
        x as i64
    }
}

/// The fixed-point value of a whole number of world units.
pub fn fx_from_u32(x: u32) -> (r: i64)
    ensures
        r as int == fx_clip(x as int * (ONE as int)),
{
    clip_i128((x as i128) * 65536i128)
}

pub fn fx_add(a: i64, b: i64) -> (r: i64)
    ensures
        r as int == fx_add_sp(a as int, b as int),
{
    clip_i128(a as i128 + b as i128)
}

pub fn fx_sub(a: i64, b: i64) -> (r: i64)
    ensures
        r as int == fx_sub_sp(a as int, b as int),
{
    clip_i128(a as i128 - b as i128)
}

pub fn fx_neg(a: i64) -> (r: i64)
    ensures
        r as int == fx_neg_sp(a as int),
{
    clip_i128(-(a as i128))
}

pub fn fx_mul(a: i64, b: i64) -> (r: i64)
    ensures
        r as int == fx_mul_sp(a as int, b as int),
{
    let na: u128 = if a < 0 { (-(a as i128)) as u128 } else { a as u128 };
    let nb: u128 = if b < 0 { (-(b as i128)) as u128 } else { b as u128 };
    proof {
        lemma_mul_sign_abs(a as int, b as int, na as int, nb as int);
        assert(na as int * nb as int <= 0x8000000000000000 * 0x8000000000000000) by (nonlinear_arith)
            requires
                na as int <= 0x8000000000000000,
                nb as int <= 0x8000000000000000,
        ;
    }
    let p: u128 = na * nb;
    let q: u128 = p / (ONE as u128);
    let negative: bool = (a < 0) != (b < 0);
    proof {
        assert(q as int == iabs(a as int * b as int) / (ONE as int));
    }
    if q >= FX_MAX as u128 {
        if negative {
            -FX_MAX
        } else {
            FX_MAX
        }
    } else {
        if negative {
            -(q as i64)
        } else {
            q as i64
        }
    }
}

pub fn fx_div(a: i64, b: i64) -> (r: i64)
    requires
        b != 0,
    ensures
        r as int == fx_div_sp(a as int, b as int),
{
    let na: u128 = if a < 0 { (-(a as i128)) as u128 } else { a as u128 };
    let nb: u128 = if b < 0 { (-(b as i128)) as u128 } else { b as u128 };
    proof {
        lemma_mul_sign_abs(a as int, ONE as int, na as int, ONE as int);
    }
    let m: u128 = na * (ONE as u128);
    let q: u128 = m / nb;
    let negative: bool = (a < 0) != (b < 0);
    proof {
        assert(q as int == iabs(a as int * (ONE as int)) / iabs(b as int));
    }
    if q >= FX_MAX as u128 {
        if negative {
            -FX_MAX
        } else {
            FX_MAX
        }
    } else {
        if negative {
            -(q as i64)
        } else {
            q as i64
        }
    }
}

fn isqrt_u128(n: u128) -> (r: u128)
    requires
        n < 1267650600228229401496703205376u128,
    ensures
        (r as nat) * (r as nat) <= n as nat,
        (n as nat) < ((r as nat) + 1) * ((r as nat) + 1),
{
    let mut lo: u128 = 0;
    let mut hi: u128 = 2251799813685249u128;
    while lo + 1 < hi
        invariant
            (lo as nat) * (lo as nat) <= n as nat,
            (n as nat) < (hi as nat) * (hi as nat),
            lo < hi,
            hi <= 2251799813685249u128,
        decreases hi - lo,
    {
        let mid: u128 = lo + (hi - lo) / 2;
        proof {
            assert(lo < mid && mid < hi);
            assert(mid as nat * (mid as nat) <= 2251799813685249 * 2251799813685249) by (nonlinear_arith)
                requires
                    mid as nat <= 2251799813685249,
            ;
        }
        if mid * mid <= n {
            lo = mid;
        } else {
            hi = mid;
        }
    }
    lo
}

pub fn fx_sqrt(x: i64) -> (r: i64)
    requires
        x >= 0,
    ensures
        r as int == fx_sqrt_sp(x as int),
        0 <= r <= FX_MAX,
{
    let n: u128 = (x as u128) * 65536u128;
    proof {
        assert(x as u128 <= 0x7fffffffffffffffu128);
        assert(n < 1267650600228229401496703205376u128);
    }
    let s: u128 = isqrt_u128(n);
    proof {
        lemma_sqrt_unique(n as nat, s as nat);
        lemma_sqrt_at_most(n as nat, 1099511627776nat);
    }
    s as i64
}

} // verus!
