//! Three-component fixed-point vectors and their mathematical model.

use vstd::prelude::*;
use crate::fixed::{
    fx_add, fx_add_sp, fx_div, fx_div_sp, fx_mul, fx_mul_sp, fx_neg, fx_neg_sp, fx_sqrt,
    fx_sqrt_sp, fx_sub, fx_sub_sp, iabs, lemma_fx_div_scaled_bound, lemma_fx_div_small,
    lemma_fx_mul_neg, lemma_fx_mul_scaled_bound, lemma_fx_square_bounds, lemma_fx_square_lower,
    lemma_fx_square_nonneg, lemma_sqrt_at_least, lemma_sqrt_at_most, lemma_sqrt_floor, FX_MAX, ONE,
};
use crate::rng::rng_range;

verus! {

/// The model of a vector: exact fixed-point coordinates as integers.
pub ghost struct V3 {
    pub x: int,
    pub y: int,
    pub z: int,
}

#[derive(Clone, Copy, Debug, PartialEq, Eq, Structural)]
pub struct Vector3 {
    pub x: i64,
    pub y: i64,
    pub z: i64,
}

impl View for Vector3 {
    type V = V3;

    open spec fn view(&self) -> V3 {
        V3 { x: self.x as int, y: self.y as int, z: self.z as int }
    }
}

/// Every coordinate is representable.
pub open spec fn v3_ok(v: V3) -> bool {
    crate::fixed::fx_ok(v.x) && crate::fixed::fx_ok(v.y) && crate::fixed::fx_ok(v.z)
}

pub open spec fn v3_add(a: V3, b: V3) -> V3 {
    V3 { x: fx_add_sp(a.x, b.x), y: fx_add_sp(a.y, b.y), z: fx_add_sp(a.z, b.z) }
}

pub open spec fn v3_sub(a: V3, b: V3) -> V3 {
    V3 { x: fx_sub_sp(a.x, b.x), y: fx_sub_sp(a.y, b.y), z: fx_sub_sp(a.z, b.z) }
}

pub open spec fn v3_neg(a: V3) -> V3 {
    V3 { x: fx_neg_sp(a.x), y: fx_neg_sp(a.y), z: fx_neg_sp(a.z) }
}

/// Scalar times vector.
pub open spec fn v3_scale(s: int, v: V3) -> V3 {
    V3 { x: fx_mul_sp(s, v.x), y: fx_mul_sp(s, v.y), z: fx_mul_sp(s, v.z) }
}

/// Componentwise product, as colours attenuate.
pub open spec fn v3_compmul(a: V3, b: V3) -> V3 {
    V3 { x: fx_mul_sp(a.x, b.x), y: fx_mul_sp(a.y, b.y), z: fx_mul_sp(a.z, b.z) }
}

/// Vector divided by a scalar.
pub open spec fn v3_divs(v: V3, s: int) -> V3
    recommends
        s != 0,
{
    V3 { x: fx_div_sp(v.x, s), y: fx_div_sp(v.y, s), z: fx_div_sp(v.z, s) }
}

pub open spec fn v3_dot(a: V3, b: V3) -> int {
    fx_add_sp(fx_add_sp(fx_mul_sp(a.x, b.x), fx_mul_sp(a.y, b.y)), fx_mul_sp(a.z, b.z))
}

pub open spec fn v3_len_sq(v: V3) -> int {
    v3_dot(v, v)
}

pub open spec fn v3_len(v: V3) -> int {
    fx_sqrt_sp(v3_len_sq(v))
}

/// The vector scaled to unit length, with fixed-point rounding.
pub open spec fn v3_unit(v: V3) -> V3
    recommends
        v3_len_sq(v) > 0,
{
    v3_divs(v, v3_len(v))
}

pub open spec fn v3_cross(a: V3, b: V3) -> V3 {
    V3 {
        x: fx_sub_sp(fx_mul_sp(a.y, b.z), fx_mul_sp(a.z, b.y)),
        y: fx_sub_sp(fx_mul_sp(a.z, b.x), fx_mul_sp(a.x, b.z)),
        z: fx_sub_sp(fx_mul_sp(a.x, b.y), fx_mul_sp(a.y, b.x)),
    }
}

/// A point drawn for scattering: every coordinate within one unit.
pub open spec fn sample_ok(s: V3) -> bool {
    iabs(s.x) <= ONE as int && iabs(s.y) <= ONE as int && iabs(s.z) <= ONE as int
}

/// A point of the unit ball, up to a few steps of fixed-point rounding:
/// what `random_in_unit_sphere` guarantees of every draw.
pub open spec fn unit_sample(s: V3) -> bool {
    sample_ok(s) && v3_len_sq(s) <= ONE as int + 8
}

/// A squared length is never negative.
pub proof fn lemma_len_sq_nonneg(v: V3)
    ensures
        0 <= v3_len_sq(v) <= FX_MAX as int,
{
    lemma_fx_square_nonneg(v.x);
    lemma_fx_square_nonneg(v.y);
    lemma_fx_square_nonneg(v.z);
}

/// Negating one argument negates a dot product.
pub proof fn lemma_v3_dot_neg(a: V3, b: V3)
    requires
        v3_ok(b),
    ensures
        v3_dot(a, v3_neg(b)) == -v3_dot(a, b),
{
    lemma_fx_mul_neg(a.x, b.x);
    lemma_fx_mul_neg(a.y, b.y);
    lemma_fx_mul_neg(a.z, b.z);
}

/// A positive squared length puts the length at or above one step per unit
/// of squared length; in particular the length is positive.
pub proof fn lemma_len_positive(v: V3)
    requires
        v3_len_sq(v) > 0,
    ensures
        v3_len(v) >= 256,
{
    lemma_len_sq_nonneg(v);
    lemma_sqrt_at_least((v3_len_sq(v) * (ONE as int)) as nat, 256nat);
}

/// A squared length beyond one makes the length at least one.
pub proof fn lemma_len_at_least_one(v: V3)
    requires
        v3_len_sq(v) > ONE as int,
    ensures
        v3_len(v) >= ONE as int,
{
    lemma_len_sq_nonneg(v);
    lemma_sqrt_at_least((v3_len_sq(v) * (ONE as int)) as nat, ONE as nat);
}

/// The fixed-point squared length, scaled back up, never exceeds the exact
/// sum of squares: every rounding in it goes down.
pub proof fn lemma_len_sq_lower_scaled(w: V3)
    ensures
        v3_len_sq(w) * (ONE as int) <= w.x * w.x + w.y * w.y + w.z * w.z,
{
    lemma_fx_square_lower(w.x);
    lemma_fx_square_lower(w.y);
    lemma_fx_square_lower(w.z);
}

/// For coordinates within one unit, the exact sum of squares exceeds the
/// fixed-point squared length by less than three steps, scaled.
pub proof fn lemma_len_sq_upper_scaled(v: V3)
    requires
        sample_ok(v),
    ensures
        v.x * v.x + v.y * v.y + v.z * v.z < (v3_len_sq(v) + 3) * (ONE as int),
        v3_len_sq(v) <= 3 * (ONE as int),
{
    lemma_fx_square_bounds(v.x);
    lemma_fx_square_bounds(v.y);
    lemma_fx_square_bounds(v.z);
}

/// Normalizing a drawn vector that is longer than one unit lands in the
/// unit ball, up to eight steps of rounding on the squared length.
proof fn lemma_normalized_in_unit_ball(v: V3)
    requires
        sample_ok(v),
        v3_len_sq(v) > ONE as int,
    ensures
        v3_len_sq(v3_unit(v)) <= ONE as int + 8,
{
    let big = ONE as int;
    let ls = v3_len_sq(v);
    let n = (ls * big) as nat;
    let len = v3_len(v);
    lemma_len_sq_upper_scaled(v);
    lemma_sqrt_floor(n);
    assert((ONE as nat) * (ONE as nat) <= n) by (nonlinear_arith)
        requires
            n >= 65537 * 65536,
    ;
    lemma_sqrt_at_least(n, ONE as nat);
    assert(n < ((2 * ONE) as nat) * ((2 * ONE) as nat)) by (nonlinear_arith)
        requires
            n <= 3 * 65536 * 65536,
    ;
    lemma_sqrt_at_most(n, (2 * ONE) as nat);
    assert(big <= len < 2 * big);
    assert(len * len >= ls * big - 2 * len - 1) by (nonlinear_arith)
        requires
            ls * big < (len + 1) * (len + 1),
    ;
    let w = v3_unit(v);
    lemma_fx_div_scaled_bound(v.x, len);
    lemma_fx_div_scaled_bound(v.y, len);
    lemma_fx_div_scaled_bound(v.z, len);
    assert(w.x * w.x * (len * len) <= v.x * v.x * (big * big)) by (nonlinear_arith)
        requires
            iabs(w.x) == (if w.x < 0 { -w.x } else { w.x }),
            iabs(v.x) == (if v.x < 0 { -v.x } else { v.x }),
            iabs(w.x) * len <= iabs(v.x) * big,
            len >= 0,
    ;
    assert(w.y * w.y * (len * len) <= v.y * v.y * (big * big)) by (nonlinear_arith)
        requires
            iabs(w.y) == (if w.y < 0 { -w.y } else { w.y }),
            iabs(v.y) == (if v.y < 0 { -v.y } else { v.y }),
            iabs(w.y) * len <= iabs(v.y) * big,
            len >= 0,
    ;
    assert(w.z * w.z * (len * len) <= v.z * v.z * (big * big)) by (nonlinear_arith)
        requires
            iabs(w.z) == (if w.z < 0 { -w.z } else { w.z }),
            iabs(v.z) == (if v.z < 0 { -v.z } else { v.z }),
            iabs(w.z) * len <= iabs(v.z) * big,
            len >= 0,
    ;
    let sw = w.x * w.x + w.y * w.y + w.z * w.z;
    let sv = v.x * v.x + v.y * v.y + v.z * v.z;
    assert(sw * (len * len) <= sv * (big * big)) by (nonlinear_arith)
        requires
            sw == w.x * w.x + w.y * w.y + w.z * w.z,
            sv == v.x * v.x + v.y * v.y + v.z * v.z,
            w.x * w.x * (len * len) <= v.x * v.x * (big * big),
            w.y * w.y * (len * len) <= v.y * v.y * (big * big),
            w.z * w.z * (len * len) <= v.z * v.z * (big * big),
    ;
    let x = v3_len_sq(w);
    lemma_len_sq_lower_scaled(w);
    assert(x * (len * len) < (ls + 3) * (big * big)) by (nonlinear_arith)
        requires
            x * big <= sw,
            sw * (len * len) <= sv * (big * big),
            sv < (ls + 3) * big,
            len * len >= 0,
            big == 65536,
    ;
    if x >= big + 9 {
        assert((big + 9) * (len * len) <= x * (len * len)) by (nonlinear_arith)
            requires
                x >= big + 9,
                len * len >= 0,
        ;
        assert(false) by (nonlinear_arith)
            requires
                big == 65536,
                ls >= big + 1,
                ls <= 3 * big,
                big <= len < 2 * big,
                len * len >= ls * big - 2 * len - 1,
                (big + 9) * (len * len) <= x * (len * len),
                x * (len * len) < (ls + 3) * (big * big),
        ;
    }
}

/// Scaling a drawn vector scales its length no faster than the scalar:
/// the scaled squared length, brought to the common scale, is at most the
/// scalar's square times the draw's squared length plus three steps.
pub proof fn lemma_scale_len_sq_bound(f: int, s: V3)
    requires
        0 <= f,
        sample_ok(s),
    ensures
        v3_len_sq(v3_scale(f, s)) * (ONE as int) * (ONE as int) <= f * f * (v3_len_sq(s) + 3),
{
    let big = ONE as int;
    let d = v3_scale(f, s);
    lemma_fx_mul_scaled_bound(f, s.x);
    lemma_fx_mul_scaled_bound(f, s.y);
    lemma_fx_mul_scaled_bound(f, s.z);
    assert(d.x * d.x * (big * big) <= f * f * (s.x * s.x)) by (nonlinear_arith)
        requires
            iabs(d.x) == (if d.x < 0 { -d.x } else { d.x }),
            iabs(s.x) == (if s.x < 0 { -s.x } else { s.x }),
            iabs(d.x) * big <= f * iabs(s.x),
            f >= 0,
            big >= 0,
    ;
    assert(d.y * d.y * (big * big) <= f * f * (s.y * s.y)) by (nonlinear_arith)
        requires
            iabs(d.y) == (if d.y < 0 { -d.y } else { d.y }),
            iabs(s.y) == (if s.y < 0 { -s.y } else { s.y }),
            iabs(d.y) * big <= f * iabs(s.y),
            f >= 0,
            big >= 0,
    ;
    assert(d.z * d.z * (big * big) <= f * f * (s.z * s.z)) by (nonlinear_arith)
        requires
            iabs(d.z) == (if d.z < 0 { -d.z } else { d.z }),
            iabs(s.z) == (if s.z < 0 { -s.z } else { s.z }),
            iabs(d.z) * big <= f * iabs(s.z),
            f >= 0,
            big >= 0,
    ;
    let sd = d.x * d.x + d.y * d.y + d.z * d.z;
    let ss = s.x * s.x + s.y * s.y + s.z * s.z;
    let x = v3_len_sq(d);
    lemma_len_sq_lower_scaled(d);
    lemma_len_sq_upper_scaled(s);
    assert(sd * (big * big) <= f * f * ss) by (nonlinear_arith)
        requires
            sd == d.x * d.x + d.y * d.y + d.z * d.z,
            ss == s.x * s.x + s.y * s.y + s.z * s.z,
            d.x * d.x * (big * big) <= f * f * (s.x * s.x),
            d.y * d.y * (big * big) <= f * f * (s.y * s.y),
            d.z * d.z * (big * big) <= f * f * (s.z * s.z),
    ;
    assert(x * big * (big * big) <= sd * (big * big)) by (nonlinear_arith)
        requires
            x * big <= sd,
            big == 65536,
    ;
    assert(f * f >= 0) by (nonlinear_arith);
    assert(f * f * ss <= f * f * ((v3_len_sq(s) + 3) * big)) by (nonlinear_arith)
        requires
            ss <= (v3_len_sq(s) + 3) * big,
            f * f >= 0,
    ;
    assert(x * big * big <= f * f * (v3_len_sq(s) + 3)) by (nonlinear_arith)
        requires
            x * big * (big * big) <= f * f * ((v3_len_sq(s) + 3) * big),
            big == 65536,
    ;
}

impl Vector3 {
    pub fn new(x: i64, y: i64, z: i64) -> (r: Vector3)
        ensures
            r@ == (V3 { x: x as int, y: y as int, z: z as int }),
    {
        Vector3 { x, y, z }
    }

    /// A vector with every coordinate drawn uniformly from `min..=max`.
    pub fn rand(rng: &mut rand::rngs::StdRng, min: i64, max: i64) -> (r: Vector3)
        requires
            min <= max,
            max < i64::MAX,
        ensures
            min <= r.x <= max,
            min <= r.y <= max,
            min <= r.z <= max,
    {
        Vector3 {
            x: rng_range(rng, min, max + 1),
            y: rng_range(rng, min, max + 1),
            z: rng_range(rng, min, max + 1),
        }
    }

    pub fn add(self, rhs: Vector3) -> (r: Vector3)
        ensures
            r@ == v3_add(self@, rhs@),
    {
        Vector3 {
            x: fx_add(self.x, rhs.x),
            y: fx_add(self.y, rhs.y),
            z: fx_add(self.z, rhs.z),
        }
    }

    pub fn sub(self, rhs: Vector3) -> (r: Vector3)
        ensures
            r@ == v3_sub(self@, rhs@),
    {
        Vector3 {
            x: fx_sub(self.x, rhs.x),
            y: fx_sub(self.y, rhs.y),
            z: fx_sub(self.z, rhs.z),
        }
    }

    pub fn neg(self) -> (r: Vector3)
        ensures
            r@ == v3_neg(self@),
    {
        Vector3 { x: fx_neg(self.x), y: fx_neg(self.y), z: fx_neg(self.z) }
    }

    /// Scalar times vector.
    pub fn scale(self, s: i64) -> (r: Vector3)
        ensures
            r@ == v3_scale(s as int, self@),
    {
        Vector3 { x: fx_mul(s, self.x), y: fx_mul(s, self.y), z: fx_mul(s, self.z) }
    }

    /// Componentwise product.
    pub fn mul(self, rhs: Vector3) -> (r: Vector3)
        ensures
            r@ == v3_compmul(self@, rhs@),
    {
        Vector3 {
            x: fx_mul(self.x, rhs.x),
            y: fx_mul(self.y, rhs.y),
            z: fx_mul(self.z, rhs.z),
        }
    }

    /// Vector divided by a scalar.
    pub fn div(self, s: i64) -> (r: Vector3)
        requires
            s != 0,
        ensures
            r@ == v3_divs(self@, s as int),
    {
        Vector3 { x: fx_div(self.x, s), y: fx_div(self.y, s), z: fx_div(self.z, s) }
    }

    pub fn dot(self, v: Vector3) -> (r: i64)
        ensures
            r as int == v3_dot(self@, v@),
    {
        fx_add(fx_add(fx_mul(self.x, v.x), fx_mul(self.y, v.y)), fx_mul(self.z, v.z))
    }

    pub fn cross(self, v: Vector3) -> (r: Vector3)
        ensures
            r@ == v3_cross(self@, v@),
    {
        Vector3 {
            x: fx_sub(fx_mul(self.y, v.z), fx_mul(self.z, v.y)),
            y: fx_sub(fx_mul(self.z, v.x), fx_mul(self.x, v.z)),
            z: fx_sub(fx_mul(self.x, v.y), fx_mul(self.y, v.x)),
        }
    }

    pub fn length_squared(self) -> (r: i64)
        ensures
            r as int == v3_len_sq(self@),
            0 <= r <= FX_MAX,
    {
        proof {
            lemma_len_sq_nonneg(self@);
        }
        self.dot(self)
    }

    pub fn length(self) -> (r: i64)
        ensures
            r as int == v3_len(self@),
            0 <= r <= FX_MAX,
    {
        let ls = self.length_squared();
        fx_sqrt(ls)
    }

    pub fn normalized(self) -> (r: Vector3)
        requires
            v3_len_sq(self@) > 0,
        ensures
            r@ == v3_unit(self@),
    {
        let len = self.length();
        proof {
            lemma_len_positive(self@);
        }
        self.div(len)
    }
}

/// A scattering offset: a point of the unit ball, or a point of its surface
/// when the raw draw lands outside the ball. Either way the squared length
/// stays within the unit ball's, up to eight steps of rounding.
pub fn random_in_unit_sphere(rng: &mut rand::rngs::StdRng) -> (r: Vector3)
    ensures
        unit_sample(r@),
{
    let p = Vector3::rand(rng, -ONE, ONE);
    let ls = p.length_squared();
    if ls <= ONE {
        p
    } else {
        proof {
            lemma_len_at_least_one(p@);
            lemma_fx_div_small(p@.x, v3_len(p@));
            lemma_fx_div_small(p@.y, v3_len(p@));
            lemma_fx_div_small(p@.z, v3_len(p@));
            lemma_normalized_in_unit_ball(p@);
        }
        p.normalized()
    }
}

} // verus!
