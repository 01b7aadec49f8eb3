//! Rotations as fixed-point quaternions.
//!
//! A component holds a real number scaled by [`ONE`]; every operation is
//! integer arithmetic, rounded toward zero.

use vstd::prelude::*;
use crate::arith::{
    clamp, clamp_spec, div_toward_zero, div_trunc, is_isqrt, isqrt, isqrt_spec, lemma_div_trunc_bounds,
    lemma_div_trunc_monotone, lemma_isqrt_spec, lemma_mul_bounds,
};

verus! {

/// The fixed-point representation of the number one.
pub const ONE: i64 = 1_000_000;

/// Largest magnitude a component can take.
pub const COMPONENT_LIMIT: i64 = 1_000_000_000_000;

/// Cosine of half a degree, scaled by [`ONE`].
pub const DEGREE_COS: i64 = 999_962;

/// Sine of half a degree, scaled by [`ONE`].
pub const DEGREE_SIN: i64 = 8_727;

/// The interpolation amount that stands for a whole second, in milliseconds.
pub const FULL_AMOUNT: i64 = 1000;

/// A quaternion `w + xi + yj + zk` in fixed point.
#[derive(Clone, Copy, Debug)]
pub struct Rotation {
    w: i64,
    x: i64,
    y: i64,
    z: i64,
}

/// The mathematical value of a [`Rotation`]: its four scaled components.
pub struct RotationView {
    pub w: int,
    pub x: int,
    pub y: int,
    pub z: int,
}

/// `c` limited to the range of a component.
pub open spec fn limit(c: int) -> int {
    clamp_spec(c, -(COMPONENT_LIMIT as int), COMPONENT_LIMIT as int)
}

/// All four components are within the component range.
pub open spec fn within_limit(r: RotationView) -> bool {
    &&& -COMPONENT_LIMIT <= r.w <= COMPONENT_LIMIT
    &&& -COMPONENT_LIMIT <= r.x <= COMPONENT_LIMIT
    &&& -COMPONENT_LIMIT <= r.y <= COMPONENT_LIMIT
    &&& -COMPONENT_LIMIT <= r.z <= COMPONENT_LIMIT
}

/// The quaternion with the given components, each limited to the component
/// range.
pub open spec fn new_spec(w: int, x: int, y: int, z: int) -> RotationView {
    RotationView { w: limit(w), x: limit(x), y: limit(y), z: limit(z) }
}

/// The quaternion with all components zero.
pub open spec fn zero_spec() -> RotationView {
    RotationView { w: 0, x: 0, y: 0, z: 0 }
}

/// The rotation that changes nothing.
pub open spec fn identity_spec() -> RotationView {
    RotationView { w: ONE as int, x: 0, y: 0, z: 0 }
}

/// The Hamilton product `a * b`, rescaled and limited component by component.
pub open spec fn compose_spec(a: RotationView, b: RotationView) -> RotationView {
    RotationView {
        w: limit(div_trunc(a.w * b.w - a.x * b.x - a.y * b.y - a.z * b.z, ONE as int)),
        x: limit(div_trunc(a.w * b.x + a.x * b.w + a.y * b.z - a.z * b.y, ONE as int)),
        y: limit(div_trunc(a.w * b.y + a.y * b.w + a.z * b.x - a.x * b.z, ONE as int)),
        z: limit(div_trunc(a.w * b.z + a.z * b.w + a.x * b.y - a.y * b.x, ONE as int)),
    }
}

/// The inverse rotation of a unit quaternion: the vector part negated.
pub open spec fn conjugate_spec(a: RotationView) -> RotationView {
    RotationView { w: a.w, x: -a.x, y: -a.y, z: -a.z }
}

/// Every component negated: the same rotation, the other sign.
pub open spec fn negate_spec(a: RotationView) -> RotationView {
    RotationView { w: -a.w, x: -a.x, y: -a.y, z: -a.z }
}

/// The image of the local forward axis `(0, 1, 0)`, projected on the plane,
/// scaled by [`ONE`].
pub open spec fn forward_spec(a: RotationView) -> (int, int) {
    (
        div_trunc(2 * (a.x * a.y - a.z * a.w), ONE as int),
        div_trunc(ONE * ONE - 2 * (a.x * a.x + a.z * a.z), ONE as int),
    )
}

/// The scalar product of two quaternions, unscaled.
pub open spec fn dot_spec(a: RotationView, b: RotationView) -> int {
    a.w * b.w + a.x * b.x + a.y * b.y + a.z * b.z
}

/// One component of the linear blend of `a` and `b` after `amount`
/// thousandths.
pub open spec fn blend(a: int, b: int, amount: int) -> int {
    limit(div_trunc(a * (FULL_AMOUNT - amount) + b * amount, FULL_AMOUNT as int))
}

/// The linear blend of `a` and `b`, component by component.
pub open spec fn lerp_spec(a: RotationView, b: RotationView, amount: int) -> RotationView {
    RotationView {
        w: blend(a.w, b.w, amount),
        x: blend(a.x, b.x, amount),
        y: blend(a.y, b.y, amount),
        z: blend(a.z, b.z, amount),
    }
}

/// The squared length of a quaternion, unscaled.
pub open spec fn norm_squared(a: RotationView) -> int {
    dot_spec(a, a)
}

/// `a` rescaled to length [`ONE`]; the zero quaternion stays as it is.
pub open spec fn normalize_spec(a: RotationView) -> RotationView {
    let length = isqrt_spec(norm_squared(a));
    if length == 0 {
        a
    } else {
        RotationView {
            w: div_trunc(a.w * ONE, length),
            x: div_trunc(a.x * ONE, length),
            y: div_trunc(a.y * ONE, length),
            z: div_trunc(a.z * ONE, length),
        }
    }
}

/// Normalized linear interpolation from `a` toward `b` along the shorter
/// arc: `b` is negated first when it points away from `a`.
pub open spec fn nlerp_spec(a: RotationView, b: RotationView, amount: int) -> RotationView {
    let target = if dot_spec(a, b) < 0 {
        negate_spec(b)
    } else {
        b
    };
    normalize_spec(lerp_spec(a, target, amount))
}

/// `base` composed with itself `n` times, by repeated squaring; the result
/// of every step is rescaled to length [`ONE`], so that rounding does not
/// add up in the length.
pub open spec fn power_spec(base: RotationView, n: nat) -> RotationView
    decreases n,
{
    if n == 0 {
        identity_spec()
    } else {
        let half = power_spec(base, n / 2);
        let squared = normalize_spec(compose_spec(half, half));
        if n % 2 == 1 {
            normalize_spec(compose_spec(squared, base))
        } else {
            squared
        }
    }
}

/// The rotation by one degree about the axis that points out of the plane.
pub open spec fn degree_spec() -> RotationView {
    new_spec(DEGREE_COS as int, 0, 0, DEGREE_SIN as int)
}

/// The rotation by `degrees` about the axis that points out of the plane:
/// the rotation by one degree, once for every degree; for a negative angle
/// the inverse of the rotation by the positive one.
pub open spec fn from_angle_z_spec(degrees: int) -> RotationView {
    if degrees >= 0 {
        power_spec(degree_spec(), degrees as nat)
    } else {
        conjugate_spec(power_spec(degree_spec(), (-degrees) as nat))
    }
}

/// The rotation by `degrees` about `axis`, whose components are scaled by
/// [`ONE`]: the scalar part of the rotation by that angle in the plane, and
/// the axis scaled by its vector part. The axis is taken as it is, of
/// whatever length.
pub open spec fn from_axis_angle_spec(axis: (int, int, int), degrees: int) -> RotationView {
    let turn = from_angle_z_spec(degrees);
    RotationView {
        w: turn.w,
        x: limit(div_trunc(axis.0 * turn.z, ONE as int)),
        y: limit(div_trunc(axis.1 * turn.z, ONE as int)),
        z: limit(div_trunc(axis.2 * turn.z, ONE as int)),
    }
}

/// A product of two components stays within the square of the limit.
proof fn lemma_component_product(a: int, b: int)
    requires
        -COMPONENT_LIMIT <= a <= COMPONENT_LIMIT,
        -COMPONENT_LIMIT <= b <= COMPONENT_LIMIT,
    ensures
        -1_000_000_000_000_000_000_000_000 <= a * b <= 1_000_000_000_000_000_000_000_000,
{
    lemma_mul_bounds(a, b, COMPONENT_LIMIT as int, COMPONENT_LIMIT as int);
}

/// A component of a quaternion is no longer than the quaternion.
proof fn lemma_component_below_length(c: int, rest: int, length: int)
    requires
        0 <= rest,
        is_isqrt(c * c + rest, length),
    ensures
        -length <= c <= length,
{
    if c > length {
        assert((length + 1) * (length + 1) <= c * c) by (nonlinear_arith)
            requires
                0 <= length,
                length + 1 <= c,
        ;
    }
    if c < -length {
        assert((length + 1) * (length + 1) <= c * c) by (nonlinear_arith)
            requires
                0 <= length,
                c <= -(length + 1),
        ;
    }
}

/// Rescaling a component by the quaternion's length keeps it within [`ONE`].
proof fn lemma_rescaled_component(c: int, length: int)
    requires
        0 < length,
        -length <= c <= length,
    ensures
        -ONE <= div_trunc(c * ONE, length) <= ONE,
{
    lemma_div_trunc_monotone(c * ONE, length * ONE, length);
    lemma_div_trunc_monotone(-(length * ONE), c * ONE, length);
    assert(div_trunc(length * ONE, length) == ONE) by (nonlinear_arith)
        requires
            0 < length,
    ;
    assert(div_trunc(-(length * ONE), length) == -ONE) by (nonlinear_arith)
        requires
            0 < length,
    ;
}

impl View for Rotation {
    type V = RotationView;

    closed spec fn view(&self) -> RotationView {
        RotationView { w: self.w as int, x: self.x as int, y: self.y as int, z: self.z as int }
    }
}

impl Rotation {
    #[verifier::type_invariant]
    closed spec fn bounded(self) -> bool {
        within_limit(self@)
    }

    /// The rotation with the given components; meaningful for components
    /// within the component range.
    pub closed spec fn from_view(v: RotationView) -> Rotation {
        Rotation { w: v.w as i64, x: v.x as i64, y: v.y as i64, z: v.z as i64 }
    }

    /// Components within the range are the components of the rotation made
    /// from them.
    pub proof fn lemma_from_view(v: RotationView)
        requires
            within_limit(v),
        ensures
            Self::from_view(v)@ == v,
    {
    }

    /// A rotation is determined by its components.
    pub proof fn lemma_view_injective(a: Rotation, b: Rotation)
        ensures
            Self::from_view(a@) == a,
            a@ == b@ ==> a == b,
    {
    }

    /// The quaternion with the given components, each limited to the
    /// component range.
    pub fn new(w: i64, x: i64, y: i64, z: i64) -> (r: Rotation)
        ensures
            r@ == new_spec(w as int, x as int, y as int, z as int),
            r == Self::from_view(new_spec(w as int, x as int, y as int, z as int)),
    {
        Rotation {
            w: clamp(w as i128, -COMPONENT_LIMIT, COMPONENT_LIMIT),
            x: clamp(x as i128, -COMPONENT_LIMIT, COMPONENT_LIMIT),
            y: clamp(y as i128, -COMPONENT_LIMIT, COMPONENT_LIMIT),
            z: clamp(z as i128, -COMPONENT_LIMIT, COMPONENT_LIMIT),
        }
    }

    /// The rotation that changes nothing.
    pub fn identity() -> (r: Rotation)
        ensures
            r@ == identity_spec(),
            r == Self::from_view(identity_spec()),
    {
        Rotation { w: ONE, x: 0, y: 0, z: 0 }
    }

    /// The quaternion with all components zero. It stands for "no angular
    /// velocity": composing with it gives zero again.
    pub fn zero() -> (r: Rotation)
        ensures
            r@ == zero_spec(),
            r == Self::from_view(zero_spec()),
    {
        Rotation { w: 0, x: 0, y: 0, z: 0 }
    }

    /// The four components `(w, x, y, z)`.
    pub fn components(&self) -> (c: (i64, i64, i64, i64))
        ensures
            c.0 == self@.w,
            c.1 == self@.x,
            c.2 == self@.y,
            c.3 == self@.z,
            within_limit(self@),
    {
        proof {
            use_type_invariant(self);
        }
        (self.w, self.x, self.y, self.z)
    }

    /// The vector part negated.
    pub fn conjugate(&self) -> (r: Rotation)
        ensures
            r@ == conjugate_spec(self@),
            r == Self::from_view(conjugate_spec(self@)),
    {
        proof {
            use_type_invariant(self);
        }
        Rotation { w: self.w, x: -self.x, y: -self.y, z: -self.z }
    }

    /// The product of two components, exactly.
    fn product(a: i64, b: i64) -> (p: i128)
        requires
            -COMPONENT_LIMIT <= a <= COMPONENT_LIMIT,
            -COMPONENT_LIMIT <= b <= COMPONENT_LIMIT,
        ensures
            p == a * b,
            -1_000_000_000_000_000_000_000_000 <= p <= 1_000_000_000_000_000_000_000_000,
    {
        proof {
            lemma_component_product(a as int, b as int);
        }
        (a as i128) * (b as i128)
    }

    /// A wide value rescaled by [`ONE`] and limited to the component range.
    fn rescale(v: i128) -> (c: i64)
        ensures
            c == limit(div_trunc(v as int, ONE as int)),
            -COMPONENT_LIMIT <= c <= COMPONENT_LIMIT,
    {
        clamp(div_toward_zero(v, ONE as i128), -COMPONENT_LIMIT, COMPONENT_LIMIT)
    }

    /// The rotation `other` followed by `self`: the Hamilton product.
    pub fn compose(&self, other: &Rotation) -> (r: Rotation)
        ensures
            r@ == compose_spec(self@, other@),
            r == Self::from_view(compose_spec(self@, other@)),
    {
        proof {
            use_type_invariant(self);
            use_type_invariant(other);
        }
        let a = self;
        let b = other;
        let w = Self::product(a.w, b.w) - Self::product(a.x, b.x) - Self::product(a.y, b.y)
            - Self::product(a.z, b.z);
        let x = Self::product(a.w, b.x) + Self::product(a.x, b.w) + Self::product(a.y, b.z)
            - Self::product(a.z, b.y);
        let y = Self::product(a.w, b.y) + Self::product(a.y, b.w) + Self::product(a.z, b.x)
            - Self::product(a.x, b.z);
        let z = Self::product(a.w, b.z) + Self::product(a.z, b.w) + Self::product(a.x, b.y)
            - Self::product(a.y, b.x);
        Rotation { w: Self::rescale(w), x: Self::rescale(x), y: Self::rescale(y), z: Self::rescale(z) }
    }

    /// The image of the local forward axis, projected on the plane and
    /// scaled by [`ONE`].
    pub fn forward(&self) -> (d: (i64, i64))
        ensures
            (d.0 as int, d.1 as int) == forward_spec(self@),
    {
        proof {
            use_type_invariant(self);
        }
        let side: i128 = 2 * (Self::product(self.x, self.y) - Self::product(self.z, self.w));
        let unit: i128 = 1_000_000_000_000;
        assert(unit == ONE * ONE);
        let ahead: i128 = unit - 2 * (Self::product(self.x, self.x) + Self::product(self.z, self.z));
        proof {
            lemma_div_trunc_bounds(side as int, ONE as int);
            lemma_div_trunc_bounds(ahead as int, ONE as int);
            lemma_div_trunc_monotone(side as int, 4_000_000_000_000_000_000_000_000, ONE as int);
            lemma_div_trunc_monotone(-4_000_000_000_000_000_000_000_000, side as int, ONE as int);
            lemma_div_trunc_monotone(ahead as int, 5_000_000_000_000_000_000_000_000, ONE as int);
            lemma_div_trunc_monotone(-5_000_000_000_000_000_000_000_000, ahead as int, ONE as int);
        }
        (div_toward_zero(side, ONE as i128) as i64, div_toward_zero(ahead, ONE as i128) as i64)
    }

    /// One component of the linear blend.
    fn blend_component(a: i64, b: i64, amount: u64) -> (c: i64)
        requires
            -COMPONENT_LIMIT <= a <= COMPONENT_LIMIT,
            -COMPONENT_LIMIT <= b <= COMPONENT_LIMIT,
        ensures
            c == blend(a as int, b as int, amount as int),
            -COMPONENT_LIMIT <= c <= COMPONENT_LIMIT,
    {
        let rest: i128 = FULL_AMOUNT as i128 - amount as i128;
        proof {
            lemma_mul_bounds(a as int, rest as int, COMPONENT_LIMIT as int, 0x1_0000_0000_0000_0000);
            lemma_mul_bounds(b as int, amount as int, COMPONENT_LIMIT as int, 0x1_0000_0000_0000_0000);
        }
        let sum: i128 = (a as i128) * rest + (b as i128) * (amount as i128);
        clamp(div_toward_zero(sum, FULL_AMOUNT as i128), -COMPONENT_LIMIT, COMPONENT_LIMIT)
    }

    /// The quaternion rescaled to length [`ONE`]; zero stays zero.
    pub fn normalized(&self) -> (r: Rotation)
        ensures
            r@ == normalize_spec(self@),
            r == Self::from_view(normalize_spec(self@)),
    {
        proof {
            use_type_invariant(self);
        }
        let ww = Self::product(self.w, self.w);
        let xx = Self::product(self.x, self.x);
        let yy = Self::product(self.y, self.y);
        let zz = Self::product(self.z, self.z);
        assert(ww >= 0 && xx >= 0 && yy >= 0 && zz >= 0) by (nonlinear_arith)
            requires
                ww == self.w * self.w,
                xx == self.x * self.x,
                yy == self.y * self.y,
                zz == self.z * self.z,
        ;
        let squared: i128 = ww + xx + yy + zz;
        let length = isqrt(squared as u128);
        proof {
            lemma_isqrt_spec(squared as int, length as int);
        }
        if length == 0 {
            return *self;
        }
        proof {
            let l = length as int;
            lemma_component_below_length(self.w as int, xx + yy + zz, l);
            lemma_component_below_length(self.x as int, ww + yy + zz, l);
            lemma_component_below_length(self.y as int, ww + xx + zz, l);
            lemma_component_below_length(self.z as int, ww + xx + yy, l);
            lemma_rescaled_component(self.w as int, l);
            lemma_rescaled_component(self.x as int, l);
            lemma_rescaled_component(self.y as int, l);
            lemma_rescaled_component(self.z as int, l);
        }
        let l = length as i128;
        Rotation {
            w: div_toward_zero(self.w as i128 * ONE as i128, l) as i64,
            x: div_toward_zero(self.x as i128 * ONE as i128, l) as i64,
            y: div_toward_zero(self.y as i128 * ONE as i128, l) as i64,
            z: div_toward_zero(self.z as i128 * ONE as i128, l) as i64,
        }
    }

    /// The rotation made `n` times in a row.
    pub fn power(&self, n: u64) -> (r: Rotation)
        ensures
            r@ == power_spec(self@, n as nat),
            r == Self::from_view(power_spec(self@, n as nat)),
        decreases n,
    {
        if n == 0 {
            Self::identity()
        } else {
            let half = self.power(n / 2);
            let squared = half.compose(&half).normalized();
            if n % 2 == 1 {
                squared.compose(self).normalized()
            } else {
                squared
            }
        }
    }

    /// The rotation by `degrees` about the axis that points out of the
    /// plane; a positive angle turns counterclockwise.
    pub fn from_angle_z(degrees: i64) -> (r: Rotation)
        ensures
            r@ == from_angle_z_spec(degrees as int),
            r == Self::from_view(from_angle_z_spec(degrees as int)),
    {
        let degree = Rotation::new(DEGREE_COS, 0, 0, DEGREE_SIN);
        if degrees >= 0 {
            degree.power(degrees as u64)
        } else {
            degree.power((-(degrees as i128)) as u64).conjugate()
        }
    }

    /// One component of an axis scaled by the sine of half the angle.
    fn scale_axis(component: i64, sine: i64) -> (c: i64)
        requires
            -COMPONENT_LIMIT <= sine <= COMPONENT_LIMIT,
        ensures
            c == limit(div_trunc(component * sine, ONE as int)),
            -COMPONENT_LIMIT <= c <= COMPONENT_LIMIT,
    {
        proof {
            lemma_mul_bounds(component as int, sine as int, 0x8000_0000_0000_0000, COMPONENT_LIMIT as int);
        }
        Self::rescale((component as i128) * (sine as i128))
    }

    /// The rotation by `degrees` about `axis`, whose components are scaled
    /// by [`ONE`].
    pub fn from_axis_angle(axis: (i64, i64, i64), degrees: i64) -> (r: Rotation)
        ensures
            r@ == from_axis_angle_spec((axis.0 as int, axis.1 as int, axis.2 as int), degrees as int),
            r == Self::from_view(
                from_axis_angle_spec((axis.0 as int, axis.1 as int, axis.2 as int), degrees as int),
            ),
    {
        let turn = Self::from_angle_z(degrees);
        proof {
            use_type_invariant(&turn);
        }
        Rotation {
            w: turn.w,
            x: Self::scale_axis(axis.0, turn.z),
            y: Self::scale_axis(axis.1, turn.z),
            z: Self::scale_axis(axis.2, turn.z),
        }
    }

    /// Normalized linear interpolation from `self` toward `other` by
    /// `amount` thousandths, along the shorter arc.
    pub fn nlerp(&self, other: &Rotation, amount: u64) -> (r: Rotation)
        ensures
            r@ == nlerp_spec(self@, other@, amount as int),
            r == Self::from_view(nlerp_spec(self@, other@, amount as int)),
    {
        proof {
            use_type_invariant(self);
            use_type_invariant(other);
        }
        let dot = Self::product(self.w, other.w) + Self::product(self.x, other.x) + Self::product(
            self.y,
            other.y,
        ) + Self::product(self.z, other.z);
        let target = if dot < 0 {
            Rotation { w: -other.w, x: -other.x, y: -other.y, z: -other.z }
        } else {
            *other
        };
        let blended = Rotation {
            w: Self::blend_component(self.w, target.w, amount),
            x: Self::blend_component(self.x, target.x, amount),
            y: Self::blend_component(self.y, target.y, amount),
            z: Self::blend_component(self.z, target.z, amount),
        };
        blended.normalized()
    }
}

} // verus!
