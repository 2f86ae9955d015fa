//! Forces and velocities in the plane.

use vstd::prelude::*;
use crate::fixed::{
    clamp, lemma_product_bound, sat_add, sat_div, sat_mul, sat_mul_div, sat_sub, Fixed, LIMIT,
};

verus! {

/// The mathematical value of a [`Vector2D`]: its two raw components.
pub struct VectorView {
    pub x: int,
    pub y: int,
}

/// Component-wise saturating sum.
pub open spec fn vec_add(a: VectorView, b: VectorView) -> VectorView {
    VectorView { x: sat_add(a.x, b.x), y: sat_add(a.y, b.y) }
}

/// Component-wise saturating difference.
pub open spec fn vec_sub(a: VectorView, b: VectorView) -> VectorView {
    VectorView { x: sat_sub(a.x, b.x), y: sat_sub(a.y, b.y) }
}

/// The opposite vector.
pub open spec fn vec_neg(a: VectorView) -> VectorView {
    VectorView { x: -a.x, y: -a.y }
}

/// Both components multiplied by the fixed-point number `k`.
pub open spec fn vec_scale(a: VectorView, k: int) -> VectorView {
    VectorView { x: sat_mul(a.x, k), y: sat_mul(a.y, k) }
}

/// Both components divided by the fixed-point number `k`. Only meaningful
/// for `k != 0`.
pub open spec fn vec_div(a: VectorView, k: int) -> VectorView {
    VectorView { x: sat_div(a.x, k), y: sat_div(a.y, k) }
}

/// Both components multiplied by `n` and divided by `d`, with one rounding.
/// Only meaningful for `d != 0`.
pub open spec fn vec_mul_div(a: VectorView, n: int, d: int) -> VectorView {
    VectorView { x: sat_mul_div(a.x, n, d), y: sat_mul_div(a.y, n, d) }
}

/// `r` is the integer square root of `n`, rounded down.
pub open spec fn is_floor_sqrt(n: int, r: int) -> bool {
    0 <= r && r * r <= n < (r + 1) * (r + 1)
}

/// The integer square root of `n`, rounded down. Only meaningful for `n >= 0`.
pub open spec fn floor_sqrt(n: int) -> int {
    choose|r: int| is_floor_sqrt(n, r)
}

/// The Euclidean norm, rounded down to a millionth and saturated.
pub open spec fn vec_magnitude(a: VectorView) -> int {
    clamp(floor_sqrt(a.x * a.x + a.y * a.y))
}

/// A force or a velocity.
#[derive(Clone, Copy, Debug, PartialEq, Eq, Structural)]
pub struct Vector2D {
    x: Fixed,
    y: Fixed,
}

impl View for Vector2D {
    type V = VectorView;

    closed spec fn view(&self) -> VectorView {
        VectorView { x: self.x@, y: self.y@ }
    }
}

impl Vector2D {
    /// The zero vector.
    pub fn empty() -> (v: Self)
        ensures
            v@ == (VectorView { x: 0, y: 0 }),
    {
        Self { x: Fixed::zero(), y: Fixed::zero() }
    }

    /// The vector with components `x` and `y`.
    pub fn new(x: Fixed, y: Fixed) -> (v: Self)
        ensures
            v@ == (VectorView { x: x@, y: y@ }),
    {
        Self { x, y }
    }

    /// The first component.
    pub fn get_x(&self) -> (x: Fixed)
        ensures
            x@ == self@.x,
    {
        self.x
    }

    /// The second component.
    pub fn get_y(&self) -> (y: Fixed)
        ensures
            y@ == self@.y,
    {
        self.y
    }

    /// Both components divided by `scalar`, which must not be zero.
    pub fn div(&self, scalar: Fixed) -> (v: Self)
        requires
            scalar@ != 0,
        ensures
            v@ == vec_div(self@, scalar@),
    {
        Self { x: self.x.div(scalar), y: self.y.div(scalar) }
    }

    /// Both components multiplied by `scalar`.
    pub fn mul(&self, scalar: Fixed) -> (v: Self)
        ensures
            v@ == vec_scale(self@, scalar@),
    {
        Self { x: self.x.mul(scalar), y: self.y.mul(scalar) }
    }

    /// Both components multiplied by `num` and divided by `den`, which must
    /// not be zero; the quotient is rounded once.
    pub fn mul_div(&self, num: Fixed, den: Fixed) -> (v: Self)
        requires
            den@ != 0,
        ensures
            v@ == vec_mul_div(self@, num@, den@),
    {
        Self { x: self.x.mul_div(num, den), y: self.y.mul_div(num, den) }
    }

    /// The velocity that this force gives to a body of mass `mass`, which
    /// must not be zero.
    pub fn as_speed(&self, mass: Fixed) -> (v: Self)
        requires
            mass@ != 0,
        ensures
            v@ == vec_div(self@, mass@),
    {
        Self { x: self.x.div(mass), y: self.y.div(mass) }
    }

    /// The component-wise sum.
    pub fn add(self, rhs: Self) -> (v: Self)
        ensures
            v@ == vec_add(self@, rhs@),
    {
        Self { x: self.x.add(rhs.x), y: self.y.add(rhs.y) }
    }

    /// Adds `rhs` to this vector.
    pub fn add_assign(&mut self, rhs: Self)
        ensures
            final(self)@ == vec_add(old(self)@, rhs@),
    {
        self.x = self.x.add(rhs.x);
        self.y = self.y.add(rhs.y);
    }

    /// The component-wise difference.
    pub fn sub(self, rhs: Self) -> (v: Self)
        ensures
            v@ == vec_sub(self@, rhs@),
    {
        Self { x: self.x.sub(rhs.x), y: self.y.sub(rhs.y) }
    }

    /// Subtracts `rhs` from this vector.
    pub fn sub_assign(&mut self, rhs: Self)
        ensures
            final(self)@ == vec_sub(old(self)@, rhs@),
    {
        self.x = self.x.sub(rhs.x);
        self.y = self.y.sub(rhs.y);
    }

    /// The opposite vector.
    pub fn neg(self) -> (v: Self)
        ensures
            v@ == vec_neg(self@),
    {
        Self { x: self.x.neg(), y: self.y.neg() }
    }

    /// The Euclidean norm.
    pub fn magnitude(&self) -> (m: Fixed)
        ensures
            m@ == vec_magnitude(self@),
            is_floor_sqrt(
                self@.x * self@.x + self@.y * self@.y,
                floor_sqrt(self@.x * self@.x + self@.y * self@.y),
            ),
    {
        let x: i128 = self.x.raw() as i128;
        let y: i128 = self.y.raw() as i128;
        proof {
            lemma_product_bound(x as int, x as int, LIMIT as int, LIMIT as int);
            lemma_product_bound(y as int, y as int, LIMIT as int, LIMIT as int);
            assert(x * x >= 0 && y * y >= 0) by (nonlinear_arith);
        }
        let square: u128 = (x * x + y * y) as u128;
        let root: u64 = integer_sqrt(square);
        proof {
            lemma_floor_sqrt_unique(square as int, root as int, floor_sqrt(square as int));
        }
        if root > LIMIT as u64 {
            Fixed::from_raw(LIMIT)
        } else {
            Fixed::from_raw(root as i64)
        }
    }
}

/// The largest square that the search for a root has to compare with.
const ROOT_BOUND: u64 = 0x2000_0000_0000_0000;

/// The integer square root of `n`, rounded down.
fn integer_sqrt(n: u128) -> (r: u64)
    requires
        n <= 2 * LIMIT * LIMIT,
    ensures
        is_floor_sqrt(n as int, r as int),
{
    let mut low: u64 = 0;
    let mut high: u64 = ROOT_BOUND;
    assert(n < (ROOT_BOUND as int) * (ROOT_BOUND as int)) by (nonlinear_arith)
        requires
            n <= 2 * LIMIT * LIMIT,
            LIMIT == 1_000_000_000_000_000_000,
            ROOT_BOUND == 0x2000_0000_0000_0000,
    ;
    while high - low > 1
        invariant
            low < high <= ROOT_BOUND,
            (low as int) * (low as int) <= n,
            n < (high as int) * (high as int),
        decreases high - low,
    {
        let mid: u64 = low + (high - low) / 2;
        assert((mid as int) * (mid as int) < (ROOT_BOUND as int) * (ROOT_BOUND as int))
            by (nonlinear_arith)
            requires
                0 <= mid < ROOT_BOUND,
        ;
        assert((ROOT_BOUND as int) * (ROOT_BOUND as int)
            == 0x400_0000_0000_0000_0000_0000_0000_0000int);
        let square: u128 = (mid as u128) * (mid as u128);
        if square <= n {
            low = mid;
        } else {
            high = mid;
        }
    }
    low
}

/// A number has at most one integer square root.
pub proof fn lemma_floor_sqrt_unique(n: int, r: int, s: int)
    by (nonlinear_arith)
    requires
        is_floor_sqrt(n, r),
        is_floor_sqrt(n, s) || s == floor_sqrt(n),
    ensures
        r == s,
{
}

} // verus!
