//! Saturating decimal fixed-point numbers.
//!
//! Every coordinate, force component, mass and time step of the simulation is a
//! [`Fixed`]: a signed count of millionths. All arithmetic is stated over the
//! mathematical integer behind a value (its view) and saturates at
//! [`LIMIT`] instead of wrapping, so no operation can overflow or panic.

use vstd::prelude::*;

verus! {

/// Raw counts per whole unit: a raw value `r` stands for the number `r / SCALE`.
pub const SCALE: i64 = 1_000_000;

/// Largest magnitude a raw value can take. It is a whole number of units and
/// small enough that a sum of two products of coordinate differences fits in
/// 128 bits.
pub const LIMIT: i64 = 1_000_000_000_000_000_000;

/// `v` brought into `[-LIMIT, LIMIT]`.
pub open spec fn clamp(v: int) -> int {
    if v > LIMIT as int {
        LIMIT as int
    } else if v < -(LIMIT as int) {
        -(LIMIT as int)
    } else {
        v
    }
}

/// Whether `v` is a raw value that a [`Fixed`] can hold.
pub open spec fn in_range(v: int) -> bool {
    -(LIMIT as int) <= v <= LIMIT as int
}

/// The quotient `n / d` rounded toward zero. Only meaningful for `d != 0`.
pub open spec fn trunc_div(n: int, d: int) -> int {
    if d > 0 {
        if n >= 0 {
            n / d
        } else {
            -((-n) / d)
        }
    } else {
        if n >= 0 {
            -(n / (-d))
        } else {
            (-n) / (-d)
        }
    }
}

/// Saturating sum of two raw values.
pub open spec fn sat_add(a: int, b: int) -> int {
    clamp(a + b)
}

/// Saturating difference of two raw values.
pub open spec fn sat_sub(a: int, b: int) -> int {
    clamp(a - b)
}

/// Saturating fixed-point product: the exact product of the two numbers,
/// rounded toward zero to a millionth.
pub open spec fn sat_mul(a: int, b: int) -> int {
    clamp(trunc_div(a * b, SCALE as int))
}

/// Saturating fixed-point quotient: the exact quotient of the two numbers,
/// rounded toward zero to a millionth. Only meaningful for `b != 0`.
pub open spec fn sat_div(a: int, b: int) -> int {
    clamp(trunc_div(a * (SCALE as int), b))
}

/// The product of `a` and `n` divided by `d`: the exact value of
/// `a * n / d`, rounded toward zero to a millionth once, and saturated. Only
/// meaningful for `d != 0`.
pub open spec fn sat_mul_div(a: int, n: int, d: int) -> int {
    clamp(trunc_div(a * n, d))
}

/// The whole number of units nearest to `v`, as a raw value; halves go away
/// from zero.
pub open spec fn round_units(v: int) -> int {
    if v >= 0 {
        ((v + (SCALE as int) / 2) / (SCALE as int)) * (SCALE as int)
    } else {
        -((((-v) + (SCALE as int) / 2) / (SCALE as int)) * (SCALE as int))
    }
}

/// The smaller of two integers.
pub open spec fn min_int(a: int, b: int) -> int {
    if a <= b {
        a
    } else {
        b
    }
}

/// The larger of two integers.
pub open spec fn max_int(a: int, b: int) -> int {
    if a >= b {
        a
    } else {
        b
    }
}

/// The magnitude of an integer.
pub open spec fn abs_int(a: int) -> int {
    if a >= 0 {
        a
    } else {
        -a
    }
}

/// A fixed-point number with six decimal places and magnitude at most
/// `LIMIT / SCALE`.
#[derive(Clone, Copy, Debug, PartialEq, Eq, Structural)]
pub struct Fixed {
    raw: i64,
}

impl View for Fixed {
    type V = int;

    /// The raw value: the number times [`SCALE`].
    closed spec fn view(&self) -> int {
        self.raw as int
    }
}

impl Fixed {
    #[verifier::type_invariant]
    spec fn bounded(self) -> bool {
        in_range(self.raw as int)
    }

    /// The number with the given raw value, saturated to the representable range.
    pub fn from_raw(raw: i64) -> (r: Fixed)
        ensures
            r@ == clamp(raw as int),
    {
        if raw > LIMIT {
            Fixed { raw: LIMIT }
        } else if raw < -LIMIT {
            Fixed { raw: -LIMIT }
        } else {
            Fixed { raw }
        }
    }

    /// The whole number `units`, saturated to the representable range.
    pub fn from_int(units: i64) -> (r: Fixed)
        ensures
            r@ == clamp(units * (SCALE as int)),
    {
        assert(-0x8000_0000_0000_0000 * 1_000_000 <= units * (SCALE as int)
            <= 0x8000_0000_0000_0000 * 1_000_000);
        let wide: i128 = (units as i128) * (SCALE as i128);
        Self::saturate(wide)
    }

    /// Zero.
    pub fn zero() -> (r: Fixed)
        ensures
            r@ == 0,
    {
        Fixed { raw: 0 }
    }

    /// The raw value, always within `[-LIMIT, LIMIT]`.
    pub fn raw(&self) -> (r: i64)
        ensures
            r as int == self@,
            in_range(self@),
    {
        proof {
            use_type_invariant(self);
        }
        self.raw
    }

    fn saturate(wide: i128) -> (r: Fixed)
        ensures
            r@ == clamp(wide as int),
    {
        if wide > LIMIT as i128 {
            Fixed { raw: LIMIT }
        } else if wide < -(LIMIT as i128) {
            Fixed { raw: -LIMIT }
        } else {
            Fixed { raw: wide as i64 }
        }
    }

    /// Saturating addition.
    pub fn add(self, rhs: Fixed) -> (r: Fixed)
        ensures
            r@ == sat_add(self@, rhs@),
    {
        let a: i64 = self.raw();
        let b: i64 = rhs.raw();
        Self::from_raw(a + b)
    }

    /// Saturating subtraction.
    pub fn sub(self, rhs: Fixed) -> (r: Fixed)
        ensures
            r@ == sat_sub(self@, rhs@),
    {
        let a: i64 = self.raw();
        let b: i64 = rhs.raw();
        Self::from_raw(a - b)
    }

    /// Negation, which is exact because the range is symmetric.
    pub fn neg(self) -> (r: Fixed)
        ensures
            r@ == -self@,
    {
        let a: i64 = self.raw();
        Fixed { raw: -a }
    }

    /// Saturating multiplication, rounded toward zero.
    pub fn mul(self, rhs: Fixed) -> (r: Fixed)
        ensures
            r@ == sat_mul(self@, rhs@),
    {
        let a: i128 = self.raw() as i128;
        let b: i128 = rhs.raw() as i128;
        proof {
            lemma_product_bound(a as int, b as int, LIMIT as int, LIMIT as int);
        }
        let product: i128 = a * b;
        Self::saturate(product / (SCALE as i128))
    }

    /// Saturating division, rounded toward zero.
    pub fn div(self, rhs: Fixed) -> (r: Fixed)
        requires
            rhs@ != 0,
        ensures
            r@ == sat_div(self@, rhs@),
    {
        let a: i128 = self.raw() as i128;
        proof {
            lemma_product_bound(a as int, SCALE as int, LIMIT as int, SCALE as int);
        }
        let n: i128 = a * (SCALE as i128);
        let d: i128 = rhs.raw() as i128;
        let q: i128 = if d > 0 {
            n / d
        } else {
            (-n) / (-d)
        };
        proof {
            lemma_trunc_div_bound(n as int, d as int);
        }
        Self::saturate(q)
    }

    /// This number times `num` over `den`, rounded toward zero once and
    /// saturated.
    pub fn mul_div(self, num: Fixed, den: Fixed) -> (r: Fixed)
        requires
            den@ != 0,
        ensures
            r@ == sat_mul_div(self@, num@, den@),
    {
        let a: i128 = self.raw() as i128;
        let b: i128 = num.raw() as i128;
        proof {
            lemma_product_bound(a as int, b as int, LIMIT as int, LIMIT as int);
        }
        let n: i128 = a * b;
        let d: i128 = den.raw() as i128;
        let q: i128 = if d > 0 {
            n / d
        } else {
            (-n) / (-d)
        };
        proof {
            lemma_trunc_div_bound(n as int, d as int);
        }
        Self::saturate(q)
    }

    /// The nearest whole number; halves go away from zero.
    pub fn round(self) -> (r: Fixed)
        ensures
            r@ == round_units(self@),
    {
        let a: i64 = self.raw();
        let half: i64 = SCALE / 2;
        if a >= 0 {
            let units: i64 = (a + half) / SCALE;
            assert(units <= LIMIT / SCALE);
            Fixed { raw: units * SCALE }
        } else {
            let units: i64 = ((-a) + half) / SCALE;
            assert(units <= LIMIT / SCALE);
            Fixed { raw: -(units * SCALE) }
        }
    }

    /// The smaller of two numbers.
    pub fn min(self, rhs: Fixed) -> (r: Fixed)
        ensures
            r@ == min_int(self@, rhs@),
    {
        if self.raw() <= rhs.raw() {
            self
        } else {
            rhs
        }
    }

    /// The larger of two numbers.
    pub fn max(self, rhs: Fixed) -> (r: Fixed)
        ensures
            r@ == max_int(self@, rhs@),
    {
        if self.raw() >= rhs.raw() {
            self
        } else {
            rhs
        }
    }
}

/// The product of two bounded integers is bounded by the product of the bounds.
pub proof fn lemma_product_bound(a: int, b: int, bound_a: int, bound_b: int)
    by (nonlinear_arith)
    requires
        -bound_a <= a <= bound_a,
        -bound_b <= b <= bound_b,
    ensures
        -(bound_a * bound_b) <= a * b <= bound_a * bound_b,
{
}

/// Rounding a quotient toward zero never increases its magnitude beyond the
/// numerator's.
pub proof fn lemma_trunc_div_bound(n: int, d: int)
    by (nonlinear_arith)
    requires
        d != 0,
    ensures
        -abs_int(n) <= trunc_div(n, d) <= abs_int(n),
{
}

/// Swapping the signs of numerator and denominator together leaves the
/// truncated quotient unchanged; swapping one of them negates it.
pub proof fn lemma_trunc_div_signs(n: int, d: int)
    requires
        d != 0,
    ensures
        trunc_div(-n, -d) == trunc_div(n, d),
        trunc_div(-n, d) == -trunc_div(n, d),
        trunc_div(n, -d) == -trunc_div(n, d),
{
}

/// A product with zero is zero.
pub proof fn lemma_mul_by_zero(a: int)
    ensures
        sat_mul(a, 0) == 0,
        sat_mul(0, a) == 0,
{
    assert(a * 0 == 0 && 0 * a == 0) by (nonlinear_arith);
}

/// Clamping commutes with negation.
pub proof fn lemma_clamp_neg(v: int)
    ensures
        clamp(-v) == -clamp(v),
{
}

} // verus!
