//! Line segments and the segment/segment contact test.

use vstd::arithmetic::div_mod::lemma_fundamental_div_mod;
use vstd::prelude::*;
use crate::fixed::{
    abs_int, clamp, in_range, lemma_clamp_neg, lemma_trunc_div_signs, max_int, min_int,
    round_units, sat_add, sat_div, sat_mul, sat_sub, trunc_div, Fixed, SCALE,
};
use crate::physics::collision::{Collision, CollisionView};
use crate::physics::point::{Point, PointView};

verus! {

/// The mathematical value of a [`Line`]: its two end points.
pub struct LineView {
    pub a: PointView,
    pub b: PointView,
}

/// The segment through `p` and `q`, with the end of smaller abscissa first
/// (`p` first when the abscissas are equal).
pub open spec fn canonical_line(p: PointView, q: PointView) -> LineView {
    if p.x <= q.x {
        LineView { a: p, b: q }
    } else {
        LineView { a: q, b: p }
    }
}

/// The abscissa of the second end point.
pub open spec fn rightest(l: LineView) -> int {
    l.b.x
}

/// The abscissa of the first end point.
pub open spec fn leftest(l: LineView) -> int {
    l.a.x
}

/// The larger ordinate of the two end points.
pub open spec fn upest(l: LineView) -> int {
    max_int(l.a.y, l.b.y)
}

/// The smaller ordinate of the two end points.
pub open spec fn lowest(l: LineView) -> int {
    min_int(l.a.y, l.b.y)
}

/// The horizontal extent of the segment.
pub open spec fn run(l: LineView) -> int {
    sat_sub(rightest(l), leftest(l))
}

/// A segment is vertical when its horizontal extent rounds to zero units; it
/// then has no slope.
pub open spec fn is_vertical(l: LineView) -> bool {
    round_units(run(l)) == 0
}

/// Rise over run. Only meaningful for a segment that is not vertical.
pub open spec fn slope(l: LineView) -> int {
    sat_div(sat_sub(l.b.y, l.a.y), run(l))
}

/// The slope, or zero for a vertical segment.
pub open spec fn slope_or_zero(l: LineView) -> int {
    if is_vertical(l) {
        0
    } else {
        slope(l)
    }
}

/// The ordinate at which the line through the segment meets the axis of
/// ordinates: the first ordinate less the slope times the first abscissa.
/// Only meaningful for a segment that is not vertical.
pub open spec fn intercept(l: LineView) -> int {
    sat_sub(l.a.y, sat_mul(slope(l), l.a.x))
}

/// The line through the segment sampled at `x`: the first ordinate plus the
/// slope (zero if vertical) times the distance of `x` from the first
/// abscissa.
pub open spec fn sample_at(l: LineView, x: int) -> int {
    sat_add(l.a.y, sat_mul(slope_or_zero(l), sat_sub(x, l.a.x)))
}

/// The bounding boxes of the two segments share no point.
pub open spec fn boxes_disjoint(s: LineView, o: LineView) -> bool {
    ||| leftest(s) > rightest(o)
    ||| rightest(s) < leftest(o)
    ||| upest(s) < lowest(o)
    ||| lowest(s) > upest(o)
}

/// The right end of the interval of abscissas on which both segments are
/// defined.
pub open spec fn shared_max(s: LineView, o: LineView) -> int {
    min_int(rightest(s), rightest(o))
}

/// The left end of the interval of abscissas on which both segments are
/// defined.
pub open spec fn shared_min(s: LineView, o: LineView) -> int {
    max_int(leftest(s), leftest(o))
}

/// The abscissa at which the lines through the two segments are equal: the
/// difference of the intercepts, second less first, over the difference of
/// the slopes, first less second. Only meaningful for two segments with
/// different slopes.
pub open spec fn crossing(s: LineView, o: LineView) -> int {
    sat_div(sat_sub(intercept(o), intercept(s)), sat_sub(slope(s), slope(o)))
}

/// The contact test between segment `s` and segment `o`: `None` when they do
/// not touch, otherwise the abscissa reported for the contact.
///
/// All comparisons but the bounding-box test are made on values rounded to
/// whole units.
///
/// * Disjoint bounding boxes never touch.
/// * Two vertical segments touch when their abscissas round to the same
///   unit; the contact is reported at the first segment's abscissa.
/// * Segments whose shared interval of abscissas rounds to a single unit
///   touch at the right end of that interval.
/// * A vertical and a non-vertical segment do not touch otherwise.
/// * Segments whose slopes round to the same unit touch when their
///   intercepts round to the same unit; the contact is reported at the first
///   segment's start.
/// * Otherwise the contact is at [`crossing`], where the two lines are equal,
///   if that lies within the rounded shared interval.
pub open spec fn line_contact(s: LineView, o: LineView) -> Option<int> {
    if boxes_disjoint(s, o) {
        None
    } else if is_vertical(s) && is_vertical(o) {
        if round_units(s.a.x) == round_units(o.a.x) {
            Some(s.a.x)
        } else {
            None
        }
    } else if round_units(shared_max(s, o)) == round_units(shared_min(s, o)) {
        Some(shared_max(s, o))
    } else if is_vertical(s) || is_vertical(o) {
        None
    } else if round_units(slope(s)) == round_units(slope(o)) {
        if round_units(intercept(s)) == round_units(intercept(o)) {
            Some(s.a.x)
        } else {
            None
        }
    } else {
        let hit = crossing(s, o);
        if round_units(shared_min(s, o)) <= hit <= round_units(shared_max(s, o)) {
            Some(hit)
        } else {
            None
        }
    }
}

/// A segment between two points that live elsewhere. [`Line::new`] puts the
/// end of smaller abscissa first.
#[derive(Clone, Copy, Debug)]
pub struct Line<'a> {
    pub a: &'a Point,
    pub b: &'a Point,
}

impl<'a> View for Line<'a> {
    type V = LineView;

    open spec fn view(&self) -> LineView {
        LineView { a: self.a@, b: self.b@ }
    }
}

impl<'a> Line<'a> {
    /// The segment between `a` and `b`, with the end of smaller abscissa first.
    pub fn new(a: &'a Point, b: &'a Point) -> (line: Line<'a>)
        ensures
            line@ == canonical_line(a@, b@),
            line@.a.x <= line@.b.x,
    {
        if a.x.raw() <= b.x.raw() {
            Line { a, b }
        } else {
            Line { a: b, b: a }
        }
    }

    /// The right-most abscissa.
    pub fn rightest(&self) -> (r: Fixed)
        ensures
            r@ == rightest(self@),
    {
        self.b.x
    }

    /// The left-most abscissa.
    pub fn leftest(&self) -> (r: Fixed)
        ensures
            r@ == leftest(self@),
    {
        self.a.x
    }

    /// The highest ordinate.
    pub fn upest(&self) -> (r: Fixed)
        ensures
            r@ == upest(self@),
    {
        self.a.y.max(self.b.y)
    }

    /// The lowest ordinate.
    pub fn lowest(&self) -> (r: Fixed)
        ensures
            r@ == lowest(self@),
    {
        self.a.y.min(self.b.y)
    }

    /// The slope, or `Err` for a vertical segment, whose slope is undefined:
    /// one whose horizontal extent rounds to zero units.
    pub fn get_steepness(&self) -> (r: Result<Fixed, ()>)
        ensures
            r is Err <==> is_vertical(self@),
            r matches Ok(s) ==> s@ == slope(self@),
    {
        let run = self.rightest().sub(self.leftest());
        if run.round().raw() == 0 {
            return Err(());
        }
        Ok(self.b.y.sub(self.a.y).div(run))
    }

    /// The contact between this segment and `other`, if there is one.
    pub fn collision_with(self, other: Line<'a>) -> (r: Option<Collision<'a>>)
        ensures
            match line_contact(self@, other@) {
                Some(hit) => r matches Some(c) && c@ == (CollisionView {
                    line_a: self@,
                    line_b: other@,
                    hit,
                }),
                None => r is None,
            },
            boxes_disjoint(self@, other@) ==> r is None,
    {
        if self.leftest().raw() > other.rightest().raw()
            || self.rightest().raw() < other.leftest().raw()
            || self.upest().raw() < other.lowest().raw()
            || self.lowest().raw() > other.upest().raw() {
            return None;
        }
        let self_inc = self.get_steepness();
        let other_inc = other.get_steepness();
        if self_inc.is_err() && other_inc.is_err() {
            if self.a.x.round().raw() == other.a.x.round().raw() {
                return Some(Collision::new(self, other, self.a.x));
            }
            return None;
        }
        let def_max = self.rightest().min(other.rightest());
        let def_min = self.leftest().max(other.leftest());
        if def_max.round().raw() == def_min.round().raw() {
            return Some(Collision::new(self, other, def_max));
        }
        match (self_inc, other_inc) {
            (Ok(self_slope), Ok(other_slope)) => {
                let self_start = self.a.y.sub(self_slope.mul(self.a.x));
                let other_start = other.a.y.sub(other_slope.mul(other.a.x));
                if self_slope.round().raw() == other_slope.round().raw() {
                    if self_start.round().raw() == other_start.round().raw() {
                        return Some(Collision::new(self, other, self.a.x));
                    }
                    return None;
                }
                let gap = self_slope.sub(other_slope);
                let hit = other_start.sub(self_start).div(gap);
                if hit.raw() < def_min.round().raw() || hit.raw() > def_max.round().raw() {
                    return None;
                }
                Some(Collision::new(self, other, hit))
            },
            _ => None,
        }
    }

    /// The segment sampled at abscissa `x`.
    pub fn at(&self, x: Fixed) -> (y: Fixed)
        ensures
            y@ == sample_at(self@, x@),
    {
        let steepness = match self.get_steepness() {
            Ok(s) => s,
            Err(_) => Fixed::zero(),
        };
        self.a.y.add(steepness.mul(x.sub(self.a.x)))
    }
}

/// Contact is mutual: whenever `a` touches `b`, `b` touches `a`, though the
/// two may report different abscissas.
pub proof fn lemma_contact_symmetric(a: LineView, b: LineView)
    ensures
        line_contact(a, b) is Some <==> line_contact(b, a) is Some,
{
    if !boxes_disjoint(a, b) && !is_vertical(a) && !is_vertical(b) && round_units(slope(a))
        != round_units(slope(b)) {
        let num = intercept(b) - intercept(a);
        let den = slope(a) - slope(b);
        lemma_clamp_neg(num);
        lemma_clamp_neg(den);
        assert(clamp(den) != 0);
        lemma_trunc_div_signs(clamp(num) * (SCALE as int), clamp(den));
        assert((-clamp(num)) * (SCALE as int) == -(clamp(num) * (SCALE as int)));
        assert(crossing(b, a) == crossing(a, b));
    }
}

/// The remainder that rounding a quotient toward zero leaves is smaller than
/// the divisor.
pub proof fn lemma_trunc_div_remainder(n: int, d: int)
    requires
        d != 0,
    ensures
        abs_int(n - trunc_div(n, d) * d) < abs_int(d),
{
    let m = abs_int(n);
    let e = abs_int(d);
    lemma_fundamental_div_mod(m, e);
    let q = m / e;
    assert(abs_int(m - q * e) < e) by (nonlinear_arith)
        requires
            m == e * q + m % e,
            0 <= m % e < e,
    ;
    assert((-q) * d == -(q * d) && q * (-d) == -(q * d)) by (nonlinear_arith);
}

/// Nothing saturates on the way to the crossing of `s` and `o` and to the
/// samples of both at the crossing, and the two have slopes that differ.
pub open spec fn crossing_is_exact(s: LineView, o: LineView) -> bool {
    let hit = crossing(s, o);
    &&& !is_vertical(s)
    &&& !is_vertical(o)
    &&& slope(s) != slope(o)
    &&& in_range(slope(s) - slope(o))
    &&& in_range(s.a.y - trunc_div(slope(s) * s.a.x, SCALE as int))
    &&& in_range(trunc_div(slope(s) * s.a.x, SCALE as int))
    &&& in_range(o.a.y - trunc_div(slope(o) * o.a.x, SCALE as int))
    &&& in_range(trunc_div(slope(o) * o.a.x, SCALE as int))
    &&& in_range(intercept(o) - intercept(s))
    &&& in_range(trunc_div((intercept(o) - intercept(s)) * (SCALE as int), slope(s) - slope(o)))
    &&& in_range(hit - s.a.x)
    &&& in_range(hit - o.a.x)
    &&& in_range(trunc_div(slope(s) * (hit - s.a.x), SCALE as int))
    &&& in_range(trunc_div(slope(o) * (hit - o.a.x), SCALE as int))
    &&& in_range(s.a.y + trunc_div(slope(s) * (hit - s.a.x), SCALE as int))
    &&& in_range(o.a.y + trunc_div(slope(o) * (hit - o.a.x), SCALE as int))
}

/// The crossing is where the two lines are equal, up to rounding: sampled at
/// the crossing, the two segments differ by less than four millionths and a
/// millionth of the difference of their slopes. This holds while nothing
/// saturates.
pub proof fn lemma_crossing_is_on_both_lines(s: LineView, o: LineView)
    requires
        crossing_is_exact(s, o),
    ensures
        abs_int(sample_at(s, crossing(s, o)) - sample_at(o, crossing(s, o))) * (SCALE as int) < 4
            * (SCALE as int) + abs_int(slope(s) - slope(o)),
{
    let unit = SCALE as int;
    let ms = slope(s);
    let mo = slope(o);
    let gap = ms - mo;
    let qs = trunc_div(ms * s.a.x, unit);
    let qo = trunc_div(mo * o.a.x, unit);
    let cs = s.a.y - qs;
    let co = o.a.y - qo;
    assert(intercept(s) == cs);
    assert(intercept(o) == co);
    let hit = trunc_div((co - cs) * unit, gap);
    assert(crossing(s, o) == hit);
    let rs = trunc_div(ms * (hit - s.a.x), unit);
    let ro = trunc_div(mo * (hit - o.a.x), unit);
    assert(sample_at(s, hit) == s.a.y + rs);
    assert(sample_at(o, hit) == o.a.y + ro);
    lemma_trunc_div_remainder(ms * s.a.x, unit);
    lemma_trunc_div_remainder(mo * o.a.x, unit);
    lemma_trunc_div_remainder((co - cs) * unit, gap);
    lemma_trunc_div_remainder(ms * (hit - s.a.x), unit);
    lemma_trunc_div_remainder(mo * (hit - o.a.x), unit);
    let e1 = ms * s.a.x - qs * unit;
    let e2 = mo * o.a.x - qo * unit;
    let e3 = (co - cs) * unit - hit * gap;
    let e4 = ms * (hit - s.a.x) - rs * unit;
    let e5 = mo * (hit - o.a.x) - ro * unit;
    assert(ms * (hit - s.a.x) == ms * hit - ms * s.a.x) by (nonlinear_arith);
    assert(mo * (hit - o.a.x) == mo * hit - mo * o.a.x) by (nonlinear_arith);
    assert(hit * gap == ms * hit - mo * hit) by (nonlinear_arith)
        requires
            gap == ms - mo,
    ;
    assert(((s.a.y + rs) - (o.a.y + ro)) * unit == e2 + e5 - e1 - e4 - e3) by (nonlinear_arith)
        requires
            unit == 1_000_000,
            e1 == ms * s.a.x - qs * unit,
            e2 == mo * o.a.x - qo * unit,
            e3 == (co - cs) * unit - hit * gap,
            e4 == ms * (hit - s.a.x) - rs * unit,
            e5 == mo * (hit - o.a.x) - ro * unit,
            cs == s.a.y - qs,
            co == o.a.y - qo,
            ms * (hit - s.a.x) == ms * hit - ms * s.a.x,
            mo * (hit - o.a.x) == mo * hit - mo * o.a.x,
            hit * gap == ms * hit - mo * hit,
    ;
    let diff = (s.a.y + rs) - (o.a.y + ro);
    assert(abs_int(diff) * unit == abs_int(diff * unit)) by (nonlinear_arith)
        requires
            unit == 1_000_000,
    ;
}

} // verus!
