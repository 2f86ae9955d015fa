//! Positions in the plane.

use vstd::prelude::*;
use crate::fixed::{round_units, sat_add, Fixed};

verus! {

/// The mathematical value of a [`Point`]: its two raw coordinates.
pub struct PointView {
    pub x: int,
    pub y: int,
}

/// The point whose coordinates are those of `p`, each rounded to the nearest
/// whole unit.
pub open spec fn approx_point(p: PointView) -> PointView {
    PointView { x: round_units(p.x), y: round_units(p.y) }
}

/// The point `p` moved by `dx` along the first axis and by `dy` along the
/// second.
pub open spec fn translate_point(p: PointView, dx: int, dy: int) -> PointView {
    PointView { x: sat_add(p.x, dx), y: sat_add(p.y, dy) }
}

/// A position in the plane.
#[derive(Clone, Copy, Debug, PartialEq, Eq, Structural)]
pub struct Point {
    pub x: Fixed,
    pub y: Fixed,
}

impl View for Point {
    type V = PointView;

    open spec fn view(&self) -> PointView {
        PointView { x: self.x@, y: self.y@ }
    }
}

impl Point {
    /// The nearest point with whole-unit coordinates.
    pub fn approx(&self) -> (r: Self)
        ensures
            r@ == approx_point(self@),
    {
        Self { x: self.x.round(), y: self.y.round() }
    }

    /// This point moved by `dx` along the first axis and by `dy` along the
    /// second.
    pub fn translated(&self, dx: Fixed, dy: Fixed) -> (r: Self)
        ensures
            r@ == translate_point(self@, dx@, dy@),
            dx@ == 0 && dy@ == 0 ==> r@ == self@,
    {
        let x: i64 = self.x.raw();
        let y: i64 = self.y.raw();
        Self { x: self.x.add(dx), y: self.y.add(dy) }
    }
}

} // verus!
