//! A contact between two segments.

use vstd::prelude::*;
use crate::fixed::Fixed;
use crate::physics::line::{sample_at, Line, LineView};
use crate::physics::point::{Point, PointView};

verus! {

/// The mathematical value of a [`Collision`].
pub struct CollisionView {
    pub line_a: LineView,
    pub line_b: LineView,
    pub hit: int,
}

/// The point of contact on the first segment: the abscissa `hit` and the
/// first segment's sample there.
pub open spec fn contact_point(c: CollisionView) -> PointView {
    PointView { x: c.hit, y: sample_at(c.line_a, c.hit) }
}

/// Two segments found in contact, and the abscissa `hit` at which they meet.
#[derive(Debug)]
pub struct Collision<'a> {
    line_a: Line<'a>,
    line_b: Line<'a>,
    hit: Fixed,
}

impl<'a> View for Collision<'a> {
    type V = CollisionView;

    closed spec fn view(&self) -> CollisionView {
        CollisionView { line_a: self.line_a@, line_b: self.line_b@, hit: self.hit@ }
    }
}

impl<'a> Collision<'a> {
    /// Records that `line_a` and `line_b` meet at abscissa `hit`.
    pub fn new(line_a: Line<'a>, line_b: Line<'a>, hit: Fixed) -> (c: Collision<'a>)
        ensures
            c@ == (CollisionView { line_a: line_a@, line_b: line_b@, hit: hit@ }),
    {
        Self { line_a, line_b, hit }
    }

    /// The first segment.
    pub fn line_a(&self) -> (l: Line<'a>)
        ensures
            l@ == self@.line_a,
    {
        self.line_a
    }

    /// The second segment.
    pub fn line_b(&self) -> (l: Line<'a>)
        ensures
            l@ == self@.line_b,
    {
        self.line_b
    }

    /// The abscissa of the contact.
    pub fn hit(&self) -> (h: Fixed)
        ensures
            h@ == self@.hit,
    {
        self.hit
    }

    /// The point of contact on the first segment.
    pub fn pos(&self) -> (p: Point)
        ensures
            p@ == contact_point(self@),
    {
        Point { x: self.hit, y: self.line_a.at(self.hit) }
    }
}

} // verus!
