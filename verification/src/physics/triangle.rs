//! Triangles, the elements of a body's mesh, and the overlap search between
//! two of them.

use vstd::prelude::*;
use crate::fixed::{lemma_product_bound, max_int, min_int, Fixed, LIMIT};
use crate::physics::collision::{Collision, CollisionView};
use crate::physics::line::{canonical_line, line_contact, Line, LineView};
use crate::physics::point::{translate_point, Point, PointView};

verus! {

/// The mathematical value of a [`Triangle`]: its three vertices.
pub struct TriangleView {
    pub a: PointView,
    pub b: PointView,
    pub c: PointView,
}

/// The triangle `t` with every vertex moved by `dx` and `dy`.
pub open spec fn translate_triangle(t: TriangleView, dx: int, dy: int) -> TriangleView {
    TriangleView {
        a: translate_point(t.a, dx, dy),
        b: translate_point(t.b, dx, dy),
        c: translate_point(t.c, dx, dy),
    }
}

/// The three vertices in order.
pub open spec fn vertices(t: TriangleView) -> Seq<PointView> {
    seq![t.a, t.b, t.c]
}

/// The three edges `a-b`, `b-c` and `c-a`, each with its end of smaller
/// abscissa first.
pub open spec fn edges(t: TriangleView) -> Seq<LineView> {
    seq![canonical_line(t.a, t.b), canonical_line(t.b, t.c), canonical_line(t.c, t.a)]
}

/// The common denominator of the barycentric coordinates with respect to `t`:
/// twice the signed area of the triangle.
pub open spec fn bary_den(t: TriangleView) -> int {
    (t.b.y - t.c.y) * (t.a.x - t.c.x) + (t.c.x - t.b.x) * (t.a.y - t.c.y)
}

/// Numerator of the first barycentric coordinate of `p` with respect to `t`;
/// the coordinate itself is `alpha_num / bary_den`.
pub open spec fn alpha_num(t: TriangleView, p: PointView) -> int {
    (t.b.y - t.c.y) * (p.x - t.c.x) + (t.c.x - t.b.x) * (p.y - t.c.y)
}

/// Numerator of the second barycentric coordinate of `p` with respect to `t`.
pub open spec fn beta_num(t: TriangleView, p: PointView) -> int {
    (t.c.y - t.a.y) * (p.x - t.c.x) + (t.a.x - t.c.x) * (p.y - t.c.y)
}

/// Numerator of the third barycentric coordinate, the complement of the other
/// two to one.
pub open spec fn gamma_num(t: TriangleView, p: PointView) -> int {
    bary_den(t) - alpha_num(t, p) - beta_num(t, p)
}

/// The fraction `num / den` is defined and lies in `[0, 1]`.
pub open spec fn in_unit_interval(num: int, den: int) -> bool {
    if den > 0 {
        0 <= num <= den
    } else {
        den < 0 && den <= num <= 0
    }
}

/// The fraction `num / den` is defined and strictly positive.
pub open spec fn is_positive_fraction(num: int, den: int) -> bool {
    (den > 0 && num > 0) || (den < 0 && num < 0)
}

/// `p` lies inside `t` or on its border: all three barycentric coordinates
/// are in `[0, 1]`. A triangle without area contains no point.
pub open spec fn contains_point(t: TriangleView, p: PointView) -> bool {
    &&& in_unit_interval(alpha_num(t, p), bary_den(t))
    &&& in_unit_interval(beta_num(t, p), bary_den(t))
    &&& in_unit_interval(gamma_num(t, p), bary_den(t))
}

/// The contacts among the first `k` of the nine ordered pairs made of an edge
/// of `o` and an edge of `t`, the edges of `o` varying slowest. Each contact
/// names the edge of `o` first.
pub open spec fn edge_pair_contacts(t: TriangleView, o: TriangleView, k: int) -> Seq<CollisionView>
    decreases k,
{
    if k <= 0 {
        Seq::empty()
    } else {
        let found = edge_pair_contacts(t, o, k - 1);
        let line_a = edges(o)[(k - 1) / 3];
        let line_b = edges(t)[(k - 1) % 3];
        match line_contact(line_a, line_b) {
            Some(hit) => found.push(CollisionView { line_a, line_b, hit }),
            None => found,
        }
    }
}

/// The contacts between the edges of `o` and the edges of `t`.
pub open spec fn edge_contacts(t: TriangleView, o: TriangleView) -> Seq<CollisionView> {
    edge_pair_contacts(t, o, 9)
}

/// What the overlap search has gathered after the first `n` vertices of `o`:
/// every vertex that `t` does not contain adds the full list of edge contacts.
pub open spec fn vertex_contacts(t: TriangleView, o: TriangleView, n: int) -> Seq<CollisionView>
    decreases n,
{
    if n <= 0 {
        Seq::empty()
    } else {
        let found = vertex_contacts(t, o, n - 1);
        if contains_point(t, vertices(o)[n - 1]) {
            found
        } else {
            found + edge_contacts(t, o)
        }
    }
}

/// The result of the overlap search of `t` against `o`.
pub open spec fn triangle_contacts(t: TriangleView, o: TriangleView) -> Seq<CollisionView> {
    vertex_contacts(t, o, 3)
}

/// The views of a list of contacts.
pub open spec fn contact_views(contacts: Seq<Collision>) -> Seq<CollisionView> {
    contacts.map_values(|c: Collision| c@)
}

/// Three vertices.
#[derive(Clone, Copy, Debug, PartialEq, Eq, Structural)]
pub struct Triangle {
    pub a: Point,
    pub b: Point,
    pub c: Point,
}

impl View for Triangle {
    type V = TriangleView;

    open spec fn view(&self) -> TriangleView {
        TriangleView { a: self.a@, b: self.b@, c: self.c@ }
    }
}

impl Triangle {
    /// The triangle with vertices `a`, `b` and `c`.
    pub fn new(a: Point, b: Point, c: Point) -> (t: Self)
        ensures
            t.a == a,
            t.b == b,
            t.c == c,
    {
        Self { a, b, c }
    }

    /// The right-most abscissa.
    pub fn rightest(&self) -> (r: Fixed)
        ensures
            r@ == max_int(max_int(self@.a.x, self@.b.x), self@.c.x),
    {
        self.a.x.max(self.b.x).max(self.c.x)
    }

    /// The left-most abscissa.
    pub fn leftest(&self) -> (r: Fixed)
        ensures
            r@ == min_int(min_int(self@.a.x, self@.b.x), self@.c.x),
    {
        self.a.x.min(self.b.x).min(self.c.x)
    }

    /// The highest ordinate.
    pub fn upest(&self) -> (r: Fixed)
        ensures
            r@ == max_int(max_int(self@.a.y, self@.b.y), self@.c.y),
    {
        self.a.y.max(self.b.y).max(self.c.y)
    }

    /// The lowest ordinate.
    pub fn lowest(&self) -> (r: Fixed)
        ensures
            r@ == min_int(min_int(self@.a.y, self@.b.y), self@.c.y),
    {
        self.a.y.min(self.b.y).min(self.c.y)
    }

    /// The three vertices in order.
    pub fn points(&self) -> (r: [&Point; 3])
        ensures
            *r[0] == self.a,
            *r[1] == self.b,
            *r[2] == self.c,
    {
        [&self.a, &self.b, &self.c]
    }

    /// Mutable access to the three vertices in order.
    pub fn points_mut(&mut self) -> (r: [&mut Point; 3])
        ensures
            *r[0] == old(self).a,
            *r[1] == old(self).b,
            *r[2] == old(self).c,
            final(self).a == *final(r[0]),
            final(self).b == *final(r[1]),
            final(self).c == *final(r[2]),
    {
        [&mut self.a, &mut self.b, &mut self.c]
    }

    /// The three edges `a-b`, `b-c` and `c-a`.
    pub fn lines(&self) -> (r: [Line; 3])
        ensures
            r[0]@ == edges(self@)[0],
            r[1]@ == edges(self@)[1],
            r[2]@ == edges(self@)[2],
    {
        [Line::new(&self.a, &self.b), Line::new(&self.b, &self.c), Line::new(&self.c, &self.a)]
    }

    /// This triangle with every vertex moved by `dx` and `dy`.
    pub fn translated(&self, dx: Fixed, dy: Fixed) -> (r: Self)
        ensures
            r@ == translate_triangle(self@, dx@, dy@),
            dx@ == 0 && dy@ == 0 ==> r@ == self@,
    {
        Self {
            a: self.a.translated(dx, dy),
            b: self.b.translated(dx, dy),
            c: self.c.translated(dx, dy),
        }
    }

    /// Whether `p` lies inside this triangle or on its border.
    pub fn contains(&self, p: &Point) -> (r: bool)
        ensures
            r == contains_point(self@, p@),
    {
        let ax: i128 = self.a.x.raw() as i128;
        let ay: i128 = self.a.y.raw() as i128;
        let bx: i128 = self.b.x.raw() as i128;
        let by: i128 = self.b.y.raw() as i128;
        let cx: i128 = self.c.x.raw() as i128;
        let cy: i128 = self.c.y.raw() as i128;
        let px: i128 = p.x.raw() as i128;
        let py: i128 = p.y.raw() as i128;
        let den: i128 = cross_sum(by - cy, ax - cx, cx - bx, ay - cy);
        let alpha: i128 = cross_sum(by - cy, px - cx, cx - bx, py - cy);
        let beta: i128 = cross_sum(cy - ay, px - cx, ax - cx, py - cy);
        let gamma: i128 = den - alpha - beta;
        if den > 0 {
            0 <= alpha && alpha <= den && 0 <= beta && beta <= den && 0 <= gamma && gamma <= den
        } else if den < 0 {
            den <= alpha && alpha <= 0 && den <= beta && beta <= 0 && den <= gamma && gamma <= 0
        } else {
            false
        }
    }

    /// Searches for the contacts between this triangle and `other`.
    ///
    /// Every vertex of `other` that this triangle does not contain adds the
    /// contacts of all nine pairs of edges to the result, so one crossing can
    /// be listed up to three times.
    pub fn get_collisions<'a>(&'a self, other: &'a Self) -> (r: Vec<Collision<'a>>)
        ensures
            contact_views(r@) == triangle_contacts(self@, other@),
    {
        let lines = self.lines();
        let other_lines = other.lines();
        let points = other.points();
        let mut collisions: Vec<Collision<'a>> = Vec::new();
        let mut n: usize = 0;
        while n < 3
            invariant
                n <= 3,
                contact_views(collisions@) == vertex_contacts(self@, other@, n as int),
                lines[0]@ == edges(self@)[0],
                lines[1]@ == edges(self@)[1],
                lines[2]@ == edges(self@)[2],
                other_lines[0]@ == edges(other@)[0],
                other_lines[1]@ == edges(other@)[1],
                other_lines[2]@ == edges(other@)[2],
                *points[0] == other.a,
                *points[1] == other.b,
                *points[2] == other.c,
            decreases 3 - n,
        {
            let point = points[n];
            if !self.contains(point) {
                let ghost before = contact_views(collisions@);
                let mut k: usize = 0;
                while k < 9
                    invariant
                        k <= 9,
                        contact_views(collisions@) == before + edge_pair_contacts(
                            self@,
                            other@,
                            k as int,
                        ),
                        lines[0]@ == edges(self@)[0],
                        lines[1]@ == edges(self@)[1],
                        lines[2]@ == edges(self@)[2],
                        other_lines[0]@ == edges(other@)[0],
                        other_lines[1]@ == edges(other@)[1],
                        other_lines[2]@ == edges(other@)[2],
                    decreases 9 - k,
                {
                    let line = other_lines[k / 3];
                    let point_line = lines[k % 3];
                    let ghost gathered = contact_views(collisions@);
                    if let Some(collision) = line.collision_with(point_line) {
                        collisions.push(collision);
                        assert(contact_views(collisions@) == gathered.push(collision@));
                    }
                    k = k + 1;
                }
            }
            n = n + 1;
        }
        collisions
    }
}

/// `a * b + c * d` for four coordinate differences.
fn cross_sum(a: i128, b: i128, c: i128, d: i128) -> (r: i128)
    requires
        -2 * LIMIT <= a <= 2 * LIMIT,
        -2 * LIMIT <= b <= 2 * LIMIT,
        -2 * LIMIT <= c <= 2 * LIMIT,
        -2 * LIMIT <= d <= 2 * LIMIT,
    ensures
        r == a * b + c * d,
        -8 * LIMIT * LIMIT <= r <= 8 * LIMIT * LIMIT,
{
    proof {
        lemma_product_bound(a as int, b as int, 2 * LIMIT, 2 * LIMIT);
        lemma_product_bound(c as int, d as int, 2 * LIMIT, 2 * LIMIT);
        assert((2 * LIMIT) * (2 * LIMIT) == 4 * LIMIT * LIMIT) by (nonlinear_arith);
        assert(8 * LIMIT * LIMIT == 8_000_000_000_000_000_000_000_000_000_000_000_000int);
    }
    a * b + c * d
}

/// The centroid of a triangle with area has three equal, strictly positive
/// barycentric coordinates that sum to one.
///
/// The centroid is given as the point `p` with `3 * p == a + b + c`, so the
/// statement covers the triangles whose centroid has raw integer coordinates.
pub proof fn lemma_centroid_strictly_inside(t: TriangleView, p: PointView)
    requires
        bary_den(t) != 0,
        3 * p.x == t.a.x + t.b.x + t.c.x,
        3 * p.y == t.a.y + t.b.y + t.c.y,
    ensures
        3 * alpha_num(t, p) == bary_den(t),
        3 * beta_num(t, p) == bary_den(t),
        3 * gamma_num(t, p) == bary_den(t),
        is_positive_fraction(alpha_num(t, p), bary_den(t)),
        is_positive_fraction(beta_num(t, p), bary_den(t)),
        is_positive_fraction(gamma_num(t, p), bary_den(t)),
        alpha_num(t, p) + beta_num(t, p) + gamma_num(t, p) == bary_den(t),
        contains_point(t, p),
{
    assert(3 * alpha_num(t, p) == bary_den(t)) by (nonlinear_arith)
        requires
            3 * p.x == t.a.x + t.b.x + t.c.x,
            3 * p.y == t.a.y + t.b.y + t.c.y,
            alpha_num(t, p) == (t.b.y - t.c.y) * (p.x - t.c.x) + (t.c.x - t.b.x) * (p.y - t.c.y),
            bary_den(t) == (t.b.y - t.c.y) * (t.a.x - t.c.x) + (t.c.x - t.b.x) * (t.a.y - t.c.y),
    ;
    assert(3 * beta_num(t, p) == bary_den(t)) by (nonlinear_arith)
        requires
            3 * p.x == t.a.x + t.b.x + t.c.x,
            3 * p.y == t.a.y + t.b.y + t.c.y,
            beta_num(t, p) == (t.c.y - t.a.y) * (p.x - t.c.x) + (t.a.x - t.c.x) * (p.y - t.c.y),
            bary_den(t) == (t.b.y - t.c.y) * (t.a.x - t.c.x) + (t.c.x - t.b.x) * (t.a.y - t.c.y),
    ;
}

} // verus!
