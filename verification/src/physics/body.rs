//! The capabilities of a simulated body: a shape, motion under a constant
//! force, and interaction with another body.

use vstd::arithmetic::div_mod::{lemma_fundamental_div_mod, lemma_fundamental_div_mod_converse};
use vstd::prelude::*;
use crate::fixed::{abs_int, in_range, sat_add, sat_sub, trunc_div, Fixed, SCALE};
use crate::physics::collision::{Collision, CollisionView};
use crate::physics::point::{Point, PointView};
use crate::physics::triangle::{
    contact_views, translate_triangle, triangle_contacts, Triangle, TriangleView,
};
use crate::physics::vector::{
    vec_add, vec_div, vec_mul_div, vec_neg, vec_scale, vec_sub, Vector2D, VectorView,
};

verus! {

/// The mathematical state of a moving body.
pub struct MotionView {
    pub pos: PointView,
    pub force: VectorView,
    pub mass: int,
}

/// The views of a list of triangles.
pub open spec fn triangle_views(mesh: Seq<Triangle>) -> Seq<TriangleView> {
    mesh.map_values(|t: Triangle| t@)
}

/// The mesh with every vertex moved by `dx` and `dy`.
pub open spec fn translate_mesh(mesh: Seq<TriangleView>, dx: int, dy: int) -> Seq<TriangleView> {
    mesh.map_values(|t: TriangleView| translate_triangle(t, dx, dy))
}

/// The velocity of a body: its force divided by its mass.
pub open spec fn speed_of(m: MotionView) -> VectorView {
    vec_div(m.force, m.mass)
}

/// The displacement of a body over a time step `tick`: its velocity times
/// the step.
pub open spec fn displacement(m: MotionView, tick: int) -> VectorView {
    vec_scale(speed_of(m), tick)
}

/// The state after integrating the position over a time step `tick`.
pub open spec fn advanced(m: MotionView, tick: int) -> MotionView {
    MotionView {
        pos: PointView {
            x: sat_add(m.pos.x, displacement(m, tick).x),
            y: sat_add(m.pos.y, displacement(m, tick).y),
        },
        force: m.force,
        mass: m.mass,
    }
}

/// The velocity that the first body gains in an exchange: the difference of
/// the two velocities, less that difference divided by the ratio of the
/// second mass to the first. The division by the ratio is made as a product
/// with the first mass over the second, so it is defined for all positive
/// masses.
pub open spec fn exchange_term(s: MotionView, o: MotionView) -> VectorView {
    let diff = vec_sub(speed_of(s), speed_of(o));
    vec_sub(diff, vec_mul_div(diff, s.mass, o.mass))
}

/// The first body's force after an exchange of momentum with the second: its
/// force reversed, plus its mass times the exchange term.
pub open spec fn force_after_exchange(s: MotionView, o: MotionView) -> VectorView {
    vec_add(vec_neg(s.force), vec_scale(exchange_term(s, o), s.mass))
}

/// The second body's force after an exchange of momentum with the first: its
/// force reversed, plus its mass times the opposite of the exchange term.
pub open spec fn partner_force_after_exchange(s: MotionView, o: MotionView) -> VectorView {
    vec_add(vec_neg(o.force), vec_scale(vec_neg(exchange_term(s, o)), o.mass))
}

/// The contacts of the triangle `t` with the first `k` triangles of `others`.
pub open spec fn row_contacts(t: TriangleView, others: Seq<TriangleView>, k: int) -> Seq<
    CollisionView,
>
    decreases k,
{
    if k <= 0 {
        Seq::empty()
    } else {
        row_contacts(t, others, k - 1) + triangle_contacts(t, others[k - 1])
    }
}

/// The contacts of the first `n` triangles of `mesh` with all of `others`.
pub open spec fn mesh_contacts_upto(mesh: Seq<TriangleView>, others: Seq<TriangleView>, n: int) -> Seq<
    CollisionView,
>
    decreases n,
{
    if n <= 0 {
        Seq::empty()
    } else {
        mesh_contacts_upto(mesh, others, n - 1) + row_contacts(
            mesh[n - 1],
            others,
            others.len() as int,
        )
    }
}

/// The contacts of every triangle of `mesh` with every triangle of `others`,
/// the triangles of `mesh` varying slowest.
pub open spec fn mesh_contacts(mesh: Seq<TriangleView>, others: Seq<TriangleView>) -> Seq<
    CollisionView,
> {
    mesh_contacts_upto(mesh, others, mesh.len() as int)
}

/// Something with a shape.
pub trait Shape {
    /// The triangles of the mesh.
    spec fn mesh_view(&self) -> Seq<TriangleView>;

    /// The current mesh.
    fn get_mesh(&self) -> (mesh: &[Triangle])
        ensures
            triangle_views(mesh@) == self.mesh_view(),
    ;
}

/// Something with a shape that moves under a constant force.
pub trait Move: Shape {
    /// Position, force and mass. The mass is positive.
    spec fn motion(&self) -> MotionView;

    /// The mass, which is positive.
    fn get_mass(&self) -> (mass: Fixed)
        ensures
            mass@ == self.motion().mass,
            mass@ > 0,
    ;

    /// The force.
    fn get_force(&self) -> (force: Vector2D)
        ensures
            force@ == self.motion().force,
    ;

    /// Mutable access to the force; nothing else can change through it.
    fn get_force_ref_mut(&mut self) -> (force: &mut Vector2D)
        ensures
            (*force)@ == old(self).motion().force,
            final(self).motion() == (MotionView {
                pos: old(self).motion().pos,
                force: (*final(force))@,
                mass: old(self).motion().mass,
            }),
            final(self).mesh_view() == old(self).mesh_view(),
    ;

    /// Integrates the position over the time step `tick`: position and mesh
    /// move by the velocity times the step. A step of zero changes nothing.
    fn mov(&mut self, tick: Fixed)
        ensures
            final(self).motion() == advanced(old(self).motion(), tick@),
            final(self).mesh_view() == translate_mesh(
                old(self).mesh_view(),
                displacement(old(self).motion(), tick@).x,
                displacement(old(self).motion(), tick@).y,
            ),
            tick@ == 0 ==> final(self).motion() == old(self).motion() && final(self).mesh_view()
                == old(self).mesh_view(),
    ;

    /// The velocity: the force divided by the mass.
    fn get_speed(&self) -> (speed: Vector2D)
        ensures
            speed@ == speed_of(self.motion()),
    {
        self.get_force().as_speed(self.get_mass())
    }

    /// Replaces the force.
    fn set_force(&mut self, force: Vector2D)
        ensures
            final(self).motion() == (MotionView {
                pos: old(self).motion().pos,
                force: force@,
                mass: old(self).motion().mass,
            }),
            final(self).mesh_view() == old(self).mesh_view(),
    ;

    /// Moves the body to `pos`; the mesh moves by the same difference.
    fn set_position(&mut self, pos: Point)
        ensures
            final(self).motion() == (MotionView {
                pos: pos@,
                force: old(self).motion().force,
                mass: old(self).motion().mass,
            }),
            final(self).mesh_view() == translate_mesh(
                old(self).mesh_view(),
                sat_sub(pos@.x, old(self).motion().pos.x),
                sat_sub(pos@.y, old(self).motion().pos.y),
            ),
    ;

    /// The position.
    fn get_pos(&self) -> (pos: Point)
        ensures
            pos@ == self.motion().pos,
    ;
}

/// Something that moves and reacts to contact with another body.
pub trait Interact: Move {
    /// Exchanges momentum with `other`: both forces are replaced as
    /// [`force_after_exchange`] and [`partner_force_after_exchange`] say, from
    /// the forces and speeds before the call. Nothing else changes.
    fn collide<M: Move>(&mut self, other: &mut M)
        ensures
            final(self).motion() == (MotionView {
                pos: old(self).motion().pos,
                force: force_after_exchange(old(self).motion(), old(other).motion()),
                mass: old(self).motion().mass,
            }),
            final(other).motion() == (MotionView {
                pos: old(other).motion().pos,
                force: partner_force_after_exchange(old(self).motion(), old(other).motion()),
                mass: old(other).motion().mass,
            }),
            final(self).mesh_view() == old(self).mesh_view(),
            final(other).mesh_view() == old(other).mesh_view(),
    {
        let mass = self.get_mass();
        let other_mass = other.get_mass();
        let diff = self.get_speed().sub(other.get_speed());
        let gain = diff.sub(diff.mul_div(mass, other_mass));
        let force = self.get_force().neg().add(gain.mul(mass));
        let other_force = other.get_force().neg().add(gain.neg().mul(other_mass));
        self.set_force(force);
        other.set_force(other_force);
    }

    /// All contacts between this body's mesh and the mesh of `other`; empty
    /// when the bodies do not touch.
    fn collision_with<'a, M: Move>(&'a self, other: &'a M) -> (contacts: Vec<Collision<'a>>)
        ensures
            contact_views(contacts@) == mesh_contacts(self.mesh_view(), other.mesh_view()),
    {
        let mesh = self.get_mesh();
        let other_mesh = other.get_mesh();
        let mut collisions: Vec<Collision<'a>> = Vec::new();
        let mut n: usize = 0;
        while n < mesh.len()
            invariant
                n <= mesh.len(),
                triangle_views(mesh@) == self.mesh_view(),
                triangle_views(other_mesh@) == other.mesh_view(),
                contact_views(collisions@) == mesh_contacts_upto(
                    self.mesh_view(),
                    other.mesh_view(),
                    n as int,
                ),
            decreases mesh.len() - n,
        {
            let ghost before = contact_views(collisions@);
            let mut k: usize = 0;
            while k < other_mesh.len()
                invariant
                    n < mesh.len(),
                    k <= other_mesh.len(),
                    triangle_views(mesh@) == self.mesh_view(),
                    triangle_views(other_mesh@) == other.mesh_view(),
                    contact_views(collisions@) == before + row_contacts(
                        self.mesh_view()[n as int],
                        other.mesh_view(),
                        k as int,
                    ),
                decreases other_mesh.len() - k,
            {
                let mut found = mesh[n].get_collisions(&other_mesh[k]);
                let ghost gathered = contact_views(collisions@);
                let ghost added = contact_views(found@);
                collisions.append(&mut found);
                assert(contact_views(collisions@) == gathered + added);
                assert(triangle_views(mesh@)[n as int] == mesh@[n as int]@);
                assert(triangle_views(other_mesh@)[k as int] == other_mesh@[k as int]@);
                k = k + 1;
            }
            n = n + 1;
        }
        collisions
    }

    /// Reverses the force.
    fn bounce(&mut self)
        ensures
            final(self).motion() == (MotionView {
                pos: old(self).motion().pos,
                force: vec_neg(old(self).motion().force),
                mass: old(self).motion().mass,
            }),
            final(self).mesh_view() == old(self).mesh_view(),
    {
        let force = self.get_force().neg();
        self.set_force(force);
    }

    /// The position.
    fn pos(&self) -> (pos: Point)
        ensures
            pos@ == self.motion().pos,
    {
        self.get_pos()
    }
}

/// The state after `n` successive moves, each over a time step `tick`.
pub open spec fn advanced_times(m: MotionView, tick: int, n: nat) -> MotionView
    decreases n,
{
    if n == 0 {
        m
    } else {
        advanced(advanced_times(m, tick, (n - 1) as nat), tick)
    }
}

/// The move of `m` over `n` steps of `tick` stays within the numbers that can
/// be held: the position at the start, the position after `n` times one
/// step's displacement, the time `n * tick`, and the exact product of each
/// velocity component with that time.
pub open spec fn advance_is_exact(m: MotionView, tick: int, n: nat) -> bool {
    &&& in_range(m.pos.x)
    &&& in_range(m.pos.y)
    &&& in_range(n * tick)
    &&& in_range(trunc_div(speed_of(m).x * (n * tick), SCALE as int))
    &&& in_range(trunc_div(speed_of(m).y * (n * tick), SCALE as int))
    &&& in_range(m.pos.x + n * displacement(m, tick).x)
    &&& in_range(m.pos.y + n * displacement(m, tick).y)
    &&& in_range(m.pos.x + displacement(m, n * tick).x)
    &&& in_range(m.pos.y + displacement(m, n * tick).y)
}

/// Rounding a product toward zero after multiplying by `n` differs from `n`
/// times the rounded product by less than `n`.
pub proof fn lemma_scaled_rounding(a: int, n: int, d: int)
    requires
        n >= 1,
        d > 0,
    ensures
        abs_int(n * trunc_div(a, d) - trunc_div(n * a, d)) < n,
        abs_int(trunc_div(a, d)) <= abs_int(trunc_div(n * a, d)),
{
    let b = abs_int(a);
    let q = b / d;
    let r = b % d;
    lemma_fundamental_div_mod(b, d);
    assert(n * b == d * (n * q) + n * r) by (nonlinear_arith)
        requires
            b == d * q + r,
    ;
    assert(0 <= n * r < n * d) by (nonlinear_arith)
        requires
            0 <= r < d,
            n >= 1,
    ;
    let extra = (n * r) / d;
    lemma_fundamental_div_mod(n * r, d);
    assert(0 <= extra < n) by (nonlinear_arith)
        requires
            0 <= n * r < n * d,
            d > 0,
            n * r == d * extra + (n * r) % d,
            0 <= (n * r) % d < d,
    ;
    assert(n * b == d * (n * q + extra) + (n * r) % d) by (nonlinear_arith)
        requires
            n * b == d * (n * q) + n * r,
            n * r == d * extra + (n * r) % d,
    ;
    lemma_fundamental_div_mod_converse(n * b, d, n * q + extra, (n * r) % d);
    assert((n * b) / d == n * q + extra);
    assert(n * q >= q) by (nonlinear_arith)
        requires
            n >= 1,
            q >= 0,
    ;
    if a >= 0 {
        assert(n * a >= 0) by (nonlinear_arith)
            requires
                n >= 1,
                a >= 0,
        ;
    } else {
        assert(n * a < 0 && -(n * a) == n * b) by (nonlinear_arith)
            requires
                n >= 1,
                a < 0,
                b == -a,
        ;
        assert(n * (-q) == -(n * q)) by (nonlinear_arith);
    }
}

/// While nothing saturates, `k` successive moves add `k` times the
/// displacement of one move, and leave force and mass alone.
pub proof fn lemma_advanced_times(m: MotionView, tick: int, n: nat, k: nat)
    requires
        k <= n,
        in_range(m.pos.x),
        in_range(m.pos.y),
        in_range(m.pos.x + n * displacement(m, tick).x),
        in_range(m.pos.y + n * displacement(m, tick).y),
    ensures
        advanced_times(m, tick, k) == (MotionView {
            pos: PointView {
                x: m.pos.x + k * displacement(m, tick).x,
                y: m.pos.y + k * displacement(m, tick).y,
            },
            force: m.force,
            mass: m.mass,
        }),
    decreases k,
{
    let dx = displacement(m, tick).x;
    let dy = displacement(m, tick).y;
    if k > 0 {
        lemma_advanced_times(m, tick, n, (k - 1) as nat);
        lemma_between(m.pos.x, dx, n as int, k as int);
        lemma_between(m.pos.y, dy, n as int, k as int);
        assert((k - 1) * dx + dx == k * dx) by (nonlinear_arith);
        assert((k - 1) * dy + dy == k * dy) by (nonlinear_arith);
        let before = advanced_times(m, tick, (k - 1) as nat);
        assert(displacement(before, tick) == displacement(m, tick));
    } else {
        assert(0 * dx == 0 && 0 * dy == 0);
    }
}

/// A point between two points in range is in range.
pub proof fn lemma_between(p: int, d: int, n: int, k: int)
    by (nonlinear_arith)
    requires
        0 <= k <= n,
        in_range(p),
        in_range(p + n * d),
    ensures
        in_range(p + k * d),
{
    if d >= 0 {
        assert(0 <= k * d <= n * d);
    } else {
        assert(n * d <= k * d <= 0);
    }
}

/// Moving `n` times over a time step `tick` ends where one move over the
/// time `n * tick` ends, up to rounding: each coordinate differs by less
/// than `n` millionths, and force and mass are the same. This holds while
/// nothing saturates.
pub proof fn lemma_repeated_advance(m: MotionView, tick: int, n: nat)
    requires
        n >= 1,
        advance_is_exact(m, tick, n),
    ensures
        advanced_times(m, tick, n).force == advanced(m, n * tick).force,
        advanced_times(m, tick, n).mass == advanced(m, n * tick).mass,
        abs_int(advanced_times(m, tick, n).pos.x - advanced(m, n * tick).pos.x) < n,
        abs_int(advanced_times(m, tick, n).pos.y - advanced(m, n * tick).pos.y) < n,
{
    lemma_advanced_times(m, tick, n, n);
    let s = SCALE as int;
    let vx = speed_of(m).x;
    let vy = speed_of(m).y;
    assert(vx * (n * tick) == n * (vx * tick)) by (nonlinear_arith);
    assert(vy * (n * tick) == n * (vy * tick)) by (nonlinear_arith);
    lemma_scaled_rounding(vx * tick, n as int, s);
    lemma_scaled_rounding(vy * tick, n as int, s);
}

} // verus!
