//! The square particle: the one concrete body of the simulation.

use vstd::prelude::*;
use crate::fixed::{
    abs_int, in_range, lemma_mul_by_zero, sat_add, sat_div, sat_sub, Fixed, SCALE,
};
use crate::physics::body::{
    advance_is_exact, displacement, lemma_advanced_times, lemma_between, lemma_repeated_advance,
    speed_of, translate_mesh, triangle_views, Interact, MotionView, Move, Shape,
};
use crate::physics::point::{Point, PointView};
use crate::physics::triangle::{Triangle, TriangleView};
use crate::physics::vector::{vec_add, Vector2D, VectorView};

verus! {

/// The mathematical value of a [`Particle`].
pub struct ParticleView {
    pub pos: PointView,
    pub mesh: Seq<TriangleView>,
    pub force: VectorView,
    pub mass: int,
}

/// Half the side of a square of side `size`.
pub open spec fn half_side(size: int) -> int {
    sat_div(size, 2 * (SCALE as int))
}

/// The corner of the square of side `size` centred on `pos` that lies on the
/// right (`right`) or left, upper (`up`) or lower side.
pub open spec fn corner(pos: PointView, size: int, right: bool, up: bool) -> PointView {
    PointView {
        x: if right {
            sat_add(pos.x, half_side(size))
        } else {
            sat_sub(pos.x, half_side(size))
        },
        y: if up {
            sat_add(pos.y, half_side(size))
        } else {
            sat_sub(pos.y, half_side(size))
        },
    }
}

/// The mesh of a new particle: the axis-aligned square of side `size` centred
/// on `pos`, cut along the diagonal from its upper right to its lower left
/// corner. The first triangle holds the upper left corner, the second the
/// lower right one.
pub open spec fn square_mesh(pos: PointView, size: int) -> Seq<TriangleView> {
    seq![
        TriangleView {
            a: corner(pos, size, false, true),
            b: corner(pos, size, true, true),
            c: corner(pos, size, false, false),
        },
        TriangleView {
            a: corner(pos, size, true, true),
            b: corner(pos, size, true, false),
            c: corner(pos, size, false, false),
        },
    ]
}

/// Position, force and mass of a particle.
pub open spec fn motion_of(p: ParticleView) -> MotionView {
    MotionView { pos: p.pos, force: p.force, mass: p.mass }
}

/// The particle `p` with its force replaced by `force`.
pub open spec fn with_force(p: ParticleView, force: VectorView) -> ParticleView {
    ParticleView { pos: p.pos, mesh: p.mesh, force, mass: p.mass }
}

/// The particle `p` with position and mesh moved by `dx` and `dy`.
pub open spec fn moved_by(p: ParticleView, dx: int, dy: int) -> ParticleView {
    ParticleView {
        pos: PointView { x: sat_add(p.pos.x, dx), y: sat_add(p.pos.y, dy) },
        mesh: translate_mesh(p.mesh, dx, dy),
        force: p.force,
        mass: p.mass,
    }
}

/// The particle after integrating its position over a time step `tick`.
pub open spec fn advanced_particle(p: ParticleView, tick: int) -> ParticleView {
    moved_by(p, displacement(motion_of(p), tick).x, displacement(motion_of(p), tick).y)
}

/// The reason why a particle could not be made.
#[derive(Clone, Copy, Debug, PartialEq, Eq)]
pub enum ParticleError {
    /// The mass was zero or negative.
    InvalidMass,
}

/// A mass: a number that is positive.
#[derive(Clone, Copy, Debug, PartialEq)]
struct Mass {
    value: Fixed,
}

impl View for Mass {
    type V = int;

    closed spec fn view(&self) -> int {
        self.value@
    }
}

impl Mass {
    #[verifier::type_invariant]
    spec fn positive(self) -> bool {
        self.value@ > 0
    }

    fn new(value: Fixed) -> (r: Option<Mass>)
        ensures
            match r {
                Some(m) => value@ > 0 && m@ == value@,
                None => value@ <= 0,
            },
    {
        if value.raw() <= 0 {
            None
        } else {
            Some(Mass { value })
        }
    }

    fn get(&self) -> (value: Fixed)
        ensures
            value@ == self@,
            value@ > 0,
    {
        proof {
            use_type_invariant(self);
        }
        self.value
    }
}

/// A square body: a position, a force, a positive mass, and a mesh of two
/// triangles that starts as the square of the particle's size centred on its
/// position and follows every move of the position.
#[derive(Clone, Copy, Debug, PartialEq)]
pub struct Particle {
    pos: Point,
    mesh: [Triangle; 2],
    force: Vector2D,
    mass: Mass,
}

impl View for Particle {
    type V = ParticleView;

    closed spec fn view(&self) -> ParticleView {
        ParticleView {
            pos: self.pos@,
            mesh: triangle_views(self.mesh@),
            force: self.force@,
            mass: self.mass@,
        }
    }
}

impl Particle {
    /// A particle at `pos` under `force`, with the given mass and the given
    /// side of its square mesh. A mass that is not positive is refused.
    pub fn new(pos: Point, force: Vector2D, mass: Fixed, size: Fixed) -> (r: Result<
        Self,
        ParticleError,
    >)
        ensures
            match r {
                Ok(p) => mass@ > 0 && p@ == (ParticleView {
                    pos: pos@,
                    mesh: square_mesh(pos@, size@),
                    force: force@,
                    mass: mass@,
                }),
                Err(e) => mass@ <= 0 && e == ParticleError::InvalidMass,
            },
    {
        let mass = match Mass::new(mass) {
            Some(m) => m,
            None => {
                return Err(ParticleError::InvalidMass);
            },
        };
        let half = size.div(Fixed::from_int(2));
        // Upper left
        let a = Point { x: pos.x.sub(half), y: pos.y.add(half) };
        // Upper right
        let b = Point { x: pos.x.add(half), y: pos.y.add(half) };
        // Lower right
        let c = Point { x: pos.x.add(half), y: pos.y.sub(half) };
        // Lower left
        let d = Point { x: pos.x.sub(half), y: pos.y.sub(half) };
        let mesh = [Triangle::new(a, b, d), Triangle::new(b, c, d)];
        assert(triangle_views(mesh@) =~= square_mesh(pos@, size@));
        Ok(Self { pos, force, mass, mesh })
    }

    /// Moves position and mesh by `dx` and `dy`.
    fn shift(&mut self, dx: Fixed, dy: Fixed)
        ensures
            final(self)@ == moved_by(old(self)@, dx@, dy@),
            dx@ == 0 && dy@ == 0 ==> final(self)@ == old(self)@,
    {
        let pos = self.pos.translated(dx, dy);
        let first = self.mesh[0].translated(dx, dy);
        let second = self.mesh[1].translated(dx, dy);
        let mesh = [first, second];
        assert(triangle_views(mesh@) =~= translate_mesh(triangle_views(self.mesh@), dx@, dy@));
        assert(dx@ == 0 && dy@ == 0 ==> triangle_views(mesh@) =~= triangle_views(self.mesh@));
        *self = Particle { pos, mesh, force: self.force, mass: self.mass };
    }

    /// Adds `other` to the force.
    pub fn apply_force(&mut self, other: Vector2D)
        ensures
            final(self)@ == with_force(old(self)@, vec_add(old(self)@.force, other@)),
    {
        self.force = self.force.add(other);
    }
}

impl Shape for Particle {
    open spec fn mesh_view(&self) -> Seq<TriangleView> {
        self@.mesh
    }

    fn get_mesh(&self) -> (mesh: &[Triangle]) {
        self.mesh.as_slice()
    }
}

impl Move for Particle {
    open spec fn motion(&self) -> MotionView {
        motion_of(self@)
    }

    fn get_mass(&self) -> (mass: Fixed) {
        self.mass.get()
    }

    fn get_force(&self) -> (force: Vector2D) {
        self.force
    }

    fn get_force_ref_mut(&mut self) -> (force: &mut Vector2D)
        ensures
            final(self)@ == with_force(old(self)@, (*final(force))@),
    {
        &mut self.force
    }

    fn mov(&mut self, tick: Fixed)
        ensures
            final(self)@ == advanced_particle(old(self)@, tick@),
            tick@ == 0 ==> final(self)@ == old(self)@,
    {
        let step = self.get_speed().mul(tick);
        proof {
            lemma_mul_by_zero(speed_of(motion_of(self@)).x);
            lemma_mul_by_zero(speed_of(motion_of(self@)).y);
        }
        self.shift(step.get_x(), step.get_y());
    }

    fn set_force(&mut self, force: Vector2D)
        ensures
            final(self)@ == with_force(old(self)@, force@),
    {
        self.force = force;
    }

    fn set_position(&mut self, pos: Point)
        ensures
            final(self)@ == (ParticleView {
                pos: pos@,
                mesh: translate_mesh(
                    old(self)@.mesh,
                    sat_sub(pos@.x, old(self)@.pos.x),
                    sat_sub(pos@.y, old(self)@.pos.y),
                ),
                force: old(self)@.force,
                mass: old(self)@.mass,
            }),
    {
        let dx = pos.x.sub(self.pos.x);
        let dy = pos.y.sub(self.pos.y);
        let first = self.mesh[0].translated(dx, dy);
        let second = self.mesh[1].translated(dx, dy);
        let mesh = [first, second];
        assert(triangle_views(mesh@) =~= translate_mesh(triangle_views(self.mesh@), dx@, dy@));
        *self = Particle { pos, mesh, force: self.force, mass: self.mass };
    }

    fn get_pos(&self) -> (pos: Point) {
        self.pos
    }
}

impl Interact for Particle {

}

/// The square of side `size` centred on `pos` lies within the numbers that
/// can be held.
pub open spec fn square_fits(pos: PointView, size: int) -> bool {
    &&& in_range(pos.x)
    &&& in_range(pos.y)
    &&& in_range(pos.x - half_side(size))
    &&& in_range(pos.x + half_side(size))
    &&& in_range(pos.y - half_side(size))
    &&& in_range(pos.y + half_side(size))
}

/// The mesh of `p` is the square of side `size` centred on the position of `p`.
pub open spec fn is_square_about_position(p: ParticleView, size: int) -> bool {
    p.mesh == square_mesh(p.pos, size)
}

/// A move carries the square mesh along: as long as the square fits before
/// and after, a particle whose mesh is the square about its position is
/// moved to a particle whose mesh is the same square about its new position.
pub proof fn lemma_mesh_follows_position(p: ParticleView, size: int, dx: int, dy: int)
    requires
        is_square_about_position(p, size),
        square_fits(p.pos, size),
        square_fits(PointView { x: p.pos.x + dx, y: p.pos.y + dy }, size),
    ensures
        moved_by(p, dx, dy).pos == (PointView { x: p.pos.x + dx, y: p.pos.y + dy }),
        is_square_about_position(moved_by(p, dx, dy), size),
{
    assert(moved_by(p, dx, dy).mesh =~= square_mesh(moved_by(p, dx, dy).pos, size));
}

/// The particle after `n` successive moves, each over a time step `tick`.
pub open spec fn advanced_particle_times(p: ParticleView, tick: int, n: nat) -> ParticleView
    decreases n,
{
    if n == 0 {
        p
    } else {
        advanced_particle(advanced_particle_times(p, tick, (n - 1) as nat), tick)
    }
}

/// The point `v` stays within the numbers that can be held when it is moved
/// `n` times by `(dx, dy)` or once by `(far_x, far_y)`.
pub open spec fn point_move_is_exact(v: PointView, dx: int, dy: int, far_x: int, far_y: int, n: nat) -> bool {
    &&& in_range(v.x)
    &&& in_range(v.y)
    &&& in_range(v.x + n * dx)
    &&& in_range(v.y + n * dy)
    &&& in_range(v.x + far_x)
    &&& in_range(v.y + far_y)
}

/// The three vertices of `t` stay within the numbers that can be held when
/// they are moved `n` times by `(dx, dy)` or once by `(far_x, far_y)`.
pub open spec fn triangle_move_is_exact(
    t: TriangleView,
    dx: int,
    dy: int,
    far_x: int,
    far_y: int,
    n: nat,
) -> bool {
    &&& point_move_is_exact(t.a, dx, dy, far_x, far_y, n)
    &&& point_move_is_exact(t.b, dx, dy, far_x, far_y, n)
    &&& point_move_is_exact(t.c, dx, dy, far_x, far_y, n)
}

/// Nothing saturates when `p` is moved `n` times over `tick`, or once over
/// `n * tick`: neither the position nor any vertex of the mesh.
pub open spec fn particle_move_is_exact(p: ParticleView, tick: int, n: nat) -> bool {
    &&& advance_is_exact(motion_of(p), tick, n)
    &&& forall|i: int|
        0 <= i < p.mesh.len() ==> triangle_move_is_exact(
            #[trigger] p.mesh[i],
            displacement(motion_of(p), tick).x,
            displacement(motion_of(p), tick).y,
            displacement(motion_of(p), n * tick).x,
            displacement(motion_of(p), n * tick).y,
            n,
        )
}

/// The two points differ by less than `n` on each axis.
pub open spec fn points_within(a: PointView, b: PointView, n: int) -> bool {
    abs_int(a.x - b.x) < n && abs_int(a.y - b.y) < n
}

/// The vertices of the two triangles differ by less than `n` on each axis.
pub open spec fn triangles_within(a: TriangleView, b: TriangleView, n: int) -> bool {
    &&& points_within(a.a, b.a, n)
    &&& points_within(a.b, b.b, n)
    &&& points_within(a.c, b.c, n)
}

/// The particle `p` with position and mesh moved by exactly `dx` and `dy`.
pub open spec fn shifted_exactly(p: ParticleView, dx: int, dy: int) -> ParticleView {
    ParticleView {
        pos: PointView { x: p.pos.x + dx, y: p.pos.y + dy },
        mesh: p.mesh.map_values(
            |t: TriangleView|
                TriangleView {
                    a: PointView { x: t.a.x + dx, y: t.a.y + dy },
                    b: PointView { x: t.b.x + dx, y: t.b.y + dy },
                    c: PointView { x: t.c.x + dx, y: t.c.y + dy },
                },
        ),
        force: p.force,
        mass: p.mass,
    }
}

/// While nothing saturates, `k` successive moves shift position and mesh by
/// `k` times the displacement of one move.
proof fn lemma_advanced_particle_times(p: ParticleView, tick: int, n: nat, k: nat)
    requires
        k <= n,
        particle_move_is_exact(p, tick, n),
    ensures
        advanced_particle_times(p, tick, k) == shifted_exactly(
            p,
            k * displacement(motion_of(p), tick).x,
            k * displacement(motion_of(p), tick).y,
        ),
    decreases k,
{
    let dx = displacement(motion_of(p), tick).x;
    let dy = displacement(motion_of(p), tick).y;
    if k == 0 {
        assert(0 * dx == 0 && 0 * dy == 0);
        assert(p.mesh =~= shifted_exactly(p, 0, 0).mesh);
    } else {
        lemma_advanced_particle_times(p, tick, n, (k - 1) as nat);
        let before = shifted_exactly(p, (k - 1) * dx, (k - 1) * dy);
        let after = advanced_particle(before, tick);
        assert(motion_of(before).force == motion_of(p).force);
        assert(motion_of(before).mass == motion_of(p).mass);
        assert(displacement(motion_of(before), tick) == displacement(motion_of(p), tick));
        assert((k - 1) * dx + dx == k * dx) by (nonlinear_arith);
        assert((k - 1) * dy + dy == k * dy) by (nonlinear_arith);
        lemma_between(p.pos.x, dx, n as int, k as int);
        lemma_between(p.pos.y, dy, n as int, k as int);
        let goal = shifted_exactly(p, k * dx, k * dy);
        assert(after.mesh.len() == goal.mesh.len());
        assert forall|i: int| 0 <= i < after.mesh.len() implies after.mesh[i] == goal.mesh[i] by {
            let t = p.mesh[i];
            assert(triangle_move_is_exact(
                t,
                dx,
                dy,
                displacement(motion_of(p), n * tick).x,
                displacement(motion_of(p), n * tick).y,
                n,
            ));
            lemma_between(t.a.x, dx, n as int, k as int);
            lemma_between(t.a.y, dy, n as int, k as int);
            lemma_between(t.b.x, dx, n as int, k as int);
            lemma_between(t.b.y, dy, n as int, k as int);
            lemma_between(t.c.x, dx, n as int, k as int);
            lemma_between(t.c.y, dy, n as int, k as int);
        }
        assert(after.mesh =~= goal.mesh);
    }
}

/// Moving a particle `n` times over a time step `tick` ends where one move
/// over the time `n * tick` ends, up to rounding: the position and every
/// vertex of the mesh differ by less than `n` millionths on each axis, and
/// force and mass are the same. This holds while nothing saturates.
pub proof fn lemma_repeated_move(p: ParticleView, tick: int, n: nat)
    requires
        n >= 1,
        particle_move_is_exact(p, tick, n),
    ensures
        advanced_particle_times(p, tick, n).force == advanced_particle(p, n * tick).force,
        advanced_particle_times(p, tick, n).mass == advanced_particle(p, n * tick).mass,
        points_within(
            advanced_particle_times(p, tick, n).pos,
            advanced_particle(p, n * tick).pos,
            n as int,
        ),
        advanced_particle_times(p, tick, n).mesh.len() == p.mesh.len(),
        advanced_particle(p, n * tick).mesh.len() == p.mesh.len(),
        forall|i: int|
            0 <= i < p.mesh.len() ==> triangles_within(
                #[trigger] advanced_particle_times(p, tick, n).mesh[i],
                advanced_particle(p, n * tick).mesh[i],
                n as int,
            ),
{
    let m = motion_of(p);
    let dx = displacement(m, tick).x;
    let dy = displacement(m, tick).y;
    let far_x = displacement(m, n * tick).x;
    let far_y = displacement(m, n * tick).y;
    lemma_advanced_particle_times(p, tick, n, n);
    lemma_repeated_advance(m, tick, n);
    lemma_advanced_times(m, tick, n, n);
    assert(abs_int(n * dx - far_x) < n);
    assert(abs_int(n * dy - far_y) < n);
    let stepwise = advanced_particle_times(p, tick, n);
    let at_once = advanced_particle(p, n * tick);
    assert forall|i: int| 0 <= i < p.mesh.len() implies triangles_within(
        #[trigger] stepwise.mesh[i],
        at_once.mesh[i],
        n as int,
    ) by {
        assert(triangle_move_is_exact(p.mesh[i], dx, dy, far_x, far_y, n));
    }
}

} // verus!
