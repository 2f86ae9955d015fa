//! Initial conditions: where a new particle starts, how hard it is pushed
//! and how large it is, as functions of five random draws.

use rand::rngs::ThreadRng;
use rand::Rng;
use vstd::prelude::*;
use crate::fixed::{Fixed, SCALE};
use crate::physics::point::{Point, PointView};
use crate::physics::vector::{Vector2D, VectorView};
use crate::simulation::particle::{square_mesh, Particle, ParticleView};

verus! {

/// Half the side of the square in which particles start, in whole units.
pub const GAME_SIZE: i64 = 300;

/// The thread-local generator of the `rand` crate, which Verus cannot look
/// into.
#[verifier::external_type_specification]
#[verifier::external_body]
pub struct ExThreadRng(rand::rngs::ThreadRng);

/// The five draws that decide a particle's start.
#[derive(Clone, Copy, Debug, PartialEq, Eq)]
pub struct Draws {
    pub x: u32,
    pub y: u32,
    pub force_x: i64,
    pub force_y: i64,
    pub size: u32,
}

/// The remainder of `n` by `d` with the sign of `n`. Only meaningful for
/// `d > 0`.
pub open spec fn signed_rem(n: int, d: int) -> int {
    if n >= 0 {
        n % d
    } else {
        -((-n) % d)
    }
}

/// The start coordinate for a draw: an even whole number in
/// `[-GAME_SIZE, GAME_SIZE)`.
pub open spec fn coordinate_of(draw: int) -> int {
    (-(GAME_SIZE as int) + (draw % (GAME_SIZE as int)) * 2) * (SCALE as int)
}

/// The start force component for a draw: a whole number in `(-150, 50)`.
pub open spec fn force_of(draw: int) -> int {
    (-50 + signed_rem(draw, 100)) * (SCALE as int)
}

/// The side, and the mass, for a draw: a whole number in `[10, 15)`.
pub open spec fn size_of(draw: int) -> int {
    (10 + draw % 5) * (SCALE as int)
}

/// The particle that the draws `d` give.
pub open spec fn initial_state(d: Draws) -> ParticleView {
    let pos = PointView { x: coordinate_of(d.x as int), y: coordinate_of(d.y as int) };
    ParticleView {
        pos,
        mesh: square_mesh(pos, size_of(d.size as int)),
        force: VectorView { x: force_of(d.force_x as int), y: force_of(d.force_y as int) },
        mass: size_of(d.size as int),
    }
}

/// `p` is the start that some five draws give.
pub open spec fn is_initial_state(p: ParticleView) -> bool {
    exists|d: Draws| p == #[trigger] initial_state(d)
}

/// The start coordinate for a draw.
pub fn initial_coordinate(draw: u32) -> (r: Fixed)
    ensures
        r@ == coordinate_of(draw as int),
{
    let folded: i64 = (draw % 300) as i64;
    Fixed::from_int(-GAME_SIZE + folded * 2)
}

/// The start force component for a draw.
pub fn initial_force(draw: i64) -> (r: Fixed)
    ensures
        r@ == force_of(draw as int),
{
    let folded: i64 = draw % 100;
    Fixed::from_int(-50 + folded)
}

/// The side, and the mass, for a draw.
pub fn initial_size(draw: u32) -> (r: Fixed)
    ensures
        r@ == size_of(draw as int),
        r@ > 0,
{
    let folded: i64 = (draw % 5) as i64;
    Fixed::from_int(10 + folded)
}

/// The particle that the draws `d` give: its mass equals its size.
pub fn particle_from_draws(d: Draws) -> (p: Particle)
    ensures
        p@ == initial_state(d),
{
    let pos = Point { x: initial_coordinate(d.x), y: initial_coordinate(d.y) };
    let force = Vector2D::new(initial_force(d.force_x), initial_force(d.force_y));
    let size = initial_size(d.size);
    match Particle::new(pos, force, size, size) {
        Ok(p) => p,
        Err(_) => {
            proof {
                assert(false);
            }
            vstd::pervasive::unreached()
        },
    }
}

/// Hands out `rand::thread_rng()`, the generator of the calling thread.
/// Nothing is claimed of it. The call panics where the operating system
/// gives no entropy when the thread first asks; no input can rule that out.
#[verifier::external_body]
pub(crate) fn thread_generator() -> (rng: ThreadRng) {
    rand::thread_rng()
}

/// Calls `Rng::gen::<u32>` on the generator. Nothing is claimed of the number
/// that comes back. The call panics where the generator has to reseed itself
/// and the operating system gives no entropy; no input can rule that out.
#[verifier::external_body]
pub(crate) fn draw_u32(rng: &mut ThreadRng) -> (r: u32) {
    rng.gen::<u32>()
}

/// Calls `Rng::gen::<i64>` on the generator. Nothing is claimed of the number
/// that comes back. The call panics where the generator has to reseed itself
/// and the operating system gives no entropy; no input can rule that out.
#[verifier::external_body]
pub(crate) fn draw_i64(rng: &mut ThreadRng) -> (r: i64) {
    rng.gen::<i64>()
}

/// A particle with a random start: the particle that five fresh draws give.
/// It panics only where a draw does, for want of entropy.
pub fn random_particle(rng: &mut ThreadRng) -> (p: Particle)
    ensures
        is_initial_state(p@),
{
    let x = draw_u32(rng);
    let y = draw_u32(rng);
    let force_x = draw_i64(rng);
    let force_y = draw_i64(rng);
    let size = draw_u32(rng);
    let d = Draws { x, y, force_x, force_y, size };
    let p = particle_from_draws(d);
    assert(p@ == initial_state(d));
    p
}

/// `count` particles with random starts. It panics only where the generator
/// does, for want of entropy.
pub fn random_particles(count: usize) -> (bodies: Vec<Particle>)
    ensures
        bodies@.len() == count,
        forall|i: int| 0 <= i < count ==> is_initial_state((#[trigger] bodies@[i])@),
{
    let mut rng = thread_generator();
    let mut bodies: Vec<Particle> = Vec::new();
    let mut i: usize = 0;
    while i < count
        invariant
            i <= count,
            bodies@.len() == i,
            forall|k: int| 0 <= k < i ==> is_initial_state((#[trigger] bodies@[k])@),
        decreases count - i,
    {
        let p = random_particle(&mut rng);
        bodies.push(p);
        i = i + 1;
    }
    bodies
}

} // verus!
