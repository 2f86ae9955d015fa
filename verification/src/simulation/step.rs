//! One tick of the simulation: contacts are resolved pair by pair, bodies
//! beyond the arena are turned back, and every body is moved.

use vstd::prelude::*;
use crate::fixed::Fixed;
use crate::physics::body::{
    force_after_exchange, mesh_contacts, partner_force_after_exchange, Interact, Move,
};
use crate::physics::vector::{Vector2D, VectorView};
use crate::simulation::particle::{
    advanced_particle, motion_of, with_force, Particle, ParticleView,
};

verus! {

/// The views of a list of particles.
pub open spec fn particle_views(bodies: Seq<Particle>) -> Seq<ParticleView> {
    bodies.map_values(|p: Particle| p@)
}

/// The meshes of `a` and `b` are in contact, as seen from `a`: the list of
/// contacts of `a` with `b` is not empty.
pub open spec fn touching(a: ParticleView, b: ParticleView) -> bool {
    mesh_contacts(a.mesh, b.mesh).len() > 0
}

/// The bodies after the pair `(i, j)`, `i < j`, has been looked at: if the
/// later body touches the earlier one, the later body exchanges momentum
/// with the earlier one, and both get their new force; nothing else changes.
pub open spec fn resolve_pair(s: Seq<ParticleView>, i: int, j: int) -> Seq<ParticleView> {
    if touching(s[j], s[i]) {
        s.update(j, with_force(s[j], force_after_exchange(motion_of(s[j]), motion_of(s[i]))))
            .update(
            i,
            with_force(s[i], partner_force_after_exchange(motion_of(s[j]), motion_of(s[i]))),
        )
    } else {
        s
    }
}

/// The bodies after the pairs `(i, i + 1)`, ..., `(i, j_end - 1)` have been
/// looked at in that order.
pub open spec fn resolve_row(s: Seq<ParticleView>, i: int, j_end: int) -> Seq<ParticleView>
    decreases j_end - i,
{
    if j_end <= i + 1 {
        s
    } else {
        resolve_pair(resolve_row(s, i, j_end - 1), i, j_end - 1)
    }
}

/// The bodies after all pairs `(i, j)` with `i < j` and `i < i_end` have been
/// looked at, in the order of `i`, then of `j`.
pub open spec fn resolve_rows(s: Seq<ParticleView>, i_end: int) -> Seq<ParticleView>
    decreases i_end,
{
    if i_end <= 0 {
        s
    } else {
        resolve_row(resolve_rows(s, i_end - 1), i_end - 1, s.len() as int)
    }
}

/// The bodies after every unordered pair has been looked at once.
pub open spec fn resolve_contacts(s: Seq<ParticleView>) -> Seq<ParticleView> {
    resolve_rows(s, s.len() as int)
}

/// `v` lies beyond the arena of half-extent `extent` on one axis.
pub open spec fn beyond(v: int, extent: int) -> bool {
    v < -extent || v > extent
}

/// The force of a body at `p` after the boundary check: each component whose
/// axis the body has left the arena on changes sign.
pub open spec fn contained_force(p: ParticleView, extent: int) -> VectorView {
    VectorView {
        x: if beyond(p.pos.x, extent) {
            -p.force.x
        } else {
            p.force.x
        },
        y: if beyond(p.pos.y, extent) {
            -p.force.y
        } else {
            p.force.y
        },
    }
}

/// The body after the boundary check.
pub open spec fn contained(p: ParticleView, extent: int) -> ParticleView {
    with_force(p, contained_force(p, extent))
}

/// The body after the boundary check and the move of one tick.
pub open spec fn settled(p: ParticleView, extent: int, tick: int) -> ParticleView {
    advanced_particle(contained(p, extent), tick)
}

/// The bodies after one tick.
pub open spec fn after_tick(s: Seq<ParticleView>, extent: int, tick: int) -> Seq<ParticleView> {
    resolve_contacts(s).map_values(|p: ParticleView| settled(p, extent, tick))
}

/// Turns a body back that has left the square arena `[-extent, extent]` on
/// both axes: the force component of each axis on which the position lies
/// beyond the arena changes sign.
pub fn contain(body: &mut Particle, extent: Fixed)
    ensures
        final(body)@ == contained(old(body)@, extent@),
        beyond(old(body)@.pos.x, extent@) ==> final(body)@.force.x == -old(body)@.force.x,
        beyond(old(body)@.pos.y, extent@) ==> final(body)@.force.y == -old(body)@.force.y,
{
    let pos = body.get_pos();
    let force = body.get_force();
    let limit: i64 = extent.raw();
    let x: i64 = pos.x.raw();
    let y: i64 = pos.y.raw();
    let force_x = if x < -limit || x > limit {
        force.get_x().neg()
    } else {
        force.get_x()
    };
    let force_y = if y < -limit || y > limit {
        force.get_y().neg()
    } else {
        force.get_y()
    };
    body.set_force(Vector2D::new(force_x, force_y));
}

/// Whether `a` touches `b`.
fn is_touching(a: &Particle, b: &Particle) -> (r: bool)
    ensures
        r == touching(a@, b@),
{
    let contacts = a.collision_with(b);
    assert(contacts@.len() == crate::physics::triangle::contact_views(contacts@).len());
    !contacts.is_empty()
}

/// Advances the simulation by one tick of length `tick` in the square arena
/// of half-extent `extent`.
///
/// Every pair of bodies is looked at once, in the order of the indices; where
/// the later body of a pair touches the earlier one, the two exchange
/// momentum. Then every body is turned back if it has left the arena, and
/// moved.
pub fn step(bodies: &mut Vec<Particle>, extent: Fixed, tick: Fixed)
    ensures
        particle_views(final(bodies)@) == after_tick(particle_views(old(bodies)@), extent@, tick@),
        final(bodies)@.len() == old(bodies)@.len(),
{
    let ghost start = particle_views(bodies@);
    let n = bodies.len();
    let mut i: usize = 0;
    while i < n
        invariant
            i <= n,
            n == bodies@.len(),
            n == start.len(),
            particle_views(bodies@) == resolve_rows(start, i as int),
        decreases n - i,
    {
        let ghost row_start = particle_views(bodies@);
        let mut j: usize = i + 1;
        while j < n
            invariant
                i < n,
                i < j <= n,
                n == bodies@.len(),
                n == row_start.len(),
                particle_views(bodies@) == resolve_row(row_start, i as int, j as int),
            decreases n - j,
        {
            let mut other = bodies[i];
            let mut particle = bodies[j];
            let ghost before = particle_views(bodies@);
            assert(before[i as int] == other@ && before[j as int] == particle@);
            if is_touching(&particle, &other) {
                particle.collide(&mut other);
                bodies.set(j, particle);
                bodies.set(i, other);
                assert(particle_views(bodies@) =~= resolve_pair(before, i as int, j as int));
            }
            j = j + 1;
        }
        assert(resolve_row(row_start, i as int, n as int) == resolve_row(
            resolve_rows(start, i as int),
            i as int,
            start.len() as int,
        ));
        i = i + 1;
    }
    let ghost resolved = particle_views(bodies@);
    let mut k: usize = 0;
    while k < n
        invariant
            k <= n,
            n == bodies@.len(),
            n == resolved.len(),
            resolved == resolve_contacts(start),
            forall|m: int| 0 <= m < k ==> (#[trigger] bodies@[m])@ == settled(resolved[m], extent@, tick@),
            forall|m: int| k <= m < n ==> (#[trigger] bodies@[m])@ == resolved[m],
        decreases n - k,
    {
        let mut body = bodies[k];
        contain(&mut body, extent);
        body.mov(tick);
        bodies.set(k, body);
        k = k + 1;
    }
    assert(particle_views(bodies@) =~= after_tick(start, extent@, tick@));
}

} // verus!
