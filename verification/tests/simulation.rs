use particle_collider::fixed::Fixed;
use particle_collider::physics::{Interact, Move, Point, Shape, Vector2D};
use particle_collider::simulation::spawn::{
    initial_coordinate, initial_force, initial_size, particle_from_draws, random_particles, Draws,
};
use particle_collider::simulation::{contain, step, Particle};

fn whole(x: i64, y: i64) -> Point {
    Point { x: Fixed::from_int(x), y: Fixed::from_int(y) }
}

fn point(x: i64, y: i64) -> Point {
    Point { x: Fixed::from_raw(x), y: Fixed::from_raw(y) }
}

fn force(x: i64, y: i64) -> Vector2D {
    Vector2D::new(Fixed::from_int(x), Fixed::from_int(y))
}

fn particle(pos: Point, push: Vector2D, mass: i64, size: i64) -> Particle {
    Particle::new(pos, push, Fixed::from_int(mass), Fixed::from_int(size)).expect("positive mass")
}

#[test]
fn body_inside_the_arena_keeps_its_force() {
    let mut p = particle(whole(300, -300), force(6, 8), 2, 10);
    let before = p;
    contain(&mut p, Fixed::from_int(300));
    assert_eq!(p, before);
}

#[test]
fn body_beyond_the_arena_on_one_axis_is_turned_back() {
    let mut right = particle(whole(301, 0), force(6, 8), 2, 10);
    contain(&mut right, Fixed::from_int(300));
    assert_eq!(right.get_force(), force(-6, 8));
    let mut left = particle(whole(-301, 0), force(-6, 8), 2, 10);
    contain(&mut left, Fixed::from_int(300));
    assert_eq!(left.get_force(), force(6, 8));
    let mut above = particle(whole(0, 301), force(6, 8), 2, 10);
    contain(&mut above, Fixed::from_int(300));
    assert_eq!(above.get_force(), force(6, -8));
    let mut below = particle(point(0, -300_000_001), force(6, -8), 2, 10);
    contain(&mut below, Fixed::from_int(300));
    assert_eq!(below.get_force(), force(6, 8));
}

#[test]
fn body_beyond_the_arena_on_both_axes_is_turned_back_on_both() {
    let mut p = particle(whole(310, -305), force(6, 8), 2, 10);
    let before = p;
    contain(&mut p, Fixed::from_int(300));
    assert_eq!(p.get_force(), force(-6, -8));
    assert_eq!(p.get_pos(), before.get_pos());
    assert_eq!(p.get_mesh(), before.get_mesh());
    assert_eq!(p.get_mass(), before.get_mass());
}

#[test]
fn tick_resolves_contacts_turns_back_and_moves() {
    let mut bodies = vec![
        particle(whole(0, 0), force(10, 0), 1, 10),
        particle(whole(4, 4), force(-5, 0), 2, 10),
        particle(whole(310, -305), force(6, 8), 2, 10),
        particle(whole(100, 100), force(2, 2), 4, 10),
    ];
    step(&mut bodies, Fixed::from_int(300), Fixed::from_raw(100_000));
    assert_eq!(bodies.len(), 4);
    // The first two touch: the later one exchanges momentum with the earlier
    // one before they move. The speeds are -2.5 and 10, their difference
    // -12.5; the later body gains -12.5 - (-12.5 * 2 / 1) = 12.5 in speed.
    assert_eq!(bodies[0].get_force(), Vector2D::new(Fixed::from_raw(-22_500_000), Fixed::zero()));
    assert_eq!(bodies[0].get_pos(), point(-2_250_000, 0));
    assert_eq!(bodies[0].get_mesh()[0].a, point(-7_250_000, 5_000_000));
    assert_eq!(bodies[1].get_force(), force(30, 0));
    assert_eq!(bodies[1].get_pos(), point(5_500_000, 4_000_000));
    assert_eq!(bodies[1].get_mesh()[0].a, point(500_000, 9_000_000));
    // The third is beyond the arena on both axes.
    assert_eq!(bodies[2].get_force(), force(-6, -8));
    assert_eq!(bodies[2].get_pos(), point(309_700_000, -305_400_000));
    assert_eq!(bodies[2].get_mesh()[0].a, point(304_700_000, -300_400_000));
    // The fourth only moves.
    assert_eq!(bodies[3].get_force(), force(2, 2));
    assert_eq!(bodies[3].get_pos(), point(100_050_000, 100_050_000));
    assert_eq!(bodies[3].get_mesh()[0].a, point(95_050_000, 105_050_000));
}

#[test]
fn tick_of_no_bodies_does_nothing() {
    let mut bodies: Vec<Particle> = Vec::new();
    step(&mut bodies, Fixed::from_int(300), Fixed::from_raw(100_000));
    assert!(bodies.is_empty());
}

#[test]
fn tick_of_no_time_only_changes_forces() {
    let start = vec![
        particle(whole(0, 0), force(10, 0), 1, 10),
        particle(whole(4, 4), force(-5, 0), 2, 10),
    ];
    let mut bodies = start.clone();
    step(&mut bodies, Fixed::from_int(300), Fixed::zero());
    for (after, before) in bodies.iter().zip(start.iter()) {
        assert_eq!(after.get_pos(), before.get_pos());
        assert_eq!(after.get_mesh(), before.get_mesh());
    }
    assert_eq!(bodies[0].get_force(), Vector2D::new(Fixed::from_raw(-22_500_000), Fixed::zero()));
    assert_eq!(bodies[1].get_force(), force(30, 0));
}

#[test]
fn later_body_of_a_touching_pair_is_the_one_that_collides() {
    let first = particle(whole(0, 0), force(10, 0), 1, 10);
    let second = particle(whole(4, 4), force(-5, 0), 2, 10);
    let mut bodies = vec![first, second];
    step(&mut bodies, Fixed::from_int(300), Fixed::zero());
    let (mut other, mut particle) = (first, second);
    particle.collide(&mut other);
    assert_eq!(bodies, vec![other, particle]);
}

#[test]
fn touching_pair_of_very_unequal_masses_exchanges_momentum() {
    let heavy = particle(whole(0, 0), force(10, 0), 2_000_000, 10);
    let light = particle(whole(4, 4), force(-5, 0), 1, 10);
    let mut bodies = vec![heavy, light];
    step(&mut bodies, Fixed::from_int(300), Fixed::zero());
    assert_eq!(
        bodies[0].get_force(),
        Vector2D::new(Fixed::from_raw(9_999_996_000_000), Fixed::zero())
    );
    assert_eq!(bodies[1].get_force(), Vector2D::new(Fixed::from_raw(-3), Fixed::zero()));
    assert_eq!(bodies[0].get_pos(), heavy.get_pos());
    assert_eq!(bodies[1].get_pos(), light.get_pos());
}

#[test]
fn start_coordinates_are_even_numbers_in_the_arena() {
    assert_eq!(initial_coordinate(0), Fixed::from_int(-300));
    assert_eq!(initial_coordinate(1), Fixed::from_int(-298));
    assert_eq!(initial_coordinate(299), Fixed::from_int(298));
    assert_eq!(initial_coordinate(300), Fixed::from_int(-300));
    assert_eq!(initial_coordinate(u32::MAX), Fixed::from_int(-300 + 2 * (u32::MAX % 300) as i64));
}

#[test]
fn start_forces_keep_the_sign_of_the_draw() {
    assert_eq!(initial_force(0), Fixed::from_int(-50));
    assert_eq!(initial_force(99), Fixed::from_int(49));
    assert_eq!(initial_force(100), Fixed::from_int(-50));
    assert_eq!(initial_force(-1), Fixed::from_int(-51));
    assert_eq!(initial_force(-99), Fixed::from_int(-149));
    assert_eq!(initial_force(i64::MIN), Fixed::from_int(-58));
    assert_eq!(initial_force(i64::MAX), Fixed::from_int(-43));
}

#[test]
fn start_sizes_run_from_ten_to_fourteen() {
    assert_eq!(initial_size(0), Fixed::from_int(10));
    assert_eq!(initial_size(4), Fixed::from_int(14));
    assert_eq!(initial_size(5), Fixed::from_int(10));
    assert_eq!(initial_size(u32::MAX), Fixed::from_int(10));
}

#[test]
fn draws_decide_the_start() {
    let p = particle_from_draws(Draws { x: 150, y: 301, force_x: 75, force_y: -20, size: 7 });
    assert_eq!(p, particle(whole(0, -298), force(25, -70), 12, 12));
}

#[test]
fn random_particles_start_inside_the_arena() {
    let bodies = random_particles(40);
    assert_eq!(bodies.len(), 40);
    for p in bodies.iter() {
        let pos = p.get_pos();
        for c in [pos.x.raw(), pos.y.raw()] {
            assert!(-300_000_000 <= c && c < 300_000_000 && c % 2_000_000 == 0);
        }
        let push = p.get_force();
        for f in [push.get_x().raw(), push.get_y().raw()] {
            assert!(-150_000_000 < f && f < 50_000_000 && f % 1_000_000 == 0);
        }
        let mass = p.get_mass().raw();
        assert!(10_000_000 <= mass && mass < 15_000_000 && mass % 1_000_000 == 0);
        assert_eq!(*p, particle(pos, push, mass / 1_000_000, mass / 1_000_000));
    }
    assert!(random_particles(0).is_empty());
}
