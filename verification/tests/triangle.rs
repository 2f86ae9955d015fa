use particle_collider::fixed::Fixed;
use particle_collider::physics::{Point, Triangle};

fn whole(x: i64, y: i64) -> Point {
    Point { x: Fixed::from_int(x), y: Fixed::from_int(y) }
}

fn corner_triangle() -> Triangle {
    Triangle::new(whole(0, 0), whole(6, 0), whole(0, 6))
}

#[test]
fn triangle_keeps_its_vertices() {
    let t = Triangle::new(whole(1, 2), whole(3, 4), whole(5, -6));
    assert_eq!((t.a, t.b, t.c), (whole(1, 2), whole(3, 4), whole(5, -6)));
}

#[test]
fn extents_of_a_triangle() {
    let t = Triangle::new(whole(1, 2), whole(3, 4), whole(5, -6));
    assert_eq!(t.leftest(), Fixed::from_int(1));
    assert_eq!(t.rightest(), Fixed::from_int(5));
    assert_eq!(t.upest(), Fixed::from_int(4));
    assert_eq!(t.lowest(), Fixed::from_int(-6));
}

#[test]
fn points_are_the_vertices_in_order() {
    let t = Triangle::new(whole(1, 2), whole(3, 4), whole(5, -6));
    let points = t.points();
    assert_eq!((*points[0], *points[1], *points[2]), (t.a, t.b, t.c));
}

#[test]
fn vertices_can_be_changed_in_place() {
    let mut t = Triangle::new(whole(1, 2), whole(3, 4), whole(5, -6));
    for p in t.points_mut() {
        p.x = p.x.add(Fixed::from_int(10));
        p.y = p.y.sub(Fixed::from_int(1));
    }
    assert_eq!(t, Triangle::new(whole(11, 1), whole(13, 3), whole(15, -7)));
}

#[test]
fn triangle_is_moved() {
    let t = Triangle::new(whole(1, 2), whole(3, 4), whole(5, -6));
    let moved = t.translated(Fixed::from_int(-1), Fixed::from_raw(500_000));
    let half = Fixed::from_raw(500_000);
    assert_eq!(moved.a, Point { x: Fixed::from_int(0), y: Fixed::from_int(2).add(half) });
    assert_eq!(moved.b, Point { x: Fixed::from_int(2), y: Fixed::from_int(4).add(half) });
    assert_eq!(moved.c, Point { x: Fixed::from_int(4), y: Fixed::from_int(-6).add(half) });
    assert_eq!(t.translated(Fixed::zero(), Fixed::zero()), t);
}

#[test]
fn edges_are_ordered_segments() {
    let t = Triangle::new(whole(1, 2), whole(3, 4), whole(5, -6));
    let lines = t.lines();
    assert_eq!((*lines[0].a, *lines[0].b), (t.a, t.b));
    assert_eq!((*lines[1].a, *lines[1].b), (t.b, t.c));
    assert_eq!((*lines[2].a, *lines[2].b), (t.a, t.c));
}

#[test]
fn triangle_contains_inner_and_border_points() {
    let t = corner_triangle();
    assert!(t.contains(&whole(2, 2)));
    assert!(t.contains(&whole(0, 0)));
    assert!(t.contains(&whole(3, 3)));
    assert!(t.contains(&whole(6, 0)));
    assert!(!t.contains(&whole(-1, 2)));
    assert!(!t.contains(&whole(4, 4)));
    assert!(!t.contains(&whole(7, 0)));
}

#[test]
fn orientation_does_not_matter_for_containment() {
    let t = Triangle::new(whole(0, 6), whole(6, 0), whole(0, 0));
    assert!(t.contains(&whole(2, 2)));
    assert!(!t.contains(&whole(4, 4)));
}

#[test]
fn triangle_without_area_contains_nothing() {
    let t = Triangle::new(whole(0, 0), whole(1, 1), whole(2, 2));
    assert!(!t.contains(&whole(1, 1)));
    assert!(!t.contains(&whole(0, 0)));
}

#[test]
fn centroid_lies_inside() {
    let triangles = [
        corner_triangle(),
        Triangle::new(whole(0, 6), whole(6, 0), whole(0, 0)),
        Triangle::new(whole(-9, 3), whole(30, 3), whole(12, -60)),
    ];
    for t in triangles.iter() {
        let third = Fixed::from_int(3);
        let centroid = Point {
            x: t.a.x.add(t.b.x).add(t.c.x).div(third),
            y: t.a.y.add(t.b.y).add(t.c.y).div(third),
        };
        assert_eq!(centroid.x.mul(third), t.a.x.add(t.b.x).add(t.c.x));
        assert_eq!(centroid.y.mul(third), t.a.y.add(t.b.y).add(t.c.y));
        assert!(t.contains(&centroid));
    }
}

#[test]
fn distant_triangles_have_no_contact() {
    let t = corner_triangle();
    let far = Triangle::new(whole(20, 20), whole(26, 20), whole(20, 26));
    assert!(t.get_collisions(&far).is_empty());
    assert!(far.get_collisions(&t).is_empty());
}

#[test]
fn triangle_has_no_contact_with_itself() {
    let t = corner_triangle();
    assert!(t.get_collisions(&t).is_empty());
}

#[test]
fn overlapping_triangles_list_each_contact_once_per_outer_vertex() {
    let t = corner_triangle();
    let other = Triangle::new(whole(1, 1), whole(7, 1), whole(1, 7));
    let contacts = t.get_collisions(&other);
    // Two of the vertices of `other` lie outside `t`; each adds both contacts.
    assert_eq!(contacts.len(), 4);
    let hits: Vec<i64> = contacts.iter().map(|c| c.hit().raw()).collect();
    assert_eq!(hits, vec![5_000_000, 1_000_000, 5_000_000, 1_000_000]);
    // Each contact names the edge of `other` first.
    assert_eq!((*contacts[0].line_a().a, *contacts[0].line_a().b), (whole(1, 1), whole(7, 1)));
    assert_eq!((*contacts[0].line_b().a, *contacts[0].line_b().b), (whole(0, 6), whole(6, 0)));
    assert_eq!((*contacts[1].line_a().a, *contacts[1].line_a().b), (whole(1, 7), whole(1, 1)));
    assert_eq!((*contacts[1].line_b().a, *contacts[1].line_b().b), (whole(0, 6), whole(6, 0)));
    assert_eq!(other.get_collisions(&t).len(), 6);
}
