use hari::geometry::{rectangles_collision_axis_aligned, CollisionRectangle, Edge, Vec2, Vec3};

fn units(v: i64) -> i64 {
    v * 60
}

fn rect(x: i64, y: i64, w: i64, h: i64) -> CollisionRectangle {
    CollisionRectangle::from_translation(Vec2::new(units(x), units(y)), w, h)
}

#[test]
fn from_translation_gives_the_four_corners() {
    let r = rect(10, -20, 220, 50);
    assert_eq!(r.v1, Vec2::new(units(-100), units(5)));
    assert_eq!(r.v2, Vec2::new(units(120), units(5)));
    assert_eq!(r.v3, Vec2::new(units(120), units(-45)));
    assert_eq!(r.v4, Vec2::new(units(-100), units(-45)));
}

#[test]
fn with_offset_moves_every_corner() {
    let r = rect(0, -60, 220, 50).with_offset(Vec2::new(0, units(-120)));
    assert_eq!(r, rect(0, -180, 220, 50));
}

#[test]
fn overlap_is_symmetric() {
    let cases = [
        (rect(0, 0, 10, 10), rect(4, 4, 10, 10)),
        (rect(0, 0, 10, 10), rect(40, 0, 10, 10)),
        (rect(0, 0, 100, 2), rect(0, 0, 2, 100)),
        (rect(0, 0, 10, 10), rect(10, 0, 10, 10)),
    ];
    for (a, b) in cases.iter() {
        assert_eq!(
            rectangles_collision_axis_aligned(a, b),
            rectangles_collision_axis_aligned(b, a)
        );
    }
}

#[test]
fn rectangle_overlaps_itself() {
    let a = rect(-7, 3, 1, 1);
    assert!(rectangles_collision_axis_aligned(&a, &a));
    let b = rect(100, -300, 64, 50);
    assert!(rectangles_collision_axis_aligned(&b, &b));
}

#[test]
fn empty_rectangle_does_not_overlap_itself() {
    let a = rect(0, 0, 0, 10);
    assert!(!rectangles_collision_axis_aligned(&a, &a));
}

#[test]
fn touching_edges_do_not_collide() {
    let a = rect(0, 0, 10, 10);
    assert!(!rectangles_collision_axis_aligned(&a, &rect(10, 0, 10, 10)));
    assert!(!rectangles_collision_axis_aligned(&a, &rect(-10, 0, 10, 10)));
    assert!(!rectangles_collision_axis_aligned(&a, &rect(0, 10, 10, 10)));
    assert!(!rectangles_collision_axis_aligned(&a, &rect(0, -10, 10, 10)));
    assert!(!rectangles_collision_axis_aligned(&a, &rect(10, 10, 10, 10)));
}

#[test]
fn a_sliver_of_overlap_collides() {
    let a = CollisionRectangle::from_translation(Vec2::new(0, 0), 10, 10);
    let b = CollisionRectangle::from_translation(Vec2::new(units(10) - 1, 0), 10, 10);
    assert!(rectangles_collision_axis_aligned(&a, &b));
}

#[test]
fn edge_keeps_its_ends() {
    let e = Edge::new(Vec2::new(1, 2), Vec2::new(3, 4));
    assert_eq!(e.v1, Vec2::new(1, 2));
    assert_eq!(e.v2, Vec2::new(3, 4));
}

#[test]
fn xy_drops_the_depth() {
    assert_eq!(Vec3::new(5, -6, 7).xy(), Vec2::new(5, -6));
    assert_eq!(Vec3::zero(), Vec3::new(0, 0, 0));
}
