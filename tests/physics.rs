use hari::geometry::Vec3;
use hari::physics::{PhysicsMovementBundle, RectangleCollider, FIXED_STEP_NANOS};

#[test]
fn advance_moves_by_velocity_and_remembers_the_previous_position() {
    let mut b = PhysicsMovementBundle::new(Vec3::new(0, 600 * 60, 60), Vec3::new(0, -280, 0));
    b.advance_physics();
    assert_eq!(b.previous_physical_translation.0, Vec3::new(0, 36000, 60));
    assert_eq!(b.physical_translation.0, Vec3::new(0, 36000 - 280, 60));
    assert_eq!(b.velocity.0, Vec3::new(0, -280, 0));
}

#[test]
fn one_second_of_steps_moves_by_the_velocity_in_units() {
    let mut b = PhysicsMovementBundle::new(Vec3::new(0, 0, 0), Vec3::new(500, -280, 3));
    for _ in 0..60 {
        b.advance_physics();
    }
    assert_eq!(b.physical_translation.0, Vec3::new(500 * 60, -280 * 60, 3 * 60));
}

#[test]
fn rendered_translation_interpolates() {
    let mut b = PhysicsMovementBundle::new(Vec3::new(0, 0, 0), Vec3::new(60, -120, 0));
    b.advance_physics();
    assert_eq!(b.rendered_translation(0, 1000), Vec3::new(0, 0, 0));
    assert_eq!(b.rendered_translation(500, 1000), Vec3::new(30, -60, 0));
    assert_eq!(b.rendered_translation(250, 1000), Vec3::new(15, -30, 0));
    assert_eq!(b.rendered_translation(1000, 1000), Vec3::new(60, -120, 0));
}

#[test]
fn rendered_translation_clamps_alpha_to_one() {
    let mut b = PhysicsMovementBundle::new(Vec3::new(10, 10, 10), Vec3::new(-60, 60, 0));
    b.advance_physics();
    assert_eq!(
        b.rendered_translation(3 * FIXED_STEP_NANOS, FIXED_STEP_NANOS),
        Vec3::new(-50, 70, 10)
    );
}

#[test]
fn rendered_translation_rounds_towards_the_previous_position() {
    let mut b = PhysicsMovementBundle::new(Vec3::new(0, 0, 0), Vec3::new(-1, 1, 0));
    b.advance_physics();
    assert_eq!(b.rendered_translation(1, 2), Vec3::new(0, 0, 0));
}

#[test]
fn default_bundle_is_at_rest_at_the_origin() {
    let b = PhysicsMovementBundle::default();
    assert_eq!(b.physical_translation.0, Vec3::new(0, 0, 0));
    assert_eq!(b.previous_physical_translation.0, Vec3::new(0, 0, 0));
    assert_eq!(b.velocity.0, Vec3::new(0, 0, 0));
}

#[test]
fn collider_new_keeps_its_fields() {
    let c = RectangleCollider::new(true, 64, 50);
    assert!(c.enabled);
    assert_eq!(c.width, 64);
    assert_eq!(c.height, 50);
}
