use vstd::prelude::*;

use crate::geometry::{Vec3, SIZE_LIMIT, VELOCITY_LIMIT, WORLD_LIMIT};

verus! {

/// Length of one fixed simulation step, in nanoseconds (a sixtieth of a
/// second, rounded to the nearest nanosecond).
pub const FIXED_STEP_NANOS: u64 = 16_666_667;

/// How many world units per second an entity moves.
#[derive(Clone, Copy, Debug, PartialEq, Eq, Structural)]
pub struct Velocity(pub Vec3);

/// The position of an entity in the simulation, in sub-units. What is drawn
/// is interpolated between this and the previous one.
#[derive(Clone, Copy, Debug, PartialEq, Eq, Structural)]
pub struct PhysicalTranslation(pub Vec3);

/// The value that [`PhysicalTranslation`] had at the end of the previous
/// fixed step.
#[derive(Clone, Copy, Debug, PartialEq, Eq, Structural)]
pub struct PreviousPhysicalTranslation(pub Vec3);

/// An axis-aligned hitbox, `width` by `height` world units. A disabled
/// collider takes part in no further collision.
#[derive(Clone, Copy, Debug, PartialEq, Eq, Structural)]
pub struct RectangleCollider {
    pub enabled: bool,
    pub width: i64,
    pub height: i64,
}

impl RectangleCollider {
    pub fn new(enabled: bool, width: i64, height: i64) -> (r: RectangleCollider)
        ensures
            r == (RectangleCollider { enabled, width, height }),
    {
        RectangleCollider { enabled, width, height }
    }

    /// Width and height are neither negative nor too large.
    pub open spec fn wf(self) -> bool {
        0 <= self.width <= SIZE_LIMIT && 0 <= self.height <= SIZE_LIMIT
    }
}

/// The kinematic state of a moving entity.
#[derive(Clone, Copy, Debug, PartialEq, Eq, Structural)]
pub struct PhysicsMovementBundle {
    pub physical_translation: PhysicalTranslation,
    pub velocity: Velocity,
    pub previous_physical_translation: PreviousPhysicalTranslation,
}

/// Clamps `v` into the world's range of coordinates.
pub open spec fn clamp_to_world(v: int) -> int {
    if v < -WORLD_LIMIT {
        -WORLD_LIMIT as int
    } else if v > WORLD_LIMIT {
        WORLD_LIMIT as int
    } else {
        v
    }
}

/// A coordinate after one fixed step at velocity `v`: one sub-unit per unit
/// of velocity, kept inside the world.
pub open spec fn stepped(p: int, v: int) -> int {
    clamp_to_world(p + v)
}

/// The position `p` moved by one fixed step at velocity `v`.
pub open spec fn stepped_vec(p: Vec3, v: Vec3) -> Vec3 {
    Vec3 {
        x: stepped(p.x as int, v.x as int) as i64,
        y: stepped(p.y as int, v.y as int) as i64,
        z: stepped(p.z as int, v.z as int) as i64,
    }
}

/// The point at fraction `a / step` of the way from `prev` to `pos`,
/// rounded towards `prev`.
pub open spec fn lerp(prev: int, pos: int, a: int, step: int) -> int {
    if pos >= prev {
        prev + (pos - prev) * a / step
    } else {
        prev - (prev - pos) * a / step
    }
}

/// The overstep clamped to at most one step.
pub open spec fn alpha_nanos(overstep: int, step: int) -> int {
    if overstep < step {
        overstep
    } else {
        step
    }
}

pub open spec fn lerp_vec(prev: Vec3, pos: Vec3, a: int, step: int) -> Vec3 {
    Vec3 {
        x: lerp(prev.x as int, pos.x as int, a, step) as i64,
        y: lerp(prev.y as int, pos.y as int, a, step) as i64,
        z: lerp(prev.z as int, pos.z as int, a, step) as i64,
    }
}

fn step_coord(p: i64, v: i64) -> (r: i64)
    requires
        -WORLD_LIMIT <= p <= WORLD_LIMIT,
        -VELOCITY_LIMIT <= v <= VELOCITY_LIMIT,
    ensures
        r == stepped(p as int, v as int),
        -WORLD_LIMIT <= r <= WORLD_LIMIT,
{
    let s = p + v;
    if s < -WORLD_LIMIT {
        -WORLD_LIMIT
    } else if s > WORLD_LIMIT {
        WORLD_LIMIT
    } else {
        s
    }
}

/// The part `d * a / step` of a distance `d` is no larger than `d`, and
/// the product fits in an `i128`.
proof fn lemma_scaled_part(d: int, a: int, step: int)
    requires
        0 <= d <= 0x2000_0000_0000_0000,
        0 <= a <= step,
        0 < step <= 0x1_0000_0000_0000_0000,
    ensures
        0 <= d * a <= 0x2000_0000_0000_0000 * 0x1_0000_0000_0000_0000,
        0 <= d * a / step <= d,
{
    assert(0 <= d * a <= d * step) by (nonlinear_arith)
        requires
            0 <= d,
            0 <= a <= step,
    ;
    assert(d * step <= 0x2000_0000_0000_0000 * 0x1_0000_0000_0000_0000) by (nonlinear_arith)
        requires
            0 <= d <= 0x2000_0000_0000_0000,
            0 < step <= 0x1_0000_0000_0000_0000,
    ;
    assert(0 <= (d * a) / step <= d) by (nonlinear_arith)
        requires
            0 <= d * a <= d * step,
            0 < step,
    ;
}

fn lerp_coord(prev: i64, pos: i64, a: u64, step: u64) -> (r: i64)
    requires
        -WORLD_LIMIT <= prev <= WORLD_LIMIT,
        -WORLD_LIMIT <= pos <= WORLD_LIMIT,
        0 < step,
        a <= step,
    ensures
        r == lerp(prev as int, pos as int, a as int, step as int),
        -WORLD_LIMIT <= r <= WORLD_LIMIT,
{
    let forward = pos >= prev;
    let d: i128 = if forward {
        pos as i128 - prev as i128
    } else {
        prev as i128 - pos as i128
    };
    proof {
        lemma_scaled_part(d as int, a as int, step as int);
    }
    let q: i128 = d * (a as i128) / (step as i128);
    if forward {
        (prev as i128 + q) as i64
    } else {
        (prev as i128 - q) as i64
    }
}

impl PhysicsMovementBundle {
    /// An entity at rest at `physical_translation`, moving at `velocity`.
    pub fn new(physical_translation: Vec3, velocity: Vec3) -> (r: PhysicsMovementBundle)
        ensures
            r.physical_translation.0 == physical_translation,
            r.previous_physical_translation.0 == physical_translation,
            r.velocity.0 == velocity,
    {
        PhysicsMovementBundle {
            physical_translation: PhysicalTranslation(physical_translation),
            velocity: Velocity(velocity),
            previous_physical_translation: PreviousPhysicalTranslation(physical_translation),
        }
    }

    /// Positions lie inside the world and the velocity is within its limit.
    pub open spec fn wf(self) -> bool {
        &&& self.physical_translation.0.bounded(WORLD_LIMIT as int)
        &&& self.previous_physical_translation.0.bounded(WORLD_LIMIT as int)
        &&& self.velocity.0.bounded(VELOCITY_LIMIT as int)
    }

    /// The state after one fixed step.
    pub open spec fn advanced(self) -> PhysicsMovementBundle {
        PhysicsMovementBundle {
            physical_translation: PhysicalTranslation(
                stepped_vec(self.physical_translation.0, self.velocity.0),
            ),
            velocity: self.velocity,
            previous_physical_translation: PreviousPhysicalTranslation(self.physical_translation.0),
        }
    }

    /// One fixed step: the previous position becomes the current one, and
    /// the current one moves by the velocity times the step.
    pub fn advance_physics(&mut self)
        requires
            old(self).wf(),
        ensures
            *final(self) == old(self).advanced(),
            final(self).wf(),
    {
        let p = self.physical_translation.0;
        let v = self.velocity.0;
        self.previous_physical_translation = PreviousPhysicalTranslation(p);
        self.physical_translation = PhysicalTranslation(
            Vec3::new(step_coord(p.x, v.x), step_coord(p.y, v.y), step_coord(p.z, v.z)),
        );
    }

    /// The position to draw, `overstep_nanos` after the last fixed step of
    /// `step_nanos`: the previous position moved towards the current one by
    /// the fraction `overstep_nanos / step_nanos`, clamped to at most one.
    pub fn rendered_translation(&self, overstep_nanos: u64, step_nanos: u64) -> (r: Vec3)
        requires
            self.wf(),
            step_nanos > 0,
        ensures
            r == lerp_vec(
                self.previous_physical_translation.0,
                self.physical_translation.0,
                alpha_nanos(overstep_nanos as int, step_nanos as int),
                step_nanos as int,
            ),
            r.bounded(WORLD_LIMIT as int),
    {
        let a = if overstep_nanos < step_nanos {
            overstep_nanos
        } else {
            step_nanos
        };
        let prev = self.previous_physical_translation.0;
        let pos = self.physical_translation.0;
        Vec3::new(
            lerp_coord(prev.x, pos.x, a, step_nanos),
            lerp_coord(prev.y, pos.y, a, step_nanos),
            lerp_coord(prev.z, pos.z, a, step_nanos),
        )
    }
}

impl Default for PhysicsMovementBundle {
    fn default() -> (r: PhysicsMovementBundle)
        ensures
            r.physical_translation.0 == Vec3::spec_zero(),
            r.previous_physical_translation.0 == Vec3::spec_zero(),
            r.velocity.0 == Vec3::spec_zero(),
    {
        PhysicsMovementBundle::new(Vec3::zero(), Vec3::zero())
    }
}

} // verus!
