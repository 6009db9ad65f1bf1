use vstd::prelude::*;

verus! {

/// Sub-units per world unit. Positions are held in sub-units, so that a
/// velocity given in world units per second moves an entity by exactly that
/// many sub-units in one fixed step of `1 / SUB_UNITS_PER_UNIT` seconds.
pub const SUB_UNITS_PER_UNIT: i64 = 60;

/// Largest magnitude of a position coordinate, in sub-units.
pub const WORLD_LIMIT: i64 = 0x1000_0000_0000_0000;

/// Largest magnitude of a velocity component, in world units per second.
pub const VELOCITY_LIMIT: i64 = 0x100_0000_0000;

/// Largest width or height of a collider, in world units.
pub const SIZE_LIMIT: i64 = 0x100_0000_0000;

/// Largest magnitude of a corner coordinate of a rectangle, in sub-units.
pub const CORNER_LIMIT: i64 = 0x2000_0000_0000_0000;

/// A point or offset in the plane, in sub-units.
#[derive(Clone, Copy, Debug, PartialEq, Eq, Structural)]
pub struct Vec2 {
    pub x: i64,
    pub y: i64,
}

/// A point or direction in space; positions are in sub-units, velocities in
/// world units per second.
#[derive(Clone, Copy, Debug, PartialEq, Eq, Structural)]
pub struct Vec3 {
    pub x: i64,
    pub y: i64,
    pub z: i64,
}

impl Vec2 {
    pub fn new(x: i64, y: i64) -> (r: Vec2)
        ensures
            r == (Vec2 { x, y }),
    {
        Vec2 { x, y }
    }

    pub open spec fn bounded(self, limit: int) -> bool {
        -limit <= self.x <= limit && -limit <= self.y <= limit
    }
}

impl Vec3 {
    pub fn new(x: i64, y: i64, z: i64) -> (r: Vec3)
        ensures
            r == (Vec3 { x, y, z }),
    {
        Vec3 { x, y, z }
    }

    pub open spec fn spec_zero() -> Vec3 {
        Vec3 { x: 0, y: 0, z: 0 }
    }

    pub fn zero() -> (r: Vec3)
        ensures
            r == Vec3::spec_zero(),
    {
        Vec3 { x: 0, y: 0, z: 0 }
    }

    pub open spec fn bounded(self, limit: int) -> bool {
        -limit <= self.x <= limit && -limit <= self.y <= limit && -limit <= self.z <= limit
    }

    pub open spec fn spec_xy(self) -> Vec2 {
        Vec2 { x: self.x, y: self.y }
    }

    /// The first two coordinates.
    pub fn xy(&self) -> (r: Vec2)
        ensures
            r == self.spec_xy(),
    {
        Vec2 { x: self.x, y: self.y }
    }
}

/// A world-unit length in sub-units.
pub open spec fn sub_units(units: int) -> int {
    units * SUB_UNITS_PER_UNIT
}

/// One side of a rectangle, from one corner to the next.
#[derive(Clone, Copy, Debug, PartialEq, Eq, Structural)]
pub struct Edge {
    pub v1: Vec2,
    pub v2: Vec2,
}

impl Edge {
    pub fn new(v1: Vec2, v2: Vec2) -> (r: Edge)
        ensures
            r.v1 == v1,
            r.v2 == v2,
    {
        Edge { v1, v2 }
    }
}

/// An axis-aligned rectangle given by its corners: top left, top right,
/// bottom right, bottom left.
#[derive(Clone, Copy, Debug, PartialEq, Eq, Structural)]
pub struct CollisionRectangle {
    pub v1: Vec2,
    pub v2: Vec2,
    pub v3: Vec2,
    pub v4: Vec2,
}

/// The rectangle with the given sides.
pub open spec fn rect_from_sides(left: int, right: int, top: int, bottom: int) -> CollisionRectangle {
    CollisionRectangle {
        v1: Vec2 { x: left as i64, y: top as i64 },
        v2: Vec2 { x: right as i64, y: top as i64 },
        v3: Vec2 { x: right as i64, y: bottom as i64 },
        v4: Vec2 { x: left as i64, y: bottom as i64 },
    }
}

/// The rectangle centred at `c` (sub-units) with the given width and height
/// (world units).
pub open spec fn rect_at(c: Vec2, width: int, height: int) -> CollisionRectangle {
    rect_from_sides(
        c.x - sub_units(width) / 2,
        c.x + sub_units(width) / 2,
        c.y + sub_units(height) / 2,
        c.y - sub_units(height) / 2,
    )
}

impl CollisionRectangle {
    pub open spec fn left(self) -> int {
        self.v1.x as int
    }

    pub open spec fn right(self) -> int {
        self.v2.x as int
    }

    pub open spec fn top(self) -> int {
        self.v1.y as int
    }

    pub open spec fn bottom(self) -> int {
        self.v4.y as int
    }

    /// The corners form an axis-aligned rectangle with no negative side.
    pub open spec fn wf(self) -> bool {
        &&& self == rect_from_sides(self.left(), self.right(), self.top(), self.bottom())
        &&& self.left() <= self.right()
        &&& self.bottom() <= self.top()
    }

    /// The rectangle moved by `offset`.
    pub open spec fn moved(self, offset: Vec2) -> CollisionRectangle {
        CollisionRectangle {
            v1: Vec2 { x: (self.v1.x + offset.x) as i64, y: (self.v1.y + offset.y) as i64 },
            v2: Vec2 { x: (self.v2.x + offset.x) as i64, y: (self.v2.y + offset.y) as i64 },
            v3: Vec2 { x: (self.v3.x + offset.x) as i64, y: (self.v3.y + offset.y) as i64 },
            v4: Vec2 { x: (self.v4.x + offset.x) as i64, y: (self.v4.y + offset.y) as i64 },
        }
    }

    pub open spec fn corners_bounded(self, limit: int) -> bool {
        self.v1.bounded(limit) && self.v2.bounded(limit) && self.v3.bounded(limit)
            && self.v4.bounded(limit)
    }

    /// The rectangle centred at `xy` (sub-units), `width` wide and `height`
    /// high (world units).
    pub fn from_translation(xy: Vec2, width: i64, height: i64) -> (r: CollisionRectangle)
        requires
            xy.bounded(WORLD_LIMIT as int),
            0 <= width <= SIZE_LIMIT,
            0 <= height <= SIZE_LIMIT,
        ensures
            r == rect_at(xy, width as int, height as int),
            r.wf(),
            r.corners_bounded(WORLD_LIMIT + sub_units(SIZE_LIMIT as int)),
    {
        let half_width = width * (SUB_UNITS_PER_UNIT / 2);
        let half_height = height * (SUB_UNITS_PER_UNIT / 2);
        CollisionRectangle {
            v1: Vec2::new(xy.x - half_width, xy.y + half_height),
            v2: Vec2::new(xy.x + half_width, xy.y + half_height),
            v3: Vec2::new(xy.x + half_width, xy.y - half_height),
            v4: Vec2::new(xy.x - half_width, xy.y - half_height),
        }
    }

    /// This rectangle moved by `offset` (sub-units).
    pub fn with_offset(self, offset: Vec2) -> (r: CollisionRectangle)
        requires
            self.corners_bounded(CORNER_LIMIT as int),
            offset.bounded(CORNER_LIMIT as int),
        ensures
            r == self.moved(offset),
            self.wf() ==> r.wf(),
    {
        CollisionRectangle {
            v1: Vec2::new(self.v1.x + offset.x, self.v1.y + offset.y),
            v2: Vec2::new(self.v2.x + offset.x, self.v2.y + offset.y),
            v3: Vec2::new(self.v3.x + offset.x, self.v3.y + offset.y),
            v4: Vec2::new(self.v4.x + offset.x, self.v4.y + offset.y),
        }
    }
}

/// Whether the projections of `a` and `b` overlap on both axes; rectangles
/// that only touch along an edge or at a corner do not.
pub open spec fn overlaps(a: CollisionRectangle, b: CollisionRectangle) -> bool {
    &&& a.v1.x < b.v2.x
    &&& a.v2.x > b.v1.x
    &&& a.v1.y > b.v4.y
    &&& a.v4.y < b.v1.y
}

pub fn rectangles_collision_axis_aligned(rect1: &CollisionRectangle, rect2: &CollisionRectangle) -> (r: bool)
    ensures
        r == overlaps(*rect1, *rect2),
{
    rect1.v1.x < rect2.v2.x && rect1.v2.x > rect2.v1.x && rect1.v1.y > rect2.v4.y
        && rect1.v4.y < rect2.v1.y
}

/// Overlap does not depend on the order of the two rectangles.
pub proof fn lemma_overlap_symmetric(a: CollisionRectangle, b: CollisionRectangle)
    ensures
        overlaps(a, b) == overlaps(b, a),
{
}

/// A rectangle of positive width and height overlaps itself.
pub proof fn lemma_overlaps_itself(c: Vec2, width: int, height: int)
    requires
        c.bounded(WORLD_LIMIT as int),
        0 < width <= SIZE_LIMIT,
        0 < height <= SIZE_LIMIT,
    ensures
        overlaps(rect_at(c, width, height), rect_at(c, width, height)),
{
}

/// Two rectangles that share an edge, and so meet with zero overlap area,
/// do not collide.
pub proof fn lemma_touching_edges_do_not_collide(a: CollisionRectangle, b: CollisionRectangle)
    requires
        a.wf(),
        b.wf(),
        a.right() == b.left() || a.left() == b.right() || a.top() == b.bottom()
            || a.bottom() == b.top(),
    ensures
        !overlaps(a, b),
        !overlaps(b, a),
{
}

} // verus!
