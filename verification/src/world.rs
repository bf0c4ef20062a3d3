//! World-space positions in fixed point.
//!
//! World coordinates are whole numbers of [`UNIT`]ths of a grid cell, so that
//! every comparison between positions is exact.

use vstd::prelude::*;
use vstd::std_specs::ops::AddSpecImpl;
use crate::geometry::Rotation;

verus! {

/// World units per grid cell.
pub const UNIT: i128 = 1000;

/// Half a cell in world units.
pub const HALF_UNIT: i128 = 500;

/// The height, in world units, of the surface on which cubes travel: one cell
/// above the ground.
pub const SURFACE: i128 = 1000;

/// A mathematical world position: unbounded coordinates, `y` pointing up.
pub struct Point {
    pub x: int,
    pub y: int,
    pub z: int,
}

impl Point {
    /// Component-wise sum.
    pub open spec fn plus(self, other: Point) -> Point {
        Point { x: self.x + other.x, y: self.y + other.y, z: self.z + other.z }
    }

    /// The position turned by `r` about the vertical axis through the origin.
    pub open spec fn rotated(self, r: Rotation) -> Point {
        match r {
            Rotation::D0 => self,
            Rotation::D90 => Point { x: -self.z, y: self.y, z: self.x },
            Rotation::D180 => Point { x: -self.x, y: self.y, z: -self.z },
            Rotation::D270 => Point { x: self.z, y: self.y, z: -self.x },
        }
    }

    /// Squared Euclidean distance.
    pub open spec fn distance_squared(self, other: Point) -> int {
        (self.x - other.x) * (self.x - other.x) + (self.y - other.y) * (self.y - other.y) + (self.z
            - other.z) * (self.z - other.z)
    }

    /// All three coordinates are representable as `i128`.
    pub open spec fn fits(self) -> bool {
        &&& i128::MIN <= self.x <= i128::MAX
        &&& i128::MIN <= self.y <= i128::MAX
        &&& i128::MIN <= self.z <= i128::MAX
    }
}

/// A world position with machine-sized coordinates.
#[derive(Debug, PartialEq, Eq, Clone, Copy, Structural)]
pub struct WorldPos {
    pub x: i128,
    pub y: i128,
    pub z: i128,
}

impl View for WorldPos {
    type V = Point;

    open spec fn view(&self) -> Point {
        Point { x: self.x as int, y: self.y as int, z: self.z as int }
    }
}

proof fn lemma_far_on_one_axis(d: int, rest: int)
    requires
        d >= 0x1_0000_0000 || d <= -0x1_0000_0000,
        rest >= 0,
    ensures
        d * d + rest >= 0x1_0000_0000_0000_0000,
{
    assert(d * d >= 0x1_0000_0000_0000_0000) by (nonlinear_arith)
        requires
            d >= 0x1_0000_0000 || d <= -0x1_0000_0000,
    ;
}

proof fn lemma_square_bounds(d: int)
    requires
        -0x1_0000_0000 < d < 0x1_0000_0000,
    ensures
        0 <= d * d < 0x1_0000_0000_0000_0000,
{
    assert(0 <= d * d < 0x1_0000_0000_0000_0000) by (nonlinear_arith)
        requires
            -0x1_0000_0000 < d < 0x1_0000_0000,
    ;
}

/// The difference `a - b` where it is small enough to be squared, `None`
/// where its square alone exceeds every 64-bit limit.
fn axis_gap(a: i128, b: i128) -> (gap: Option<i128>)
    ensures
        match gap {
            Some(d) => d == a - b && -0x1_0000_0000 < d < 0x1_0000_0000,
            None => a - b >= 0x1_0000_0000 || a - b <= -0x1_0000_0000,
        },
{
    match a.checked_sub(b) {
        Some(d) => {
            if d < 0x1_0000_0000 && d > -0x1_0000_0000 {
                Some(d)
            } else {
                None
            }
        },
        None => None,
    }
}

impl WorldPos {
    pub fn new(x: i128, y: i128, z: i128) -> (p: Self)
        ensures
            p.x == x,
            p.y == y,
            p.z == z,
    {
        WorldPos { x, y, z }
    }

    /// The position turned by `rotation` about the vertical axis.
    pub fn rotated(&self, rotation: Rotation) -> (p: Self)
        requires
            self@.rotated(rotation).fits(),
        ensures
            p@ == self@.rotated(rotation),
    {
        match rotation {
            Rotation::D0 => WorldPos { x: self.x, y: self.y, z: self.z },
            Rotation::D90 => WorldPos { x: -self.z, y: self.y, z: self.x },
            Rotation::D180 => WorldPos { x: -self.x, y: self.y, z: -self.z },
            Rotation::D270 => WorldPos { x: self.z, y: self.y, z: -self.x },
        }
    }

    /// This position, taken relative to something that stands at `origin`
    /// turned by `rotation`, in world space: `None` if that does not fit the
    /// machine coordinates.
    pub fn placed(&self, origin: WorldPos, rotation: Rotation) -> (p: Option<WorldPos>)
        ensures
            p is Some <==> origin@.plus(self@.rotated(rotation)).fits(),
            p matches Some(world) ==> world@ == origin@.plus(self@.rotated(rotation)),
    {
        let x = match rotation {
            Rotation::D0 => origin.x.checked_add(self.x),
            Rotation::D90 => origin.x.checked_sub(self.z),
            Rotation::D180 => origin.x.checked_sub(self.x),
            Rotation::D270 => origin.x.checked_add(self.z),
        };
        let y = origin.y.checked_add(self.y);
        let z = match rotation {
            Rotation::D0 => origin.z.checked_add(self.z),
            Rotation::D90 => origin.z.checked_add(self.x),
            Rotation::D180 => origin.z.checked_sub(self.z),
            Rotation::D270 => origin.z.checked_sub(self.x),
        };
        match (x, y, z) {
            (Some(x), Some(y), Some(z)) => Some(WorldPos { x, y, z }),
            _ => None,
        }
    }

    /// Whether the squared distance to `other` is below `limit_sq`.
    pub fn within(&self, other: &WorldPos, limit_sq: u64) -> (near: bool)
        ensures
            near == (self@.distance_squared(other@) < limit_sq),
    {
        let ghost dx = self.x - other.x;
        let ghost dy = self.y - other.y;
        let ghost dz = self.z - other.z;
        proof {
            assert(dx * dx >= 0 && dy * dy >= 0 && dz * dz >= 0) by (nonlinear_arith);
        }
        let gx = axis_gap(self.x, other.x);
        let gy = axis_gap(self.y, other.y);
        let gz = axis_gap(self.z, other.z);
        match (gx, gy, gz) {
            (Some(x), Some(y), Some(z)) => {
                proof {
                    lemma_square_bounds(x as int);
                    lemma_square_bounds(y as int);
                    lemma_square_bounds(z as int);
                }
                x * x + y * y + z * z < limit_sq as i128
            },
            _ => {
                proof {
                    if gx is None {
                        lemma_far_on_one_axis(dx, dy * dy + dz * dz);
                    } else if gy is None {
                        lemma_far_on_one_axis(dy, dx * dx + dz * dz);
                    } else {
                        lemma_far_on_one_axis(dz, dx * dx + dy * dy);
                    }
                }
                false
            },
        }
    }
}

impl core::ops::Add for WorldPos {
    type Output = WorldPos;

    fn add(self, rhs: WorldPos) -> (p: WorldPos) {
        WorldPos { x: self.x + rhs.x, y: self.y + rhs.y, z: self.z + rhs.z }
    }
}

impl AddSpecImpl for WorldPos {
    open spec fn obeys_add_spec() -> bool {
        true
    }

    open spec fn add_req(self, rhs: WorldPos) -> bool {
        self@.plus(rhs@).fits()
    }

    open spec fn add_spec(self, rhs: WorldPos) -> WorldPos {
        WorldPos {
            x: (self.x + rhs.x) as i128,
            y: (self.y + rhs.y) as i128,
            z: (self.z + rhs.z) as i128,
        }
    }
}

} // verus!
