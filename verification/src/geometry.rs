//! Integer grid offsets and the four quarter-turn rotations.

use vstd::prelude::*;
use vstd::std_specs::convert::FromSpecImpl;
use vstd::std_specs::ops::AddSpecImpl;
use crate::world::{Point, WorldPos, UNIT};

verus! {

/// A mathematical grid cell or offset: an unbounded pair of integers.
///
/// Contracts are stated over `Cell`; [`Dis2`] is its machine-sized counterpart.
pub struct Cell {
    pub x: int,
    pub z: int,
}

impl Cell {
    /// The offset turned by `r` about the origin.
    pub open spec fn rotated(self, r: Rotation) -> Cell {
        match r {
            Rotation::D0 => self,
            Rotation::D90 => Cell { x: -self.z, z: self.x },
            Rotation::D180 => Cell { x: -self.x, z: -self.z },
            Rotation::D270 => Cell { x: self.z, z: -self.x },
        }
    }

    /// Component-wise sum.
    pub open spec fn plus(self, other: Cell) -> Cell {
        Cell { x: self.x + other.x, z: self.z + other.z }
    }

    /// Manhattan distance.
    pub open spec fn distance(self, other: Cell) -> int {
        (if self.x >= other.x { self.x - other.x } else { other.x - self.x })
        + (if self.z >= other.z { self.z - other.z } else { other.z - self.z })
    }

    /// Both components are representable as `isize`.
    pub open spec fn fits(self) -> bool {
        isize::MIN <= self.x <= isize::MAX && isize::MIN <= self.z <= isize::MAX
    }
}

/// One of the four orientations of a piece, counted in quarter turns.
#[derive(Clone, Copy, PartialEq, Eq, Debug, Structural)]
pub enum Rotation {
    D0,
    D90,
    D180,
    D270,
}

impl Rotation {
    /// Number of quarter turns, in `0..4`.
    pub open spec fn turns(self) -> int {
        match self {
            Rotation::D0 => 0,
            Rotation::D90 => 1,
            Rotation::D180 => 2,
            Rotation::D270 => 3,
        }
    }

    /// The rotation made of `n` quarter turns; `n` is taken modulo 4.
    pub open spec fn from_turns(n: int) -> Rotation {
        let k = n % 4;
        if k == 0 {
            Rotation::D0
        } else if k == 1 {
            Rotation::D90
        } else if k == 2 {
            Rotation::D180
        } else {
            Rotation::D270
        }
    }

    /// This rotation followed by `other`.
    pub open spec fn plus(self, other: Rotation) -> Rotation {
        Rotation::from_turns(self.turns() + other.turns())
    }

    /// One quarter turn back, as a specification.
    pub open spec fn spec_right(self) -> Rotation {
        Rotation::from_turns(self.turns() - 1)
    }

    /// One quarter turn on, as a specification.
    pub open spec fn spec_left(self) -> Rotation {
        Rotation::from_turns(self.turns() + 1)
    }

    /// One quarter turn back.
    #[verifier::when_used_as_spec(spec_right)]
    pub fn right(self) -> (r: Self)
        ensures
            r == self.spec_right(),
    {
        match self {
            Rotation::D0 => Rotation::D270,
            Rotation::D90 => Rotation::D0,
            Rotation::D180 => Rotation::D90,
            Rotation::D270 => Rotation::D180,
        }
    }

    /// One quarter turn on.
    #[verifier::when_used_as_spec(spec_left)]
    pub fn left(self) -> (r: Self)
        ensures
            r == self.spec_left(),
    {
        match self {
            Rotation::D0 => Rotation::D90,
            Rotation::D90 => Rotation::D180,
            Rotation::D180 => Rotation::D270,
            Rotation::D270 => Rotation::D0,
        }
    }
}

impl Rotation {
    /// The direction a piece with this rotation faces, as a unit step on the
    /// grid: the step (0, -1) turned by the rotation.
    pub fn as_discrete(&self) -> (d: Dis2)
        ensures
            d@ == (Cell { x: 0, z: -1 }).rotated(*self),
    {
        match self {
            Rotation::D0 => Dis2 { x: 0, z: -1 },
            Rotation::D90 => Dis2 { x: 1, z: 0 },
            Rotation::D180 => Dis2 { x: 0, z: 1 },
            Rotation::D270 => Dis2 { x: -1, z: 0 },
        }
    }

    /// The direction a piece with this rotation faces, as a step of one cell
    /// in world space: the step one cell along -z turned by the rotation.
    pub fn as_vec3(&self) -> (v: WorldPos)
        ensures
            v@ == (Point { x: 0, y: 0, z: -UNIT }).rotated(*self),
    {
        match self {
            Rotation::D0 => WorldPos { x: 0, y: 0, z: -UNIT },
            Rotation::D90 => WorldPos { x: UNIT, y: 0, z: 0 },
            Rotation::D180 => WorldPos { x: 0, y: 0, z: UNIT },
            Rotation::D270 => WorldPos { x: -UNIT, y: 0, z: 0 },
        }
    }

    /// The angle of [`Rotation::as_degrees`], as a specification.
    pub open spec fn spec_as_degrees(&self) -> i16 {
        match *self {
            Rotation::D0 => 0i16,
            Rotation::D90 => -90i16,
            Rotation::D180 => 180i16,
            Rotation::D270 => 90i16,
        }
    }

    /// The angle about the vertical axis, in whole degrees within (-180, 180],
    /// by which a model is turned to show this rotation.
    #[verifier::when_used_as_spec(spec_as_degrees)]
    pub fn as_degrees(&self) -> (a: i16)
        ensures
            a == self.spec_as_degrees(),
    {
        match self {
            Rotation::D0 => 0,
            Rotation::D90 => -90,
            Rotation::D180 => 180,
            Rotation::D270 => 90,
        }
    }
}

impl core::ops::Add for Rotation {
    type Output = Rotation;

    fn add(self, rhs: Rotation) -> (r: Rotation) {
        match rhs {
            Rotation::D0 => self,
            Rotation::D90 => self.left(),
            Rotation::D180 => self.left().left(),
            Rotation::D270 => self.right(),
        }
    }
}

impl AddSpecImpl for Rotation {
    open spec fn obeys_add_spec() -> bool {
        true
    }

    open spec fn add_req(self, rhs: Rotation) -> bool {
        true
    }

    open spec fn add_spec(self, rhs: Rotation) -> Rotation {
        self.plus(rhs)
    }
}

/// Turning by `r1` and then by `r2` is turning by their sum.
pub proof fn lemma_rotated_composes(v: Cell, r1: Rotation, r2: Rotation)
    ensures
        v.rotated(r1).rotated(r2) == v.rotated(r1.plus(r2)),
{
}

/// Composition of rotations is associative.
pub proof fn lemma_rotation_add_associative(a: Rotation, b: Rotation, c: Rotation)
    ensures
        a.plus(b).plus(c) == a.plus(b.plus(c)),
{
}

/// Composition of rotations is commutative, and `D0` is its identity.
pub proof fn lemma_rotation_add_identity(a: Rotation, b: Rotation)
    ensures
        a.plus(b) == b.plus(a),
        a.plus(Rotation::D0) == a,
        Rotation::D0.plus(a) == a,
{
}

/// `left` and `right` undo each other, and four steps either way come back
/// to the start.
pub proof fn lemma_left_right_inverse(r: Rotation)
    ensures
        r.left().right() == r,
        r.right().left() == r,
        r.left().left().left().left() == r,
        r.right().right().right().right() == r,
        r.left() == r.plus(Rotation::D90),
        r.right() == r.plus(Rotation::D270),
{
}

/// Turning an offset keeps its Manhattan distance to the turned other, and
/// turning distributes over the sum of offsets.
pub proof fn lemma_rotated_is_rigid(a: Cell, b: Cell, r: Rotation)
    ensures
        a.rotated(r).distance(b.rotated(r)) == a.distance(b),
        a.plus(b).rotated(r) == a.rotated(r).plus(b.rotated(r)),
{
}

/// A grid cell or offset whose coordinates fit the machine word.
#[derive(Debug, PartialEq, Eq, PartialOrd, Ord, Clone, Copy, Structural)]
pub struct Dis2 {
    pub x: isize,
    pub z: isize,
}

impl View for Dis2 {
    type V = Cell;

    open spec fn view(&self) -> Cell {
        Cell { x: self.x as int, z: self.z as int }
    }
}

impl Dis2 {
    /// The origin.
    pub fn zero() -> (d: Self)
        ensures
            d@ == (Cell { x: 0, z: 0 }),
    {
        Dis2 { x: 0, z: 0 }
    }

    /// One step along +x.
    pub fn unit_x() -> (d: Self)
        ensures
            d@ == (Cell { x: 1, z: 0 }),
    {
        Dis2 { x: 1, z: 0 }
    }

    /// One step along -x.
    pub fn neg_unit_x() -> (d: Self)
        ensures
            d@ == (Cell { x: -1, z: 0 }),
    {
        Dis2 { x: -1, z: 0 }
    }

    /// One step along +z.
    pub fn unit_z() -> (d: Self)
        ensures
            d@ == (Cell { x: 0, z: 1 }),
    {
        Dis2 { x: 0, z: 1 }
    }

    /// One step along -z.
    pub fn neg_unit_z() -> (d: Self)
        ensures
            d@ == (Cell { x: 0, z: -1 }),
    {
        Dis2 { x: 0, z: -1 }
    }

    pub fn new(x: isize, z: isize) -> (d: Self)
        ensures
            d.x == x,
            d.z == z,
    {
        Dis2 { x, z }
    }

    /// The offset turned by `rotation` about the origin.
    pub fn rotated(&self, rotation: Rotation) -> (d: Self)
        requires
            self@.rotated(rotation).fits(),
        ensures
            d@ == self@.rotated(rotation),
    {
        match rotation {
            Rotation::D0 => Dis2 { x: self.x, z: self.z },
            Rotation::D90 => Dis2 { x: -self.z, z: self.x },
            Rotation::D180 => Dis2 { x: -self.x, z: -self.z },
            Rotation::D270 => Dis2 { x: self.z, z: -self.x },
        }
    }

    /// Manhattan distance to `other`.
    pub fn distance(&self, other: Dis2) -> (n: isize)
        requires
            self@.distance(other@) <= isize::MAX,
        ensures
            n == self@.distance(other@),
    {
        let dx: i128 = self.x as i128 - other.x as i128;
        let dz: i128 = self.z as i128 - other.z as i128;
        let ax: i128 = if dx >= 0 { dx } else { -dx };
        let az: i128 = if dz >= 0 { dz } else { -dz };
        (ax + az) as isize
    }
}

impl Default for Dis2 {
    fn default() -> (d: Self)
        ensures
            d@ == (Cell { x: 0, z: 0 }),
    {
        Dis2 { x: 0, z: 0 }
    }
}

impl From<(isize, isize)> for Dis2 {
    fn from(value: (isize, isize)) -> (d: Self) {
        Dis2 { x: value.0, z: value.1 }
    }
}

impl FromSpecImpl<(isize, isize)> for Dis2 {
    open spec fn obeys_from_spec() -> bool {
        true
    }

    open spec fn from_spec(value: (isize, isize)) -> Self {
        Dis2 { x: value.0, z: value.1 }
    }
}

impl From<(usize, usize)> for Dis2 {
    fn from(value: (usize, usize)) -> (d: Self) {
        Dis2 {
            x: #[verifier::truncate] (value.0 as isize),
            z: #[verifier::truncate] (value.1 as isize),
        }
    }
}

impl FromSpecImpl<(usize, usize)> for Dis2 {
    open spec fn obeys_from_spec() -> bool {
        true
    }

    open spec fn from_spec(value: (usize, usize)) -> Self {
        Dis2 { x: value.0 as isize, z: value.1 as isize }
    }
}

impl core::ops::Add for Dis2 {
    type Output = Dis2;

    fn add(self, rhs: Dis2) -> (d: Dis2) {
        Dis2 { x: self.x + rhs.x, z: self.z + rhs.z }
    }
}

impl AddSpecImpl for Dis2 {
    open spec fn obeys_add_spec() -> bool {
        true
    }

    open spec fn add_req(self, rhs: Dis2) -> bool {
        self@.plus(rhs@).fits()
    }

    open spec fn add_spec(self, rhs: Dis2) -> Dis2 {
        Dis2 { x: (self.x + rhs.x) as isize, z: (self.z + rhs.z) as isize }
    }
}

impl core::ops::AddAssign for Dis2 {
    fn add_assign(&mut self, rhs: Dis2)
        requires
            old(self)@.plus(rhs@).fits(),
        ensures
            final(self)@ == old(self)@.plus(rhs@),
    {
        self.x = self.x + rhs.x;
        self.z = self.z + rhs.z;
    }
}

} // verus!
