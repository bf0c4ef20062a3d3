//! Building a conveyor belt step by step.

use vstd::prelude::*;
use crate::block::{footprint_of, Block};
use crate::cubes::CubeRouter;
use crate::geometry::{Cell, Dis2, Rotation};
use crate::level::{Level, LevelView, UNUSABLE};
use crate::world::{Point, WorldPos, HALF_UNIT, UNIT};

verus! {

/// The shape of one cell of a belt.
#[derive(Clone, Copy, Debug, PartialEq, Eq, Structural)]
pub enum BeltShape {
    /// Cubes go straight on.
    Straight,
    /// Cubes turn a quarter turn on.
    Left,
    /// Cubes turn a quarter turn back.
    Right,
}

/// One cell of a belt as it is to be shown: which model, where relative to the
/// anchor of the belt, and turned by how many degrees about the vertical axis.
#[derive(Clone, Copy, Debug, PartialEq, Eq, Structural)]
pub struct BeltPart {
    pub shape: BeltShape,
    pub pos: WorldPos,
    pub degrees: i16,
}

/// A belt under construction.
///
/// The belt starts on the anchor cell, facing along -z, and grows by one cell
/// with each step. `route` is the path of a cube over the belt, relative to
/// the point of the surface above the anchor.
#[derive(Debug)]
pub struct BeltBuilder {
    /// The cells laid so far, relative to the anchor.
    pub tiles: Vec<Dis2>,
    /// How each cell laid so far is to be shown.
    pub parts: Vec<BeltPart>,
    /// The path of a cube over the cells laid so far.
    pub route: Vec<WorldPos>,
    /// The direction in which the belt goes on.
    pub dir: Rotation,
    /// The centre of the next cell, relative to the anchor.
    pub pos: WorldPos,
    /// The next cell, relative to the anchor.
    pub dis: Dis2,
}

/// The world offset of the centre of a cell from the centre of the cell
/// (0, 0), scaled to `scale` world units per cell.
pub open spec fn grid_point(c: Cell, scale: int) -> Point {
    Point { x: c.x * scale, y: 0, z: c.z * scale }
}

/// The step of one cell along a belt that goes on in the direction `dir`: the
/// step along -z turned back by `dir`. A belt that has not turned goes on
/// along -z, one that has turned a quarter turn on goes on along -x, and one
/// that has turned a quarter turn back goes on along +x.
pub open spec fn ahead(dir: Rotation) -> Cell {
    match dir {
        Rotation::D0 => Cell { x: 0, z: -1 },
        Rotation::D90 => Cell { x: -1, z: 0 },
        Rotation::D180 => Cell { x: 0, z: 1 },
        Rotation::D270 => Cell { x: 1, z: 0 },
    }
}

/// The step of one cell along a belt that goes on in the direction `dir`.
fn step_ahead(dir: Rotation) -> (step: Dis2)
    ensures
        step@ == ahead(dir),
{
    match dir {
        Rotation::D0 => Dis2 { x: 0, z: -1 },
        Rotation::D90 => Dis2 { x: -1, z: 0 },
        Rotation::D180 => Dis2 { x: 0, z: 1 },
        Rotation::D270 => Dis2 { x: 1, z: 0 },
    }
}

/// The point half a cell from `pos` in the direction `dir`.
pub open spec fn half_ahead(pos: WorldPos, dir: Rotation) -> WorldPos {
    WorldPos {
        x: (pos.x + ahead(dir).x * HALF_UNIT) as i128,
        y: pos.y,
        z: (pos.z + ahead(dir).z * HALF_UNIT) as i128,
    }
}

/// The point half a cell from `pos` in the direction `dir`.
fn half_step(pos: WorldPos, dir: Rotation) -> (p: WorldPos)
    requires
        -0x1_0000_0000_0000_0000_0000 < pos.x < 0x1_0000_0000_0000_0000_0000,
        -0x1_0000_0000_0000_0000_0000 < pos.z < 0x1_0000_0000_0000_0000_0000,
    ensures
        p == half_ahead(pos, dir),
        p@ == pos@.plus(grid_point(ahead(dir), HALF_UNIT as int)),
{
    match dir {
        Rotation::D0 => WorldPos { x: pos.x, y: pos.y, z: pos.z - HALF_UNIT },
        Rotation::D90 => WorldPos { x: pos.x - HALF_UNIT, y: pos.y, z: pos.z },
        Rotation::D180 => WorldPos { x: pos.x, y: pos.y, z: pos.z + HALF_UNIT },
        Rotation::D270 => WorldPos { x: pos.x + HALF_UNIT, y: pos.y, z: pos.z },
    }
}

impl BeltBuilder {
    /// The builder is consistent: one part per cell, the first cell on the
    /// anchor, the next cell within reach of the cells laid, `pos` the centre
    /// of `dis`, and the route one point ahead of the cells.
    pub open spec fn wf(&self) -> bool {
        &&& self.parts@.len() == self.tiles@.len()
        &&& self.route@.len() > self.tiles@.len()
        &&& self.tiles@.len() >= 1 ==> self.tiles@[0]@ == (Cell { x: 0, z: 0 })
        &&& self.tiles@.len() == 0 ==> self.dis@ == (Cell { x: 0, z: 0 })
        &&& self.dis@.distance(Cell { x: 0, z: 0 }) <= self.tiles@.len()
        &&& self.pos@ == grid_point(self.dis@, UNIT as int)
    }

    /// There is room, in machine integers, for one more cell.
    pub open spec fn can_grow(&self) -> bool {
        self.tiles@.len() < isize::MAX
    }

    /// How the builder stands after a step that turns the belt to `dir` and
    /// shows the new cell as `part`; `corner` says whether the path gets a
    /// corner at the centre of the new cell.
    pub open spec fn stepped(&self, next: BeltBuilder, dir: Rotation, part: BeltPart, corner: bool) -> bool {
        &&& next.tiles@ == self.tiles@.push(self.dis)
        &&& next.parts@ == self.parts@.push(part)
        &&& next.dir == dir
        &&& next.dis@ == self.dis@.plus(ahead(dir))
        &&& next.pos@ == self.pos@.plus(grid_point(ahead(dir), UNIT as int))
        &&& next.route@ == if corner {
            self.route@.push(self.pos).push(half_ahead(self.pos, dir))
        } else {
            self.route@.push(half_ahead(self.pos, dir))
        }
    }

    /// A belt without cells: its path starts half a cell behind the anchor.
    pub fn new() -> (b: Self)
        ensures
            b.wf(),
            b.tiles@.len() == 0,
            b.parts@.len() == 0,
            b.route@ == seq![WorldPos { x: 0, y: 0, z: HALF_UNIT }],
            b.dir == Rotation::D0,
            b.pos == (WorldPos { x: 0, y: 0, z: 0 }),
            b.dis == (Dis2 { x: 0, z: 0 }),
    {
        let mut route: Vec<WorldPos> = Vec::new();
        route.push(WorldPos { x: 0, y: 0, z: HALF_UNIT });
        BeltBuilder {
            tiles: Vec::new(),
            parts: Vec::new(),
            route,
            dir: Rotation::D0,
            pos: WorldPos { x: 0, y: 0, z: 0 },
            dis: Dis2 { x: 0, z: 0 },
        }
    }

    /// Lays the next cell and moves on to the cell ahead of it.
    fn advance(&mut self, part: BeltPart)
        requires
            old(self).wf(),
            old(self).can_grow(),
            old(self).route@.len() > old(self).tiles@.len() + 1,
        ensures
            final(self).wf(),
            final(self).tiles@ == old(self).tiles@.push(old(self).dis),
            final(self).parts@ == old(self).parts@.push(part),
            final(self).route == old(self).route,
            final(self).dir == old(self).dir,
            final(self).dis@ == old(self).dis@.plus(ahead(old(self).dir)),
            final(self).pos@ == old(self).pos@.plus(grid_point(ahead(old(self).dir), UNIT as int)),
    {
        self.parts.push(part);
        self.tiles.push(self.dis);
        let step = step_ahead(self.dir);
        self.pos = WorldPos {
            x: self.pos.x + step.x as i128 * UNIT,
            y: self.pos.y,
            z: self.pos.z + step.z as i128 * UNIT,
        };
        self.dis = Dis2 { x: self.dis.x + step.x, z: self.dis.z + step.z };
    }

    /// The belt with one more cell straight ahead.
    pub fn forward(self) -> (b: Self)
        requires
            self.wf(),
            self.can_grow(),
        ensures
            b.wf(),
            self.stepped(
                b,
                self.dir,
                BeltPart {
                    shape: BeltShape::Straight,
                    pos: self.pos,
                    degrees: (-self.dir.as_degrees()) as i16,
                },
                false,
            ),
    {
        let mut b = self;
        let part = BeltPart {
            shape: BeltShape::Straight,
            pos: b.pos,
            degrees: -b.dir.as_degrees(),
        };
        let tip = half_step(b.pos, b.dir);
        b.route.push(tip);
        b.advance(part);
        b
    }

    /// The belt with one more cell on which it turns a quarter turn on.
    pub fn left(self) -> (b: Self)
        requires
            self.wf(),
            self.can_grow(),
        ensures
            b.wf(),
            self.stepped(
                b,
                self.dir.left(),
                BeltPart { shape: BeltShape::Left, pos: self.pos, degrees: self.dir.as_degrees() },
                true,
            ),
    {
        let mut b = self;
        let part = BeltPart { shape: BeltShape::Left, pos: b.pos, degrees: b.dir.as_degrees() };
        b.dir = b.dir.left();
        let tip = half_step(b.pos, b.dir);
        b.route.push(b.pos);
        b.route.push(tip);
        b.advance(part);
        b
    }

    /// The belt with one more cell on which it turns a quarter turn back.
    pub fn right(self) -> (b: Self)
        requires
            self.wf(),
            self.can_grow(),
        ensures
            b.wf(),
            self.stepped(
                b,
                self.dir.right(),
                BeltPart { shape: BeltShape::Right, pos: self.pos, degrees: self.dir.as_degrees() },
                true,
            ),
    {
        let mut b = self;
        let part = BeltPart { shape: BeltShape::Right, pos: b.pos, degrees: b.dir.as_degrees() };
        b.dir = b.dir.right();
        let tip = half_step(b.pos, b.dir);
        b.route.push(b.pos);
        b.route.push(tip);
        b.advance(part);
        b
    }

    /// Puts the belt on `level` with its anchor on the cell `dis`, not
    /// turned, under a new identifier. The cells are claimed whatever they
    /// carried before. Returns the piece, the path of a cube over it relative
    /// to the surface above its anchor, and how its cells are to be shown.
    pub fn build(self, dis: Dis2, level: &mut Level) -> (out: (Block, CubeRouter, Vec<BeltPart>))
        requires
            self.wf(),
            self.tiles@.len() >= 1,
            old(level).wf(),
            old(level)@.index + 1 < UNUSABLE,
            old(level)@.all_inside(footprint_of(self.tiles@, dis@, Rotation::D0)),
        ensures
            final(level).wf(),
            out.0.wf(),
            out.0.index == old(level)@.index + 1,
            out.0.tiles == self.tiles,
            out.0.rotation == Rotation::D0,
            out.0.position == dis,
            final(level)@ == (LevelView { index: out.0.index as nat, ..old(level)@ }).stamped(
                out.0.footprint(),
                out.0.index,
            ),
            out.1.wf(),
            out.1.0 == self.route,
            out.2 == self.parts,
    {
        let index = level.next_index();
        let block = Block { index, tiles: self.tiles, rotation: Rotation::D0, position: dis };
        level.place_unchecked(&block);
        (block, CubeRouter(self.route), self.parts)
    }
}

} // verus!
