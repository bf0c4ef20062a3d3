//! A placeable piece: a footprint of cells around an anchor.

use vstd::prelude::*;
use crate::geometry::{Cell, Dis2, Rotation};

verus! {

/// A piece on the grid.
///
/// `tiles` are the cells of the piece relative to its anchor, before any
/// turning. The cells the piece occupies are computed from `tiles`, `position`
/// and `rotation` whenever they are asked for, never stored.
#[derive(Debug)]
pub struct Block {
    /// The identifier under which the piece claims cells of a level.
    pub index: usize,
    /// The cells of the piece, relative to the anchor.
    pub tiles: Vec<Dis2>,
    /// The current orientation.
    pub rotation: Rotation,
    /// The current anchor.
    pub position: Dis2,
}

/// The cells that the local cells `tiles` cover once turned by `rotation` and
/// moved to `anchor`, in the order of `tiles`.
pub open spec fn footprint_of(tiles: Seq<Dis2>, anchor: Cell, rotation: Rotation) -> Seq<Cell> {
    Seq::new(tiles.len(), |i: int| anchor.plus(tiles[i]@.rotated(rotation)))
}

/// Every cell of `cells` is representable with machine coordinates.
pub open spec fn all_fit(cells: Seq<Cell>) -> bool {
    forall|i: int| 0 <= i < cells.len() ==> (#[trigger] cells[i]).fits()
}

/// The `i`-th cell that the local cells `tiles` cover once turned by
/// `rotation` and moved to `dis`, with coordinates wide enough for any cell.
pub fn cell_of(tiles: &Vec<Dis2>, i: usize, dis: Dis2, rotation: Rotation) -> (cell: (i128, i128))
    requires
        i < tiles@.len(),
    ensures
        cell.0 == footprint_of(tiles@, dis@, rotation)[i as int].x,
        cell.1 == footprint_of(tiles@, dis@, rotation)[i as int].z,
{
    let tile = tiles[i];
    let x: i128 = dis.x as i128 + match rotation {
        Rotation::D0 => tile.x as i128,
        Rotation::D90 => -(tile.z as i128),
        Rotation::D180 => -(tile.x as i128),
        Rotation::D270 => tile.z as i128,
    };
    let z: i128 = dis.z as i128 + match rotation {
        Rotation::D0 => tile.z as i128,
        Rotation::D90 => tile.x as i128,
        Rotation::D180 => -(tile.z as i128),
        Rotation::D270 => -(tile.x as i128),
    };
    (x, z)
}

impl Block {
    /// The cells the piece would occupy at `anchor` with `rotation`.
    pub open spec fn footprint_at(&self, anchor: Cell, rotation: Rotation) -> Seq<Cell> {
        footprint_of(self.tiles@, anchor, rotation)
    }

    /// The cells the piece occupies now.
    pub open spec fn footprint(&self) -> Seq<Cell> {
        self.footprint_at(self.position@, self.rotation)
    }

    /// The footprint has at least one cell, and its first cell is the anchor.
    pub open spec fn wf(&self) -> bool {
        self.tiles@.len() >= 1 && self.tiles@[0]@ == (Cell { x: 0, z: 0 })
    }

    /// A piece of one cell at `position`, not turned.
    pub fn new(index: usize, position: Dis2) -> (b: Self)
        ensures
            b.index == index,
            b.tiles@ == seq![Dis2 { x: 0, z: 0 }],
            b.rotation == Rotation::D0,
            b.position == position,
            b.wf(),
    {
        let mut tiles: Vec<Dis2> = Vec::new();
        tiles.push(Dis2::zero());
        Block { index, tiles, rotation: Rotation::D0, position }
    }

    /// The piece with one more local cell.
    pub fn with_tile(self, pos: Dis2) -> (b: Self)
        ensures
            b.tiles@ == self.tiles@.push(pos),
            b.index == self.index,
            b.rotation == self.rotation,
            b.position == self.position,
            self.wf() ==> b.wf(),
    {
        let mut b = self;
        b.tiles.push(pos);
        b
    }

    /// The piece turned one quarter turn on.
    pub fn left(self) -> (b: Self)
        ensures
            b.rotation == self.rotation.left(),
            b.index == self.index,
            b.tiles == self.tiles,
            b.position == self.position,
    {
        let mut b = self;
        b.rotation = b.rotation.left();
        b
    }

    /// The piece turned one quarter turn back.
    pub fn right(self) -> (b: Self)
        ensures
            b.rotation == self.rotation.right(),
            b.index == self.index,
            b.tiles == self.tiles,
            b.position == self.position,
    {
        let mut b = self;
        b.rotation = b.rotation.right();
        b
    }

    /// Moves the anchor to `position`.
    pub fn translate(&mut self, position: Dis2) -> (ret: &mut Self)
        ensures
            ret.position == position,
            ret.index == old(self).index,
            ret.tiles == old(self).tiles,
            ret.rotation == old(self).rotation,
            *final(self) == *final(ret),
    {
        self.position = position;
        self
    }

    /// Sets the orientation to `rotation`.
    pub fn rotate(&mut self, rotation: Rotation) -> (ret: &mut Self)
        ensures
            ret.rotation == rotation,
            ret.index == old(self).index,
            ret.tiles == old(self).tiles,
            ret.position == old(self).position,
            *final(self) == *final(ret),
    {
        self.rotation = rotation;
        self
    }

    /// The `i`-th cell the piece would occupy at `dis` with `rotation`, with
    /// coordinates wide enough for any piece.
    pub fn cell_at(&self, i: usize, dis: Dis2, rotation: Rotation) -> (cell: (i128, i128))
        requires
            i < self.tiles@.len(),
        ensures
            cell.0 == self.footprint_at(dis@, rotation)[i as int].x,
            cell.1 == self.footprint_at(dis@, rotation)[i as int].z,
    {
        cell_of(&self.tiles, i, dis, rotation)
    }

    /// The cells the piece occupies now, in the order of `tiles`.
    pub fn iter(&self) -> (cells: Vec<Dis2>)
        requires
            all_fit(self.footprint()),
        ensures
            cells@.len() == self.tiles@.len(),
            forall|i: int| 0 <= i < cells@.len() ==> (#[trigger] cells@[i])@ == self.footprint()[i],
    {
        self.iter_with(self.position, self.rotation)
    }

    /// The cells the piece would occupy at `dis` with `rotation`, in the
    /// order of `tiles`. The piece itself is not changed.
    pub fn iter_with(&self, dis: Dis2, rotation: Rotation) -> (cells: Vec<Dis2>)
        requires
            all_fit(self.footprint_at(dis@, rotation)),
        ensures
            cells@.len() == self.tiles@.len(),
            forall|i: int|
                0 <= i < cells@.len() ==> (#[trigger] cells@[i])@ == self.footprint_at(
                    dis@,
                    rotation,
                )[i],
    {
        let mut cells: Vec<Dis2> = Vec::new();
        let mut i: usize = 0;
        while i < self.tiles.len()
            invariant
                i <= self.tiles@.len(),
                cells@.len() == i,
                all_fit(self.footprint_at(dis@, rotation)),
                forall|k: int|
                    0 <= k < i ==> (#[trigger] cells@[k])@ == self.footprint_at(dis@, rotation)[k],
            decreases self.tiles@.len() - i,
        {
            assert(self.footprint_at(dis@, rotation)[i as int].fits());
            let (x, z) = self.cell_at(i, dis, rotation);
            cells.push(Dis2 { x: x as isize, z: z as isize });
            i += 1;
        }
        cells
    }
}

} // verus!
