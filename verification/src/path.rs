//! Pieces described as a walk over the grid: a first cell, and the direction
//! of each step from one cell of the piece to the next.

use vstd::prelude::*;
use crate::geometry::{Cell, Dis2, Rotation};

verus! {

/// One of the four directions on the grid. As an orientation of a piece,
/// `North` leaves the piece as it is and each next direction turns it a
/// quarter turn further.
#[derive(Clone, Copy, Debug, PartialEq, Eq, Structural)]
pub enum Direction {
    North,
    West,
    South,
    East,
}

impl Direction {
    /// Number of quarter turns from `North`, in `0..4`.
    pub open spec fn turns(self) -> int {
        match self {
            Direction::North => 0,
            Direction::West => 1,
            Direction::South => 2,
            Direction::East => 3,
        }
    }

    /// The next direction round, as a specification.
    pub open spec fn spec_rotate(self) -> Direction {
        match self {
            Direction::North => Direction::West,
            Direction::West => Direction::South,
            Direction::South => Direction::East,
            Direction::East => Direction::North,
        }
    }

    /// This direction turned by `other`, as a specification.
    pub open spec fn spec_rotate_by(self, other: Direction) -> Direction {
        match other {
            Direction::North => self,
            Direction::West => self.spec_rotate(),
            Direction::South => self.spec_rotate().spec_rotate(),
            Direction::East => self.spec_rotate().spec_rotate().spec_rotate(),
        }
    }

    /// The step of one cell in this direction: north is +y, east is +x.
    pub open spec fn step(self) -> (int, int) {
        match self {
            Direction::North => (0, 1),
            Direction::West => (-1, 0),
            Direction::South => (0, -1),
            Direction::East => (1, 0),
        }
    }

    /// The angle of [`Direction::as_degrees`], as a specification.
    pub open spec fn spec_as_degrees(&self) -> i16 {
        match *self {
            Direction::North => 0i16,
            Direction::West => -90i16,
            Direction::South => 180i16,
            Direction::East => 90i16,
        }
    }

    /// The rotation that turns a piece as this orientation does, as a
    /// specification.
    pub open spec fn spec_as_rotation(&self) -> Rotation {
        match *self {
            Direction::North => Rotation::D0,
            Direction::West => Rotation::D90,
            Direction::South => Rotation::D180,
            Direction::East => Rotation::D270,
        }
    }

    /// The rotation that turns a piece as this orientation does: as many
    /// quarter turns as the direction lies from north.
    #[verifier::when_used_as_spec(spec_as_rotation)]
    pub fn as_rotation(&self) -> (r: Rotation)
        ensures
            r == self.spec_as_rotation(),
            r.turns() == self.turns(),
    {
        match self {
            Direction::North => Rotation::D0,
            Direction::West => Rotation::D90,
            Direction::South => Rotation::D180,
            Direction::East => Rotation::D270,
        }
    }

    /// The next direction round: north, west, south, east, north.
    #[verifier::when_used_as_spec(spec_rotate)]
    pub fn rotate(self) -> (d: Direction)
        ensures
            d == self.spec_rotate(),
            d.turns() == (self.turns() + 1) % 4,
    {
        match self {
            Direction::North => Direction::West,
            Direction::West => Direction::South,
            Direction::South => Direction::East,
            Direction::East => Direction::North,
        }
    }

    /// This direction turned by `other`: by as many quarter turns as `other`
    /// lies from north.
    #[verifier::when_used_as_spec(spec_rotate_by)]
    pub fn rotate_by(self, other: Direction) -> (d: Direction)
        ensures
            d == self.spec_rotate_by(other),
            d.turns() == (self.turns() + other.turns()) % 4,
    {
        match other {
            Direction::North => self,
            Direction::West => self.rotate(),
            Direction::South => self.rotate().rotate(),
            Direction::East => self.rotate().rotate().rotate(),
        }
    }

    /// The angle about the vertical axis, in whole degrees within (-180, 180],
    /// by which a model is turned to show this orientation.
    #[verifier::when_used_as_spec(spec_as_degrees)]
    pub fn as_degrees(&self) -> (a: i16)
        ensures
            a == self.spec_as_degrees(),
    {
        match self {
            Direction::North => 0,
            Direction::West => -90,
            Direction::South => 180,
            Direction::East => 90,
        }
    }
}

/// Turning is adding quarter turns: it is commutative and associative, north
/// turns nothing, and four turns come back to the start.
pub proof fn lemma_rotate_by_adds(a: Direction, b: Direction, c: Direction)
    ensures
        a.rotate_by(b) == b.rotate_by(a),
        a.rotate_by(b).rotate_by(c) == a.rotate_by(b.rotate_by(c)),
        a.rotate_by(Direction::North) == a,
        a.rotate().rotate().rotate().rotate() == a,
        a.rotate() == a.rotate_by(Direction::West),
{
}

/// The cell reached after the first `k` steps of the walk `path` from
/// (`x`, `y`), each step turned by `rotation`.
pub open spec fn walked(path: Seq<Direction>, x: int, y: int, rotation: Direction, k: int) -> (
    int,
    int,
)
    decreases k,
{
    if k <= 0 {
        (x, y)
    } else {
        let before = walked(path, x, y, rotation, k - 1);
        let step = path[k - 1].rotate_by(rotation).step();
        (before.0 + step.0, before.1 + step.1)
    }
}

/// The `k`-th cell of the walk `path`, relative to its first cell and not
/// turned.
pub open spec fn relative(path: Seq<Direction>, k: int) -> Cell {
    let at = walked(path, 0, 0, Direction::North, k);
    Cell { x: at.0, z: at.1 }
}

/// The `k`-th cell of a turned walk is its `k`-th relative cell, turned and
/// moved to the first cell; and it lies at most `k` steps from the first.
pub proof fn lemma_walk_turns(path: Seq<Direction>, x: int, y: int, rotation: Direction, k: int)
    requires
        0 <= k <= path.len(),
    ensures
        (Cell { x, z: y }).plus(relative(path, k).rotated(rotation.as_rotation())) == (Cell {
            x: walked(path, x, y, rotation, k).0,
            z: walked(path, x, y, rotation, k).1,
        }),
        relative(path, k).distance(Cell { x: 0, z: 0 }) <= k,
    decreases k,
{
    if k > 0 {
        lemma_walk_turns(path, x, y, rotation, k - 1);
    }
}

/// Both coordinates of a cell are representable as `isize`.
pub open spec fn cell_fits(cell: (int, int)) -> bool {
    isize::MIN <= cell.0 <= isize::MAX && isize::MIN <= cell.1 <= isize::MAX
}

/// A piece given as a walk.
///
/// The piece covers its first cell (`x`, `y`) and every cell that the walk
/// `path` reaches from there, each step turned by `rotation`.
#[derive(Debug)]
pub struct Block {
    /// The identifier of the piece.
    pub index: usize,
    /// The steps from each cell of the piece to the next.
    pub path: Vec<Direction>,
    /// The current orientation.
    pub rotation: Direction,
    /// Column of the first cell.
    pub x: usize,
    /// Row of the first cell.
    pub y: usize,
}

impl Block {
    /// The piece with one more step `dir` at the end of its walk.
    pub open spec fn stepped(self, next: Block, dir: Direction) -> bool {
        &&& next.path@ == self.path@.push(dir)
        &&& next.index == self.index
        &&& next.rotation == self.rotation
        &&& next.x == self.x
        &&& next.y == self.y
    }

    /// The `k`-th cell of the piece as it stands.
    pub open spec fn cell(&self, k: int) -> (int, int) {
        walked(self.path@, self.x as int, self.y as int, self.rotation, k)
    }

    /// A piece of one cell at (`x`, `y`), not turned.
    pub fn new(index: usize, x: usize, y: usize) -> (b: Self)
        ensures
            b.index == index,
            b.path@.len() == 0,
            b.rotation == Direction::North,
            b.x == x,
            b.y == y,
    {
        Block { index, path: Vec::new(), rotation: Direction::North, x, y }
    }

    /// The piece with one more cell, north of its last.
    pub fn north(self) -> (b: Self)
        ensures
            self.stepped(b, Direction::North),
    {
        let mut b = self;
        b.path.push(Direction::North);
        b
    }

    /// The piece with one more cell, west of its last.
    pub fn west(self) -> (b: Self)
        ensures
            self.stepped(b, Direction::West),
    {
        let mut b = self;
        b.path.push(Direction::West);
        b
    }

    /// The piece with one more cell, south of its last.
    pub fn south(self) -> (b: Self)
        ensures
            self.stepped(b, Direction::South),
    {
        let mut b = self;
        b.path.push(Direction::South);
        b
    }

    /// The piece with one more cell, east of its last.
    pub fn east(self) -> (b: Self)
        ensures
            self.stepped(b, Direction::East),
    {
        let mut b = self;
        b.path.push(Direction::East);
        b
    }

    /// The piece turned a quarter turn further.
    pub fn rotate_next(self) -> (b: Self)
        ensures
            b.rotation == self.rotation.rotate(),
            b.index == self.index,
            b.path == self.path,
            b.x == self.x,
            b.y == self.y,
    {
        let mut b = self;
        b.rotation = b.rotation.rotate();
        b
    }

    /// Moves the first cell to (`x`, `y`).
    pub fn translate(&mut self, x: usize, y: usize) -> (ret: &mut Self)
        ensures
            ret.x == x,
            ret.y == y,
            ret.index == old(self).index,
            ret.path == old(self).path,
            ret.rotation == old(self).rotation,
            *final(self) == *final(ret),
    {
        self.x = x;
        self.y = y;
        self
    }

    /// Turns the piece a quarter turn further.
    pub fn rotate(&mut self) -> (ret: &mut Self)
        ensures
            ret.rotation == old(self).rotation.rotate(),
            ret.index == old(self).index,
            ret.path == old(self).path,
            ret.x == old(self).x,
            ret.y == old(self).y,
            *final(self) == *final(ret),
    {
        self.rotation = self.rotation.rotate();
        self
    }

    /// The same piece as a list of cells around an anchor: its anchor is the
    /// first cell, and it covers the same cells in the same order.
    pub fn to_block(&self) -> (b: crate::block::Block)
        requires
            self.x <= isize::MAX,
            self.y <= isize::MAX,
            self.path@.len() < isize::MAX,
        ensures
            b.wf(),
            b.index == self.index,
            b.rotation == self.rotation.as_rotation(),
            b.position@ == (Cell { x: self.x as int, z: self.y as int }),
            b.tiles@.len() == self.path@.len() + 1,
            forall|k: int| 0 <= k <= self.path@.len() ==> (#[trigger] b.tiles@[k])@ == relative(self.path@, k),
            forall|k: int|
                0 <= k <= self.path@.len() ==> #[trigger] b.footprint()[k] == (Cell {
                    x: self.cell(k).0,
                    z: self.cell(k).1,
                }),
    {
        let mut tiles: Vec<Dis2> = Vec::new();
        let mut cx: isize = 0;
        let mut cz: isize = 0;
        tiles.push(Dis2 { x: 0, z: 0 });
        let mut i: usize = 0;
        while i < self.path.len()
            invariant
                i <= self.path@.len(),
                self.path@.len() < isize::MAX,
                tiles@.len() == i + 1,
                (Cell { x: cx as int, z: cz as int }) == relative(self.path@, i as int),
                forall|k: int| 0 <= k <= i ==> (#[trigger] tiles@[k])@ == relative(self.path@, k),
            decreases self.path@.len() - i,
        {
            proof {
                lemma_walk_turns(self.path@, 0, 0, Direction::North, i as int);
                lemma_walk_turns(self.path@, 0, 0, Direction::North, i + 1);
            }
            match self.path[i] {
                Direction::North => {
                    cz = cz + 1;
                },
                Direction::West => {
                    cx = cx - 1;
                },
                Direction::South => {
                    cz = cz - 1;
                },
                Direction::East => {
                    cx = cx + 1;
                },
            }
            tiles.push(Dis2 { x: cx, z: cz });
            i += 1;
        }
        let b = crate::block::Block {
            index: self.index,
            tiles,
            rotation: self.rotation.as_rotation(),
            position: Dis2 { x: self.x as isize, z: self.y as isize },
        };
        assert forall|k: int| 0 <= k <= self.path@.len() implies #[trigger] b.footprint()[k] == (Cell {
            x: self.cell(k).0,
            z: self.cell(k).1,
        }) by {
            lemma_walk_turns(self.path@, self.x as int, self.y as int, self.rotation, k);
        }
        b
    }

    /// The cells of the piece as it stands, in the order of the walk.
    pub fn iter(&self) -> (cells: Vec<(isize, isize)>)
        requires
            self.x <= isize::MAX,
            self.y <= isize::MAX,
            forall|k: int| 0 <= k <= self.path@.len() ==> cell_fits(#[trigger] self.cell(k)),
        ensures
            cells@.len() == self.path@.len() + 1,
            forall|k: int|
                0 <= k <= self.path@.len() ==> (#[trigger] cells@[k]).0 == self.cell(k).0
                    && cells@[k].1 == self.cell(k).1,
    {
        assert forall|k: int| 0 <= k <= self.path@.len() implies cell_fits(
            #[trigger] walked(self.path@, self.x as int, self.y as int, self.rotation, k),
        ) by {
            assert(cell_fits(self.cell(k)));
        }
        self.iter_with(self.x as isize, self.y as isize, self.rotation)
    }

    /// The cells that the piece would cover with its first cell on (`x`, `y`)
    /// and turned by `rotation`, in the order of the walk: (`x`, `y`) itself,
    /// and after each cell the one that lies one step from it, in the direction
    /// of that step of the walk turned by `rotation`. The piece itself is not
    /// changed.
    pub fn iter_with(&self, x: isize, y: isize, rotation: Direction) -> (cells: Vec<(isize, isize)>)
        requires
            forall|k: int|
                0 <= k <= self.path@.len() ==> cell_fits(
                    #[trigger] walked(self.path@, x as int, y as int, rotation, k),
                ),
        ensures
            cells@.len() == self.path@.len() + 1,
            cells@[0] == (x, y),
            forall|k: int|
                0 <= k < self.path@.len() ==> (#[trigger] cells@[k + 1]).0 == cells@[k].0
                    + self.path@[k].rotate_by(rotation).step().0 && cells@[k + 1].1 == cells@[k].1
                    + self.path@[k].rotate_by(rotation).step().1,
            forall|k: int|
                0 <= k <= self.path@.len() ==> (#[trigger] cells@[k]).0 == walked(
                    self.path@,
                    x as int,
                    y as int,
                    rotation,
                    k,
                ).0 && cells@[k].1 == walked(self.path@, x as int, y as int, rotation, k).1,
    {
        let mut cells: Vec<(isize, isize)> = Vec::new();
        let mut cx: isize = x;
        let mut cy: isize = y;
        assert(cell_fits(walked(self.path@, x as int, y as int, rotation, 0)));
        cells.push((cx, cy));
        let mut i: usize = 0;
        while i < self.path.len()
            invariant
                i <= self.path@.len(),
                cells@.len() == i + 1,
                cx == walked(self.path@, x as int, y as int, rotation, i as int).0,
                cy == walked(self.path@, x as int, y as int, rotation, i as int).1,
                forall|k: int|
                    0 <= k <= self.path@.len() ==> cell_fits(
                        #[trigger] walked(self.path@, x as int, y as int, rotation, k),
                    ),
                forall|k: int|
                    0 <= k <= i ==> (#[trigger] cells@[k]).0 == walked(
                        self.path@,
                        x as int,
                        y as int,
                        rotation,
                        k,
                    ).0 && cells@[k].1 == walked(self.path@, x as int, y as int, rotation, k).1,
            decreases self.path@.len() - i,
        {
            assert(cell_fits(walked(self.path@, x as int, y as int, rotation, i + 1)));
            match self.path[i].rotate_by(rotation) {
                Direction::North => {
                    cy = cy + 1;
                },
                Direction::West => {
                    cx = cx - 1;
                },
                Direction::South => {
                    cy = cy - 1;
                },
                Direction::East => {
                    cx = cx + 1;
                },
            }
            cells.push((cx, cy));
            i += 1;
        }
        assert forall|k: int| 0 <= k < self.path@.len() implies (#[trigger] cells@[k + 1]).0
            == cells@[k].0 + self.path@[k].rotate_by(rotation).step().0 && cells@[k + 1].1
            == cells@[k].1 + self.path@[k].rotate_by(rotation).step().1 by {
            assert(cells@[k].0 == walked(self.path@, x as int, y as int, rotation, k).0);
            assert(cells@[k + 1].0 == walked(self.path@, x as int, y as int, rotation, k + 1).0);
        }
        cells
    }
}

} // verus!
