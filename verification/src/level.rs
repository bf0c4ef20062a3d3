//! The occupancy map of a level: which cell is blocked, free, or claimed by
//! which piece.

use vstd::prelude::*;
use vstd::string::StringExecFns;
use crate::block::{cell_of, footprint_of, Block};
use crate::geometry::{Cell, Dis2, Rotation};
use crate::world::{Point, WorldPos, HALF_UNIT, SURFACE, UNIT};

verus! {

/// Marker of a cell that no piece can ever use.
pub const UNUSABLE: usize = usize::MAX;

/// Marker of a usable cell that no piece claims. Every other marker is the
/// identifier of the piece that claims the cell.
pub const FREE: usize = 0;

/// What a level is, mathematically: its size, the last identifier it handed
/// out, and the marker of each of its cells.
pub struct LevelView {
    pub width: nat,
    pub height: nat,
    pub index: nat,
    pub cells: Map<Cell, usize>,
}

/// Whether one of the first `n` entries of `cells` is `c`.
pub open spec fn covers(cells: Seq<Cell>, n: int, c: Cell) -> bool {
    exists|k: int| 0 <= k < n && k < cells.len() && cells[k] == c
}

/// `n / d` rounded to the nearest integer, halves away from zero.
pub open spec fn round_div(n: int, d: int) -> int {
    if n >= 0 {
        (n + d / 2) / d
    } else {
        -((-n + d / 2) / d)
    }
}

/// `n` limited to the range of `isize`.
pub open spec fn clamp_isize(n: int) -> int {
    if n < isize::MIN {
        isize::MIN as int
    } else if n > isize::MAX {
        isize::MAX as int
    } else {
        n
    }
}

impl LevelView {
    /// The cell lies on the grid: both upper bounds are exclusive.
    pub open spec fn contains(self, c: Cell) -> bool {
        0 <= c.x < self.width && 0 <= c.z < self.height
    }

    /// The markers are defined on the cells of the grid and nowhere else.
    pub open spec fn wf(self) -> bool {
        forall|c: Cell| self.cells.dom().contains(c) <==> self.contains(c)
    }

    /// A level of the given size on which every cell is unusable.
    pub open spec fn blank(width: nat, height: nat) -> LevelView {
        LevelView {
            width,
            height,
            index: 0,
            cells: Map::new(
                |c: Cell| 0 <= c.x < width && 0 <= c.z < height,
                |c: Cell| UNUSABLE,
            ),
        }
    }

    /// Every cell of `cells` lies on the grid.
    pub open spec fn all_inside(self, cells: Seq<Cell>) -> bool {
        forall|i: int| 0 <= i < cells.len() ==> self.contains(#[trigger] cells[i])
    }

    /// Every cell of `cells` lies on the grid and carries the marker `value`.
    pub open spec fn all_marked(self, cells: Seq<Cell>, value: usize) -> bool {
        forall|i: int|
            0 <= i < cells.len() ==> self.contains(#[trigger] cells[i]) && self.cells[cells[i]]
                == value
    }

    /// The piece `id` may occupy `cells`: each of them lies on the grid and
    /// is free or already claimed by `id` itself.
    pub open spec fn can_place(self, cells: Seq<Cell>, id: usize) -> bool {
        forall|i: int|
            0 <= i < cells.len() ==> self.contains(#[trigger] cells[i]) && (self.cells[cells[i]]
                == FREE || self.cells[cells[i]] == id)
    }

    /// The piece `id` holds exactly `cells`: `id` is a piece identifier, every
    /// cell of `cells` carries it, and no other cell does.
    pub open spec fn holds(self, cells: Seq<Cell>, id: usize) -> bool {
        &&& id != FREE
        &&& id != UNUSABLE
        &&& self.all_marked(cells, id)
        &&& forall|c: Cell|
            self.contains(c) && #[trigger] self.cells[c] == id ==> covers(
                cells,
                cells.len() as int,
                c,
            )
    }

    /// Every cell of `cells` lies on the grid and is claimed by no piece: it
    /// is free or unusable.
    pub open spec fn unclaimed(self, cells: Seq<Cell>) -> bool {
        forall|i: int|
            0 <= i < cells.len() ==> self.contains(#[trigger] cells[i]) && (self.cells[cells[i]]
                == FREE || self.cells[cells[i]] == UNUSABLE)
    }

    /// Every cell that a piece claims carries an identifier that the level
    /// has handed out.
    pub open spec fn tidy(self) -> bool {
        forall|c: Cell|
            self.contains(c) ==> #[trigger] self.cells[c] == UNUSABLE || self.cells[c]
                <= self.index
    }

    /// The level with the marker `value` on every cell of `cells` that lies on
    /// the grid, and every other cell as it was.
    pub open spec fn stamped(self, cells: Seq<Cell>, value: usize) -> LevelView {
        LevelView {
            cells: Map::new(
                |c: Cell| self.contains(c),
                |c: Cell|
                    if covers(cells, cells.len() as int, c) {
                        value
                    } else {
                        self.cells[c]
                    },
            ),
            ..self
        }
    }

    /// The level with the cell `c` usable: free if it was unusable, else as it
    /// was.
    pub open spec fn with_floor(self, c: Cell) -> LevelView {
        if self.contains(c) && self.cells[c] == UNUSABLE {
            LevelView { cells: self.cells.insert(c, FREE), ..self }
        } else {
            self
        }
    }

    /// World x of the centre of column 0.
    pub open spec fn offset_x(self) -> int {
        -(self.width * HALF_UNIT)
    }

    /// World z of the centre of row 0.
    pub open spec fn offset_z(self) -> int {
        -(self.height * HALF_UNIT)
    }

    /// The world position of the centre of a cell, on the surface on which
    /// cubes travel.
    pub open spec fn to_world(self, c: Cell) -> Point {
        Point { x: self.offset_x() + c.x * UNIT, y: SURFACE as int, z: self.offset_z() + c.z * UNIT }
    }

    /// The cell whose centre is nearest to a world position.
    pub open spec fn to_grid(self, p: Point) -> Cell {
        Cell {
            x: round_div(p.x - self.offset_x(), UNIT as int),
            z: round_div(p.z - self.offset_z(), UNIT as int),
        }
    }
}

/// The occupancy map of one level.
#[derive(Debug)]
pub struct Level {
    width: usize,
    height: usize,
    index: usize,
    floor: Vec<usize>,
}

proof fn lemma_slot_bound(w: int, h: int, x: int, z: int)
    requires
        0 <= x < w,
        0 <= z < h,
    ensures
        0 <= z * w + x < w * h,
{
    assert(z * w + x < w * h) by (nonlinear_arith)
        requires
            0 <= x < w,
            0 <= z < h,
    {
        assert((z + 1) * w <= h * w);
    }
    assert(0 <= z * w) by (nonlinear_arith)
        requires
            0 <= z,
            0 <= w,
    ;
}

proof fn lemma_slot_injective(w: int, x1: int, z1: int, x2: int, z2: int)
    requires
        0 <= x1 < w,
        0 <= x2 < w,
        0 <= z1,
        0 <= z2,
        z1 * w + x1 == z2 * w + x2,
    ensures
        x1 == x2,
        z1 == z2,
{
    if z1 < z2 {
        assert(z2 * w >= z1 * w + w) by (nonlinear_arith)
            requires
                z1 + 1 <= z2,
                0 <= w,
        ;
    } else if z2 < z1 {
        assert(z1 * w >= z2 * w + w) by (nonlinear_arith)
            requires
                z2 + 1 <= z1,
                0 <= w,
        ;
    }
}

/// The index of the row or column whose centre is nearest to the world
/// coordinate `coord`, where the centre of index 0 lies at `offset`; limited to
/// the range of `isize`.
fn nearest_index(coord: i128, offset: i128) -> (n: isize)
    requires
        -0x1_0000_0000_0000_0000 * HALF_UNIT <= offset <= 0,
    ensures
        n == clamp_isize(round_div(coord - offset, UNIT as int)),
{
    if coord >= 0x1_0000_0000_0000_0000_0000_0000 {
        isize::MAX
    } else if coord <= -0x1_0000_0000_0000_0000_0000_0000 {
        isize::MIN
    } else {
        let d: i128 = coord - offset;
        let q: i128 = if d >= 0 {
            (d + HALF_UNIT) / UNIT
        } else {
            -((-d + HALF_UNIT) / UNIT)
        };
        if q > isize::MAX as i128 {
            isize::MAX
        } else if q < isize::MIN as i128 {
            isize::MIN
        } else {
            q as isize
        }
    }
}

/// The character of a decimal digit.
pub open spec fn digit_char(d: int) -> char {
    if d == 0 {
        '0'
    } else if d == 1 {
        '1'
    } else if d == 2 {
        '2'
    } else if d == 3 {
        '3'
    } else if d == 4 {
        '4'
    } else if d == 5 {
        '5'
    } else if d == 6 {
        '6'
    } else if d == 7 {
        '7'
    } else if d == 8 {
        '8'
    } else {
        '9'
    }
}

/// The decimal digits of `n`, without leading zeros.
pub open spec fn decimal(n: nat) -> Seq<char>
    decreases n,
{
    if n < 10 {
        seq![digit_char(n as int)]
    } else {
        decimal(n / 10).push(digit_char((n % 10) as int))
    }
}

/// How a marker is written: a blank for a free cell, `#` for an unusable
/// one, and the identifier of the piece, in decimal, for a claimed one.
pub open spec fn marker_text(marker: usize) -> Seq<char> {
    if marker == FREE {
        seq![' ']
    } else if marker == UNUSABLE {
        seq!['#']
    } else {
        decimal(marker as nat)
    }
}

/// The markers of the first `n` cells of row `z`, written one after the
/// other.
pub open spec fn row_text(v: LevelView, z: int, n: int) -> Seq<char>
    decreases n,
{
    if n <= 0 {
        seq![]
    } else {
        row_text(v, z, n - 1) + marker_text(v.cells[Cell { x: n - 1, z }])
    }
}

/// The one-character string of a decimal digit.
fn digit_str(d: usize) -> (s: &'static str)
    requires
        d < 10,
    ensures
        s@ == seq![digit_char(d as int)],
{
    proof {
        reveal_strlit("0");
        reveal_strlit("1");
        reveal_strlit("2");
        reveal_strlit("3");
        reveal_strlit("4");
        reveal_strlit("5");
        reveal_strlit("6");
        reveal_strlit("7");
        reveal_strlit("8");
        reveal_strlit("9");
    }
    let s = if d == 0 {
        "0"
    } else if d == 1 {
        "1"
    } else if d == 2 {
        "2"
    } else if d == 3 {
        "3"
    } else if d == 4 {
        "4"
    } else if d == 5 {
        "5"
    } else if d == 6 {
        "6"
    } else if d == 7 {
        "7"
    } else if d == 8 {
        "8"
    } else {
        "9"
    };
    assert(s@ =~= seq![digit_char(d as int)]);
    s
}

/// `n` written in decimal and appended to `text`.
fn append_decimal(text: &mut String, n: usize)
    ensures
        final(text)@ == old(text)@ + decimal(n as nat),
    decreases n,
{
    if n >= 10 {
        append_decimal(text, n / 10);
    }
    text.append(digit_str(n % 10));
    assert(text@ =~= old(text)@ + decimal(n as nat));
}

/// The text of `marker` appended to `text`.
fn append_marker(text: &mut String, marker: usize)
    ensures
        final(text)@ == old(text)@ + marker_text(marker),
{
    proof {
        reveal_strlit(" ");
        reveal_strlit("#");
    }
    if marker == FREE {
        text.append(" ");
        assert(text@ =~= old(text)@ + marker_text(marker));
    } else if marker == UNUSABLE {
        text.append("#");
        assert(text@ =~= old(text)@ + marker_text(marker));
    } else {
        append_decimal(text, marker);
    }
}

impl View for Level {
    type V = LevelView;

    closed spec fn view(&self) -> LevelView {
        LevelView {
            width: self.width as nat,
            height: self.height as nat,
            index: self.index as nat,
            cells: Map::new(
                |c: Cell| 0 <= c.x < self.width && 0 <= c.z < self.height,
                |c: Cell| self.floor@[c.z * self.width + c.x],
            ),
        }
    }
}

impl Level {
    /// The representation holds one marker per cell.
    pub closed spec fn inv(&self) -> bool {
        self.floor@.len() == self.width * self.height && self.width * self.height <= usize::MAX
    }

    /// The level is well formed.
    pub open spec fn wf(&self) -> bool {
        self.inv() && self@.wf()
    }

    /// A level of `width` by `height` cells, all of them unusable.
    pub fn new(width: usize, height: usize) -> (level: Self)
        requires
            width * height <= usize::MAX,
        ensures
            level.wf(),
            level@ == LevelView::blank(width as nat, height as nat),
    {
        let level = Level { width, height, index: 0, floor: vec![usize::MAX; width * height] };
        proof {
            assert forall|c: Cell| level@.cells.dom().contains(c) implies level@.cells[c]
                == UNUSABLE by {
                lemma_slot_bound(width as int, height as int, c.x, c.z);
            }
            assert(level@.cells =~= LevelView::blank(width as nat, height as nat).cells);
        }
        level
    }

    /// Number of columns.
    pub fn width(&self) -> (w: usize)
        ensures
            w == self@.width,
    {
        self.width
    }

    /// Number of rows.
    pub fn height(&self) -> (h: usize)
        ensures
            h == self@.height,
    {
        self.height
    }

    /// The marker of the cell in column `x` and row `z`, if it lies on the
    /// grid.
    pub fn get(&self, x: usize, z: usize) -> (marker: Option<&usize>)
        requires
            self.wf(),
        ensures
            marker is Some <==> self@.contains(Cell { x: x as int, z: z as int }),
            marker matches Some(m) ==> *m == self@.cells[Cell { x: x as int, z: z as int }],
    {
        if x >= self.width || z >= self.height {
            None
        } else {
            proof {
                lemma_slot_bound(self.width as int, self.height as int, x as int, z as int);
            }
            Some(&self.floor[z * self.width + x])
        }
    }

    /// The marker of the cell `dis`, if it lies on the grid.
    pub fn getd(&self, dis: Dis2) -> (marker: Option<&usize>)
        requires
            self.wf(),
        ensures
            marker is Some <==> self@.contains(dis@),
            marker matches Some(m) ==> *m == self@.cells[dis@],
    {
        if dis.x < 0 || dis.z < 0 {
            None
        } else {
            self.get(dis.x as usize, dis.z as usize)
        }
    }

    /// Writes `value` on the cell in column `x` and row `z`.
    fn set_marker(&mut self, x: usize, z: usize, value: usize)
        requires
            old(self).wf(),
            x < old(self)@.width,
            z < old(self)@.height,
        ensures
            final(self).wf(),
            final(self)@ == (LevelView {
                cells: old(self)@.cells.insert(Cell { x: x as int, z: z as int }, value),
                ..old(self)@
            }),
    {
        proof {
            lemma_slot_bound(self.width as int, self.height as int, x as int, z as int);
        }
        let slot = z * self.width + x;
        self.floor.set(slot, value);
        proof {
            let target = Cell { x: x as int, z: z as int };
            let expected = old(self)@.cells.insert(target, value);
            assert forall|c: Cell| #[trigger] self@.cells.dom().contains(c) implies self@.cells[c]
                == expected[c] by {
                lemma_slot_bound(self.width as int, self.height as int, c.x, c.z);
                if c != target {
                    if c.z * self.width + c.x == slot {
                        lemma_slot_injective(self.width as int, c.x, c.z, x as int, z as int);
                    }
                }
            }
            assert(self@.cells =~= expected);
        }
    }

    /// The next piece identifier: one more than the last, starting from 1.
    pub fn next_index(&mut self) -> (id: usize)
        requires
            old(self).wf(),
            old(self)@.index + 1 < UNUSABLE,
        ensures
            final(self).wf(),
            id == old(self)@.index + 1,
            final(self)@ == (LevelView { index: id as nat, ..old(self)@ }),
    {
        self.index += 1;
        assert(self@.cells =~= old(self)@.cells);
        self.index
    }

    /// Whether `block` may stand at `dis` with rotation `dir`: every cell it
    /// would occupy lies on the grid and is free or claimed by `block` itself.
    /// Cells that `block` occupies now therefore never stand in its own way.
    pub fn try_place(&self, block: &Block, dis: Dis2, dir: Rotation) -> (ok: bool)
        requires
            self.wf(),
        ensures
            ok == self@.can_place(block.footprint_at(dis@, dir), block.index),
    {
        let ghost fp = block.footprint_at(dis@, dir);
        let mut i: usize = 0;
        while i < block.tiles.len()
            invariant
                self.wf(),
                i <= block.tiles@.len(),
                fp == block.footprint_at(dis@, dir),
                forall|k: int|
                    0 <= k < i ==> self@.contains(#[trigger] fp[k]) && (self@.cells[fp[k]] == FREE
                        || self@.cells[fp[k]] == block.index),
            decreases block.tiles@.len() - i,
        {
            let (x, z) = block.cell_at(i, dis, dir);
            if x < 0 || z < 0 || x >= self.width as i128 || z >= self.height as i128 {
                assert(!self@.contains(fp[i as int]));
                return false;
            }
            match self.get(x as usize, z as usize) {
                Some(marker) => {
                    if *marker != FREE && *marker != block.index {
                        assert(fp[i as int] == Cell { x: x as int, z: z as int });
                        return false;
                    }
                },
                None => {
                    return false;
                },
            }
            assert(fp[i as int] == Cell { x: x as int, z: z as int });
            i += 1;
        }
        true
    }

    /// Whether the local cells `tiles`, turned by `dir` and moved to `dis`,
    /// all lie on the grid and are claimed by no piece.
    pub fn is_unclaimed(&self, tiles: &Vec<Dis2>, dis: Dis2, dir: Rotation) -> (ok: bool)
        requires
            self.wf(),
        ensures
            ok == self@.unclaimed(footprint_of(tiles@, dis@, dir)),
    {
        let ghost fp = footprint_of(tiles@, dis@, dir);
        let mut i: usize = 0;
        while i < tiles.len()
            invariant
                self.wf(),
                i <= tiles@.len(),
                fp == footprint_of(tiles@, dis@, dir),
                forall|k: int|
                    0 <= k < i ==> self@.contains(#[trigger] fp[k]) && (self@.cells[fp[k]] == FREE
                        || self@.cells[fp[k]] == UNUSABLE),
            decreases tiles@.len() - i,
        {
            let (x, z) = cell_of(tiles, i, dis, dir);
            if x < 0 || z < 0 || x >= self.width as i128 || z >= self.height as i128 {
                assert(!self@.contains(fp[i as int]));
                return false;
            }
            assert(fp[i as int] == Cell { x: x as int, z: z as int });
            match self.get(x as usize, z as usize) {
                Some(marker) => {
                    if *marker != FREE && *marker != UNUSABLE {
                        return false;
                    }
                },
                None => {
                    return false;
                },
            }
            i += 1;
        }
        true
    }

    /// Whether `block` occupies the cell in column `x` and row `z`.
    fn occupies(block: &Block, x: usize, z: usize) -> (found: bool)
        ensures
            found == covers(
                block.footprint(),
                block.footprint().len() as int,
                Cell { x: x as int, z: z as int },
            ),
    {
        let ghost fp = block.footprint();
        let ghost c = Cell { x: x as int, z: z as int };
        let mut i: usize = 0;
        while i < block.tiles.len()
            invariant
                i <= block.tiles@.len(),
                fp == block.footprint(),
                c == (Cell { x: x as int, z: z as int }),
                forall|k: int| 0 <= k < i ==> fp[k] != c,
            decreases block.tiles@.len() - i,
        {
            let (cx, cz) = block.cell_at(i, block.position, block.rotation);
            if cx == x as i128 && cz == z as i128 {
                assert(fp[i as int] == c);
                return true;
            }
            i += 1;
        }
        false
    }

    /// Whether `block` holds exactly the cells it occupies: its identifier
    /// is a piece identifier, every cell it occupies carries it, and no other
    /// cell does.
    pub fn holds(&self, block: &Block) -> (ok: bool)
        requires
            self.wf(),
        ensures
            ok == self@.holds(block.footprint(), block.index),
    {
        if block.index == FREE || block.index == UNUSABLE {
            return false;
        }
        let ghost fp = block.footprint();
        let mut i: usize = 0;
        while i < block.tiles.len()
            invariant
                self.wf(),
                i <= block.tiles@.len(),
                fp == block.footprint(),
                forall|k: int|
                    0 <= k < i ==> self@.contains(#[trigger] fp[k]) && self@.cells[fp[k]]
                        == block.index,
            decreases block.tiles@.len() - i,
        {
            let (x, z) = block.cell_at(i, block.position, block.rotation);
            if x < 0 || z < 0 || x >= self.width as i128 || z >= self.height as i128 {
                assert(!self@.contains(fp[i as int]));
                return false;
            }
            assert(fp[i as int] == Cell { x: x as int, z: z as int });
            match self.get(x as usize, z as usize) {
                Some(marker) => {
                    if *marker != block.index {
                        return false;
                    }
                },
                None => {
                    return false;
                },
            }
            i += 1;
        }
        let mut x: usize = 0;
        while x < self.width
            invariant
                self.wf(),
                fp == block.footprint(),
                x <= self.width,
                forall|c: Cell|
                    0 <= c.x < x && 0 <= c.z < self.height && #[trigger] self@.cells[c]
                        == block.index ==> covers(fp, fp.len() as int, c),
            decreases self.width - x,
        {
            let mut z: usize = 0;
            while z < self.height
                invariant
                    self.wf(),
                    fp == block.footprint(),
                    x < self.width,
                    z <= self.height,
                    forall|c: Cell|
                        0 <= c.x < x && 0 <= c.z < self.height && #[trigger] self@.cells[c]
                            == block.index ==> covers(fp, fp.len() as int, c),
                    forall|c: Cell|
                        c.x == x && 0 <= c.z < z && #[trigger] self@.cells[c] == block.index
                            ==> covers(fp, fp.len() as int, c),
                decreases self.height - z,
            {
                let ghost here = Cell { x: x as int, z: z as int };
                let claimed = match self.get(x, z) {
                    Some(marker) => *marker == block.index,
                    None => false,
                };
                if claimed && !Self::occupies(block, x, z) {
                    assert(self@.contains(here) && self@.cells[here] == block.index);
                    return false;
                }
                z += 1;
            }
            x += 1;
        }
        true
    }

    /// Writes `value` on every cell that `block` occupies.
    fn stamp(&mut self, block: &Block, value: usize)
        requires
            old(self).wf(),
            old(self)@.all_inside(block.footprint()),
        ensures
            final(self).wf(),
            final(self)@ == old(self)@.stamped(block.footprint(), value),
    {
        let ghost before = self@;
        let ghost fp = block.footprint();
        let mut i: usize = 0;
        while i < block.tiles.len()
            invariant
                self.wf(),
                before.wf(),
                i <= block.tiles@.len(),
                fp == block.footprint(),
                before.all_inside(fp),
                self@.width == before.width,
                self@.height == before.height,
                self@.index == before.index,
                forall|c: Cell|
                    before.contains(c) ==> #[trigger] self@.cells[c] == if covers(fp, i as int, c) {
                        value
                    } else {
                        before.cells[c]
                    },
            decreases block.tiles@.len() - i,
        {
            let (x, z) = block.cell_at(i, block.position, block.rotation);
            let ghost target = fp[i as int];
            assert(before.contains(target));
            assert(target == Cell { x: x as int, z: z as int });
            let ghost previous = self@;
            self.set_marker(x as usize, z as usize, value);
            proof {
                assert forall|c: Cell| before.contains(c) implies #[trigger] self@.cells[c]
                    == if covers(fp, i + 1, c) {
                    value
                } else {
                    before.cells[c]
                } by {
                    if c == target {
                        assert(covers(fp, i + 1, c));
                    } else {
                        assert(self@.cells[c] == previous.cells[c]);
                        if covers(fp, i as int, c) {
                            let k = choose|k: int| 0 <= k < i && k < fp.len() && fp[k] == c;
                            assert(0 <= k < i + 1 && k < fp.len() && fp[k] == c);
                        } else if covers(fp, i + 1, c) {
                            let k = choose|k: int| 0 <= k < i + 1 && k < fp.len() && fp[k] == c;
                            assert(k == i);
                        }
                    }
                }
            }
            i += 1;
        }
        proof {
            let after = before.stamped(fp, value);
            assert forall|c: Cell| self@.cells.dom().contains(c) implies #[trigger] self@.cells[c]
                == after.cells[c] by {
                assert(before.contains(c));
            }
            assert(self@.cells =~= after.cells);
        }
    }

    /// Frees every cell that `block` occupies. Each of them must carry the
    /// identifier of `block`.
    pub fn remove(&mut self, block: &Block)
        requires
            old(self).wf(),
            old(self)@.all_marked(block.footprint(), block.index),
        ensures
            final(self).wf(),
            final(self)@ == old(self)@.stamped(block.footprint(), FREE),
    {
        self.stamp(block, FREE);
    }

    /// Claims for `block` every cell that it occupies. Each of them must be
    /// free.
    pub fn place(&mut self, block: &Block)
        requires
            old(self).wf(),
            old(self)@.all_marked(block.footprint(), FREE),
        ensures
            final(self).wf(),
            final(self)@ == old(self)@.stamped(block.footprint(), block.index),
    {
        self.stamp(block, block.index);
    }

    /// Claims for `block` every cell that it occupies, whatever the cell
    /// carried before. Each of them must lie on the grid.
    pub fn place_unchecked(&mut self, block: &Block)
        requires
            old(self).wf(),
            old(self)@.all_inside(block.footprint()),
        ensures
            final(self).wf(),
            final(self)@ == old(self)@.stamped(block.footprint(), block.index),
    {
        self.stamp(block, block.index);
    }

    /// Makes the cell in column `x` and row `z` usable: an unusable cell
    /// becomes free, any other cell stays as it is.
    pub fn set_floor(&mut self, x: usize, z: usize)
        requires
            old(self).wf(),
            x < old(self)@.width,
            z < old(self)@.height,
        ensures
            final(self).wf(),
            final(self)@ == old(self)@.with_floor(Cell { x: x as int, z: z as int }),
    {
        let unusable = match self.get(x, z) {
            Some(marker) => *marker == UNUSABLE,
            None => false,
        };
        if unusable {
            self.set_marker(x, z, FREE);
        }
    }

    /// World x and z of the centre of the cell (0, 0): minus half the width
    /// and minus half the height.
    pub fn offset(&self) -> (o: (i128, i128))
        ensures
            o.0 == self@.offset_x(),
            o.1 == self@.offset_z(),
    {
        (-(self.width as i128 * HALF_UNIT), -(self.height as i128 * HALF_UNIT))
    }

    /// The cell whose centre is nearest to the world position `pos`, each
    /// coordinate limited to the range of `isize`. The height of `pos` plays
    /// no part.
    pub fn to_discrete(&self, pos: WorldPos) -> (d: Dis2)
        ensures
            d.x == clamp_isize(self@.to_grid(pos@).x),
            d.z == clamp_isize(self@.to_grid(pos@).z),
    {
        let (ox, oz) = self.offset();
        Dis2 { x: nearest_index(pos.x, ox), z: nearest_index(pos.z, oz) }
    }

    /// The world position of the centre of the cell `pos`, on the surface on
    /// which cubes travel.
    pub fn to_vec3(&self, pos: Dis2) -> (p: WorldPos)
        ensures
            p@ == self@.to_world(pos@),
    {
        let (ox, oz) = self.offset();
        WorldPos { x: ox + pos.x as i128 * UNIT, y: SURFACE, z: oz + pos.z as i128 * UNIT }
    }

    /// The level as text, one string per row: a blank for a free cell, `#`
    /// for an unusable one, and the identifier of its piece for a claimed one.
    pub fn rows(&self) -> (text: Vec<String>)
        requires
            self.wf(),
        ensures
            text@.len() == self@.height,
            forall|z: int|
                0 <= z < self@.height ==> (#[trigger] text@[z])@ == row_text(
                    self@,
                    z,
                    self@.width as int,
                ),
    {
        let mut text: Vec<String> = Vec::new();
        let mut z: usize = 0;
        while z < self.height
            invariant
                self.wf(),
                z <= self.height,
                text@.len() == z,
                forall|k: int|
                    0 <= k < z ==> (#[trigger] text@[k])@ == row_text(self@, k, self@.width as int),
            decreases self.height - z,
        {
            let mut row = String::new();
            let mut x: usize = 0;
            while x < self.width
                invariant
                    self.wf(),
                    z < self.height,
                    x <= self.width,
                    row@ == row_text(self@, z as int, x as int),
                decreases self.width - x,
            {
                let marker = match self.get(x, z) {
                    Some(marker) => *marker,
                    None => UNUSABLE,
                };
                append_marker(&mut row, marker);
                x += 1;
            }
            text.push(row);
            z += 1;
        }
        text
    }

    /// The last piece identifier handed out, 0 if none was.
    pub fn last_index(&self) -> (id: usize)
        ensures
            id == self@.index,
    {
        self.index
    }
}

/// Placing a piece on free cells and removing it again leaves the level as
/// it was: every cell the piece claimed is free again.
pub proof fn lemma_place_then_remove(v: LevelView, cells: Seq<Cell>, id: usize)
    requires
        v.wf(),
        v.all_marked(cells, FREE),
    ensures
        v.stamped(cells, id).all_marked(cells, id),
        v.stamped(cells, id).stamped(cells, FREE) == v,
{
    let placed = v.stamped(cells, id);
    assert forall|i: int| 0 <= i < cells.len() implies placed.contains(#[trigger] cells[i])
        && placed.cells[cells[i]] == id by {
        assert(covers(cells, cells.len() as int, cells[i]));
    }
    let back = placed.stamped(cells, FREE);
    assert forall|c: Cell| #[trigger] back.cells.dom().contains(c) implies back.cells[c]
        == v.cells[c] by {
        if covers(cells, cells.len() as int, c) {
            let k = choose|k: int| 0 <= k < cells.len() && k < cells.len() && cells[k] == c;
            assert(v.cells[cells[k]] == FREE);
        }
    }
    assert forall|c: Cell| #[trigger] v.cells.dom().contains(c) implies back.cells.dom().contains(
        c,
    ) by {
        assert(v.contains(c));
    }
    assert forall|c: Cell| #[trigger] back.cells.dom().contains(c) implies v.cells.dom().contains(
        c,
    ) by {
        assert(v.contains(c));
    }
    assert(back.cells =~= v.cells);
}

/// Removing a piece from the cells it claims and placing it again leaves the
/// level as it was: every cell carries the piece's identifier again.
pub proof fn lemma_remove_then_place(v: LevelView, cells: Seq<Cell>, id: usize)
    requires
        v.wf(),
        v.all_marked(cells, id),
    ensures
        v.stamped(cells, FREE).all_marked(cells, FREE),
        v.stamped(cells, FREE).stamped(cells, id) == v,
{
    let removed = v.stamped(cells, FREE);
    assert forall|i: int| 0 <= i < cells.len() implies removed.contains(#[trigger] cells[i])
        && removed.cells[cells[i]] == FREE by {
        assert(covers(cells, cells.len() as int, cells[i]));
    }
    let back = removed.stamped(cells, id);
    assert forall|c: Cell| #[trigger] back.cells.dom().contains(c) implies back.cells[c]
        == v.cells[c] by {
        if covers(cells, cells.len() as int, c) {
            let k = choose|k: int| 0 <= k < cells.len() && k < cells.len() && cells[k] == c;
            assert(v.cells[cells[k]] == id);
        }
    }
    assert forall|c: Cell| #[trigger] v.cells.dom().contains(c) implies back.cells.dom().contains(
        c,
    ) by {
        assert(v.contains(c));
    }
    assert forall|c: Cell| #[trigger] back.cells.dom().contains(c) implies v.cells.dom().contains(
        c,
    ) by {
        assert(v.contains(c));
    }
    assert(back.cells =~= v.cells);
}

/// A piece may always be placed where it stands: the cells it claims do not
/// block it.
pub proof fn lemma_own_cells_can_place(v: LevelView, cells: Seq<Cell>, id: usize)
    requires
        v.all_marked(cells, id),
    ensures
        v.can_place(cells, id),
{
}

/// Lifting a piece off the cells it holds and setting it down on cells that
/// it may occupy makes it hold exactly the new cells.
pub proof fn lemma_move_keeps_hold(v: LevelView, from: Seq<Cell>, to: Seq<Cell>, id: usize)
    requires
        v.wf(),
        v.holds(from, id),
        v.can_place(to, id),
    ensures
        v.stamped(from, FREE).all_marked(to, FREE),
        v.stamped(from, FREE).stamped(to, id).holds(to, id),
        v.stamped(from, FREE).stamped(to, id).wf(),
{
    let lifted = v.stamped(from, FREE);
    let moved = lifted.stamped(to, id);
    assert forall|i: int| 0 <= i < to.len() implies lifted.contains(#[trigger] to[i])
        && lifted.cells[to[i]] == FREE by {
        let c = to[i];
        assert(v.contains(c));
        if v.cells[c] == id {
            assert(covers(from, from.len() as int, c));
        }
    }
    assert forall|i: int| 0 <= i < to.len() implies moved.contains(#[trigger] to[i])
        && moved.cells[to[i]] == id by {
        assert(covers(to, to.len() as int, to[i]));
    }
    assert forall|c: Cell| moved.contains(c) && #[trigger] moved.cells[c] == id implies covers(
        to,
        to.len() as int,
        c,
    ) by {
        if !covers(to, to.len() as int, c) {
            assert(moved.cells[c] == lifted.cells[c]);
            if covers(from, from.len() as int, c) {
                assert(lifted.cells[c] == FREE);
            } else {
                assert(lifted.cells[c] == v.cells[c]);
            }
        }
    }
}

/// A piece that is set down under a new identifier, on cells that no piece
/// claims, holds exactly those cells, and every piece with an earlier
/// identifier that held its cells before still does.
pub proof fn lemma_new_piece_holds(v: LevelView, cells: Seq<Cell>, other: Seq<Cell>, id: usize)
    requires
        v.wf(),
        v.tidy(),
        v.unclaimed(cells),
        v.index + 1 < UNUSABLE,
    ensures
        (LevelView { index: v.index + 1, ..v }).stamped(cells, (v.index + 1) as usize).wf(),
        (LevelView { index: v.index + 1, ..v }).stamped(cells, (v.index + 1) as usize).tidy(),
        (LevelView { index: v.index + 1, ..v }).stamped(cells, (v.index + 1) as usize).holds(
            cells,
            (v.index + 1) as usize,
        ),
        v.holds(other, id) && id <= v.index ==> (LevelView { index: v.index + 1, ..v }).stamped(
            cells,
            (v.index + 1) as usize,
        ).holds(other, id),
{
    let fresh = (v.index + 1) as usize;
    let after = (LevelView { index: v.index + 1, ..v }).stamped(cells, fresh);
    assert forall|i: int| 0 <= i < cells.len() implies after.contains(#[trigger] cells[i])
        && after.cells[cells[i]] == fresh by {
        assert(covers(cells, cells.len() as int, cells[i]));
    }
    assert forall|c: Cell| after.contains(c) && #[trigger] after.cells[c] == fresh implies covers(
        cells,
        cells.len() as int,
        c,
    ) by {
        if !covers(cells, cells.len() as int, c) {
            assert(after.cells[c] == v.cells[c]);
        }
    }
    assert forall|c: Cell| after.contains(c) implies #[trigger] after.cells[c] == UNUSABLE
        || after.cells[c] <= after.index by {
        if !covers(cells, cells.len() as int, c) {
            assert(after.cells[c] == v.cells[c]);
        }
    }
    if v.holds(other, id) && id <= v.index {
        assert forall|i: int| 0 <= i < other.len() implies after.contains(#[trigger] other[i])
            && after.cells[other[i]] == id by {
            let c = other[i];
            if covers(cells, cells.len() as int, c) {
                let k = choose|k: int| 0 <= k < cells.len() && k < cells.len() && cells[k] == c;
                assert(v.cells[cells[k]] == FREE || v.cells[cells[k]] == UNUSABLE);
            }
        }
        assert forall|c: Cell| after.contains(c) && #[trigger] after.cells[c] == id implies covers(
            other,
            other.len() as int,
            c,
        ) by {
            if !covers(cells, cells.len() as int, c) {
                assert(after.cells[c] == v.cells[c]);
            }
        }
    }
}

/// Making a cell usable changes nothing for the pieces on the level, and
/// keeps the level tidy.
pub proof fn lemma_floor_keeps_hold(v: LevelView, c: Cell, other: Seq<Cell>, id: usize)
    requires
        v.wf(),
    ensures
        v.with_floor(c).wf(),
        v.tidy() ==> v.with_floor(c).tidy(),
        v.holds(other, id) ==> v.with_floor(c).holds(other, id),
{
    let after = v.with_floor(c);
    assert forall|d: Cell| after.cells.dom().contains(d) <==> after.contains(d) by {
        assert(v.cells.dom().contains(d) <==> v.contains(d));
    }
    if v.tidy() {
        assert forall|d: Cell| after.contains(d) implies #[trigger] after.cells[d] == UNUSABLE
            || after.cells[d] <= after.index by {
            assert(v.cells[d] == UNUSABLE || v.cells[d] <= v.index);
        }
    }
    if v.holds(other, id) {
        assert forall|i: int| 0 <= i < other.len() implies after.contains(#[trigger] other[i])
            && after.cells[other[i]] == id by {
            assert(v.cells[other[i]] == id);
        }
        assert forall|d: Cell| after.contains(d) && #[trigger] after.cells[d] == id implies covers(
            other,
            other.len() as int,
            d,
        ) by {
            assert(v.cells[d] == id);
        }
    }
}

/// The centre of a cell lies in that cell.
pub proof fn lemma_grid_round_trip(v: LevelView, c: Cell)
    ensures
        v.to_grid(v.to_world(c)) == c,
{
}

} // verus!
