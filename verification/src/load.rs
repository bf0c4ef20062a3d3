//! Reading the layout of a level: from the characters of a level file to
//! tiles, and from tiles to the occupancy map and the things to show.

use vstd::prelude::*;
use vstd::string::StrSliceExecFns;
use crate::block::{footprint_of, Block};
use crate::cubes::{CubeColor, CubeProcessor, CubeRouter, CubeSpawner};
use crate::geometry::{Cell, Dis2, Rotation};
use crate::level::{lemma_floor_keeps_hold, lemma_new_piece_holds, Level, LevelView, FREE, UNUSABLE};
use crate::objects::{BeltBuilder, BeltPart, BeltShape};
use crate::world::{WorldPos, HALF_UNIT, UNIT};

verus! {

/// A piece that stands on a floor tile when the level starts.
#[derive(Clone, Copy, Debug, PartialEq, Eq, Structural)]
pub enum Object {
    /// No piece.
    Empty,
    /// A straight belt of one cell.
    Belt,
    /// A straight belt of two cells.
    Belt2,
    /// A straight belt of three cells.
    Belt3,
    /// A belt of one cell that turns a quarter turn back.
    BeltR,
    /// A belt of one cell that turns a quarter turn on.
    BeltL,
}

impl Default for Object {
    fn default() -> (o: Self)
        ensures
            o == Object::Empty,
    {
        Object::Empty
    }
}

/// A level as it is written down: one string per row of tiles, and the
/// pieces that the digits in those rows stand for.
#[derive(Debug)]
pub struct LevelFile {
    pub layout: Vec<String>,
    pub objects: Vec<Object>,
}

/// One tile of a level.
///
/// The four lengths of a wall or door say, in world units, how far it sinks
/// out of the way when the camera looks from the north-west, north-east,
/// south-east and south-west.
#[derive(Clone, Copy, Debug, PartialEq, Eq, Structural)]
pub enum Tile {
    /// Nothing at all.
    Empty,
    /// A wall.
    Wall(i128, i128, i128, i128),
    /// Floor, with the piece that starts on it.
    Floor(Object),
    /// Floor on which no piece starts, next to a door.
    Loadingbay,
    /// An input of cubes: how it is turned, and its colour.
    Input(Rotation, CubeColor),
    /// An output of cubes: how it is turned, and its colour.
    Output(Rotation, CubeColor),
    /// A door in a wall: how it is turned, and how far it sinks.
    Door(Rotation, i128, i128, i128, i128),
}

impl Default for Tile {
    fn default() -> (t: Self)
        ensures
            t == Tile::Empty,
    {
        Tile::Empty
    }
}

/// Why a level file cannot be loaded.
#[derive(Clone, Copy, Debug, PartialEq, Eq, Structural)]
pub enum LoadError {
    /// A character that stands for no tile.
    UnknownTile(char),
    /// A digit for which the file lists no piece.
    MissingObject(usize),
    /// The layout has no rows, or a row of another length than the first.
    NotRectangular,
    /// The layout has more tiles or pieces than the machine can number.
    TooLarge,
    /// A floor tile lies beyond the grid.
    OutOfGrid,
    /// A piece reaches beyond the grid or onto a cell that another piece
    /// claims.
    NoRoom,
}

impl Tile {
    /// Pieces can stand here, as a specification.
    pub open spec fn spec_is_floor(&self) -> bool {
        *self is Floor || *self is Loadingbay
    }

    /// Walls sink to clear the view on this tile, as a specification.
    pub open spec fn spec_obstructable(&self) -> bool {
        !(*self is Empty || *self is Door || *self is Wall)
    }

    /// Pieces can stand here: the tile is floor or a loading bay.
    #[verifier::when_used_as_spec(spec_is_floor)]
    pub fn is_floor(&self) -> (b: bool)
        ensures
            b == self.spec_is_floor(),
    {
        match self {
            Tile::Floor(_) => true,
            Tile::Loadingbay => true,
            _ => false,
        }
    }

    /// Something happens on this tile that a wall in front of it would
    /// hide: it is neither empty nor a wall nor a door.
    #[verifier::when_used_as_spec(spec_obstructable)]
    pub fn obstructable(&self) -> (b: bool)
        ensures
            b == self.spec_obstructable(),
    {
        match self {
            Tile::Empty => false,
            Tile::Door(_, _, _, _, _) => false,
            Tile::Wall(_, _, _, _) => false,
            _ => true,
        }
    }

    /// The tile is a loading bay.
    pub fn is_loadingbay(&self) -> (b: bool)
        ensures
            b == (*self is Loadingbay),
    {
        match self {
            Tile::Loadingbay => true,
            _ => false,
        }
    }
}

impl Tile {
    /// The way an input, an output or a door is turned; not at all for every
    /// other tile.
    pub fn rotation(&self) -> (r: Rotation)
        ensures
            r == match *self {
                Tile::Input(rotation, _) => rotation,
                Tile::Output(rotation, _) => rotation,
                Tile::Door(rotation, _, _, _, _) => rotation,
                _ => Rotation::D0,
            },
    {
        match self {
            Tile::Input(rotation, _) => *rotation,
            Tile::Output(rotation, _) => *rotation,
            Tile::Door(rotation, _, _, _, _) => *rotation,
            _ => Rotation::D0,
        }
    }

    /// The input that stands on an input tile: it emits cubes of the colour
    /// of the tile, on the surface above the middle of the tile.
    pub fn spawner(&self) -> (s: Option<CubeSpawner>)
        ensures
            s == match *self {
                Tile::Input(_, color) => Some(
                    CubeSpawner {
                        pos: WorldPos { x: 0, y: 0, z: 0 },
                        delay: SPAWN_DELAY,
                        next: 0,
                        color,
                    },
                ),
                _ => None,
            },
    {
        match self {
            Tile::Input(_, color) => Some(
                CubeSpawner::new(WorldPos { x: 0, y: 0, z: 0 }, SPAWN_DELAY, *color),
            ),
            _ => None,
        }
    }

    /// The output that stands on an output tile: it accepts cubes of the
    /// colour of the tile and has received none.
    pub fn processor(&self) -> (p: Option<CubeProcessor>)
        ensures
            p == match *self {
                Tile::Output(_, color) => Some(CubeProcessor { count: 0, color }),
                _ => None,
            },
    {
        match self {
            Tile::Output(_, color) => Some(CubeProcessor::new(*color)),
            _ => None,
        }
    }

    /// The path of a cube over an input or output tile, relative to the
    /// surface above the middle of the tile before the tile is turned: on an
    /// input from the middle half a cell along +x, on an output to the middle
    /// from half a cell along -x.
    pub fn router(&self) -> (r: Option<CubeRouter>)
        ensures
            r is Some <==> *self is Input || *self is Output,
            r matches Some(router) ==> router.wf() && router.0@ == if *self is Input {
                seq![level_point(0, 0), level_point(HALF_UNIT as int, 0)]
            } else {
                seq![level_point(-HALF_UNIT, 0), level_point(0, 0)]
            },
    {
        match self {
            Tile::Input(_, _) => {
                let mut path: Vec<WorldPos> = Vec::new();
                path.push(WorldPos { x: 0, y: 0, z: 0 });
                path.push(WorldPos { x: HALF_UNIT, y: 0, z: 0 });
                Some(CubeRouter(path))
            },
            Tile::Output(_, _) => {
                let mut path: Vec<WorldPos> = Vec::new();
                path.push(WorldPos { x: -HALF_UNIT, y: 0, z: 0 });
                path.push(WorldPos { x: 0, y: 0, z: 0 });
                Some(CubeRouter(path))
            },
            _ => None,
        }
    }
}

/// The number that a decimal digit stands for.
pub open spec fn digit_of(c: char) -> Option<int> {
    if c == '0' {
        Some(0)
    } else if c == '1' {
        Some(1)
    } else if c == '2' {
        Some(2)
    } else if c == '3' {
        Some(3)
    } else if c == '4' {
        Some(4)
    } else if c == '5' {
        Some(5)
    } else if c == '6' {
        Some(6)
    } else if c == '7' {
        Some(7)
    } else if c == '8' {
        Some(8)
    } else if c == '9' {
        Some(9)
    } else {
        None
    }
}

/// The tile that a character of a level file stands for.
///
/// A blank is bare floor, `E` nothing, `L` a loading bay and `#` a wall. `I`,
/// `i`, `N` and `n` are inputs and `O`, `o`, `U` and `u` outputs, green,
/// purple, yellow and black in that order. A digit is floor with the piece
/// that `objects` lists at that index.
pub open spec fn tile_of(c: char, objects: Seq<Object>) -> Result<Tile, LoadError> {
    if c == ' ' {
        Ok(Tile::Floor(Object::Empty))
    } else if c == 'E' {
        Ok(Tile::Empty)
    } else if c == 'L' {
        Ok(Tile::Loadingbay)
    } else if c == 'I' {
        Ok(Tile::Input(Rotation::D0, CubeColor::Green))
    } else if c == 'O' {
        Ok(Tile::Output(Rotation::D0, CubeColor::Green))
    } else if c == 'i' {
        Ok(Tile::Input(Rotation::D0, CubeColor::Purple))
    } else if c == 'o' {
        Ok(Tile::Output(Rotation::D0, CubeColor::Purple))
    } else if c == 'N' {
        Ok(Tile::Input(Rotation::D0, CubeColor::Yellow))
    } else if c == 'U' {
        Ok(Tile::Output(Rotation::D0, CubeColor::Yellow))
    } else if c == 'n' {
        Ok(Tile::Input(Rotation::D0, CubeColor::Black))
    } else if c == 'u' {
        Ok(Tile::Output(Rotation::D0, CubeColor::Black))
    } else if c == '#' {
        Ok(Tile::Wall(0, 0, 0, 0))
    } else {
        match digit_of(c) {
            Some(d) => if d < objects.len() {
                Ok(Tile::Floor(objects[d]))
            } else {
                Err(LoadError::MissingObject(d as usize))
            },
            None => Err(LoadError::UnknownTile(c)),
        }
    }
}

/// The piece that the digit `d` stands for.
fn object_at(d: usize, objects: &Vec<Object>) -> (tile: Result<Tile, LoadError>)
    ensures
        tile == if d < objects@.len() {
            Ok::<Tile, LoadError>(Tile::Floor(objects@[d as int]))
        } else {
            Err::<Tile, LoadError>(LoadError::MissingObject(d))
        },
{
    if d < objects.len() {
        Ok(Tile::Floor(objects[d]))
    } else {
        Err(LoadError::MissingObject(d))
    }
}

/// The tile that the character `c` of a level file stands for.
pub fn parse_tile(c: char, objects: &Vec<Object>) -> (tile: Result<Tile, LoadError>)
    ensures
        tile == tile_of(c, objects@),
{
    if c == ' ' {
        Ok(Tile::Floor(Object::Empty))
    } else if c == 'E' {
        Ok(Tile::Empty)
    } else if c == 'L' {
        Ok(Tile::Loadingbay)
    } else if c == 'I' {
        Ok(Tile::Input(Rotation::D0, CubeColor::Green))
    } else if c == 'O' {
        Ok(Tile::Output(Rotation::D0, CubeColor::Green))
    } else if c == 'i' {
        Ok(Tile::Input(Rotation::D0, CubeColor::Purple))
    } else if c == 'o' {
        Ok(Tile::Output(Rotation::D0, CubeColor::Purple))
    } else if c == 'N' {
        Ok(Tile::Input(Rotation::D0, CubeColor::Yellow))
    } else if c == 'U' {
        Ok(Tile::Output(Rotation::D0, CubeColor::Yellow))
    } else if c == 'n' {
        Ok(Tile::Input(Rotation::D0, CubeColor::Black))
    } else if c == 'u' {
        Ok(Tile::Output(Rotation::D0, CubeColor::Black))
    } else if c == '#' {
        Ok(Tile::Wall(0, 0, 0, 0))
    } else if c == '0' {
        object_at(0, objects)
    } else if c == '1' {
        object_at(1, objects)
    } else if c == '2' {
        object_at(2, objects)
    } else if c == '3' {
        object_at(3, objects)
    } else if c == '4' {
        object_at(4, objects)
    } else if c == '5' {
        object_at(5, objects)
    } else if c == '6' {
        object_at(6, objects)
    } else if c == '7' {
        object_at(7, objects)
    } else if c == '8' {
        object_at(8, objects)
    } else if c == '9' {
        object_at(9, objects)
    } else {
        Err(LoadError::UnknownTile(c))
    }
}

/// The error of the first character, at or after index `from`, that stands
/// for no tile; `None` if every character stands for one.
pub open spec fn row_error_from(chars: Seq<char>, objects: Seq<Object>, from: int) -> Option<
    LoadError,
>
    decreases chars.len() - from,
{
    if from < 0 || from >= chars.len() {
        None
    } else {
        match tile_of(chars[from], objects) {
            Err(e) => Some(e),
            Ok(_) => row_error_from(chars, objects, from + 1),
        }
    }
}

/// The error of the first row, at or after index `from`, that holds a
/// character that stands for no tile.
pub open spec fn layout_error_from(rows: Seq<String>, objects: Seq<Object>, from: int) -> Option<
    LoadError,
>
    decreases rows.len() - from,
{
    if from < 0 || from >= rows.len() {
        None
    } else {
        match row_error_from(rows[from]@, objects, 0) {
            Some(e) => Some(e),
            None => layout_error_from(rows, objects, from + 1),
        }
    }
}

/// `tiles` are the tiles that the characters `chars` stand for.
pub open spec fn row_parsed(chars: Seq<char>, objects: Seq<Object>, tiles: Seq<Tile>) -> bool {
    &&& tiles.len() == chars.len()
    &&& forall|j: int|
        0 <= j < chars.len() ==> tile_of(#[trigger] chars[j], objects) == Ok::<Tile, LoadError>(
            tiles[j],
        )
}

/// The tiles of one row of a level file, or the error of its first
/// character that stands for no tile.
pub fn parse_row(row: &str, objects: &Vec<Object>) -> (out: Result<Vec<Tile>, LoadError>)
    ensures
        match out {
            Ok(tiles) => row_error_from(row@, objects@, 0) is None && row_parsed(
                row@,
                objects@,
                tiles@,
            ),
            Err(e) => row_error_from(row@, objects@, 0) == Some(e),
        },
{
    let n = row.unicode_len();
    let mut tiles: Vec<Tile> = Vec::new();
    let mut j: usize = 0;
    while j < n
        invariant
            n == row@.len(),
            j <= n,
            tiles@.len() == j,
            row_error_from(row@, objects@, 0) == row_error_from(row@, objects@, j as int),
            forall|k: int|
                0 <= k < j ==> tile_of(#[trigger] row@[k], objects@) == Ok::<Tile, LoadError>(
                    tiles@[k],
                ),
        decreases n - j,
    {
        match parse_tile(row.get_char(j), objects) {
            Ok(tile) => {
                tiles.push(tile);
            },
            Err(e) => {
                return Err(e);
            },
        }
        j += 1;
    }
    Ok(tiles)
}

/// The tiles of a level file, row by row, or the error of the first
/// character, in reading order, that stands for no tile.
pub fn level_parse(level: &LevelFile) -> (out: Result<Vec<Vec<Tile>>, LoadError>)
    ensures
        match out {
            Ok(layout) => {
                &&& layout_error_from(level.layout@, level.objects@, 0) is None
                &&& layout@.len() == level.layout@.len()
                &&& forall|i: int|
                    0 <= i < layout@.len() ==> row_parsed(
                        level.layout@[i]@,
                        level.objects@,
                        (#[trigger] layout@[i])@,
                    )
            },
            Err(e) => layout_error_from(level.layout@, level.objects@, 0) == Some(e),
        },
{
    let mut layout: Vec<Vec<Tile>> = Vec::new();
    let mut i: usize = 0;
    while i < level.layout.len()
        invariant
            i <= level.layout@.len(),
            layout@.len() == i,
            layout_error_from(level.layout@, level.objects@, 0) == layout_error_from(
                level.layout@,
                level.objects@,
                i as int,
            ),
            forall|k: int|
                0 <= k < i ==> row_parsed(
                    level.layout@[k]@,
                    level.objects@,
                    (#[trigger] layout@[k])@,
                ),
        decreases level.layout@.len() - i,
    {
        match parse_row(level.layout[i].as_str(), &level.objects) {
            Ok(tiles) => {
                layout.push(tiles);
            },
            Err(e) => {
                return Err(e);
            },
        }
        i += 1;
    }
    Ok(layout)
}

/// The tile in row `i` and column `j`, and nothing where the layout has no
/// such tile.
pub open spec fn tile_at(layout: Seq<Vec<Tile>>, i: int, j: int) -> Tile {
    if 0 <= i < layout.len() && 0 <= j < layout[i]@.len() {
        layout[i]@[j]
    } else {
        Tile::Empty
    }
}

/// How far a wall in row `i` and column `j` sinks when the camera looks
/// along the diagonal (`di`, `dj`): two cells if something happens on the
/// next tile along the diagonal, one cell if on the tile after that, else not
/// at all.
pub open spec fn sunk(layout: Seq<Vec<Tile>>, i: int, j: int, di: int, dj: int) -> i128 {
    if tile_at(layout, i + di, j + dj).obstructable() {
        (-2 * UNIT) as i128
    } else if tile_at(layout, i + 2 * di, j + 2 * dj).obstructable() {
        (-UNIT) as i128
    } else {
        0
    }
}

/// The way an input or output in row `i` and column `j` is turned: toward
/// the floor beside it, looked for after, before and above it in that order;
/// as it was if there is floor on none of those sides.
pub open spec fn port_rotation(layout: Seq<Vec<Tile>>, i: int, j: int, rotation: Rotation) -> Rotation {
    if tile_at(layout, i, j + 1).is_floor() {
        Rotation::D90
    } else if tile_at(layout, i - 1, j).is_floor() {
        Rotation::D180
    } else if tile_at(layout, i, j - 1).is_floor() {
        Rotation::D270
    } else {
        rotation
    }
}

/// The tile in row `i` and column `j` once it knows its neighbours.
///
/// A wall learns how far it sinks at each corner, and becomes a door if a
/// loading bay lies beside it, turned toward the bay. An input or output turns
/// toward the floor beside it. Every other tile stays as it is.
pub open spec fn surrounded(layout: Seq<Vec<Tile>>, i: int, j: int) -> Tile {
    match tile_at(layout, i, j) {
        Tile::Wall(_, _, _, _) => {
            let nw = sunk(layout, i, j, -1, -1);
            let ne = sunk(layout, i, j, -1, 1);
            let se = sunk(layout, i, j, 1, 1);
            let sw = sunk(layout, i, j, 1, -1);
            if tile_at(layout, i, j + 1) is Loadingbay {
                Tile::Door(Rotation::D270, nw, ne, se, sw)
            } else if tile_at(layout, i + 1, j) is Loadingbay {
                Tile::Door(Rotation::D0, nw, ne, se, sw)
            } else if tile_at(layout, i, j - 1) is Loadingbay {
                Tile::Door(Rotation::D90, nw, ne, se, sw)
            } else if tile_at(layout, i - 1, j) is Loadingbay {
                Tile::Door(Rotation::D180, nw, ne, se, sw)
            } else {
                Tile::Wall(nw, ne, se, sw)
            }
        },
        Tile::Input(rotation, color) => Tile::Input(port_rotation(layout, i, j, rotation), color),
        Tile::Output(rotation, color) => Tile::Output(port_rotation(layout, i, j, rotation), color),
        other => other,
    }
}

/// The tile `di` rows and `dj` columns from row `i` and column `j`.
fn neighbour(layout: &Vec<Vec<Tile>>, i: usize, di: i8, j: usize, dj: i8) -> (tile: Tile)
    ensures
        tile == tile_at(layout@, i + di, j + dj),
{
    let row: i128 = i as i128 + di as i128;
    let column: i128 = j as i128 + dj as i128;
    if row < 0 || column < 0 || row >= layout.len() as i128 {
        return Tile::Empty;
    }
    let tiles = &layout[row as usize];
    if column >= tiles.len() as i128 {
        Tile::Empty
    } else {
        tiles[column as usize]
    }
}

/// How far a wall in row `i` and column `j` sinks along one diagonal.
fn sink(layout: &Vec<Vec<Tile>>, i: usize, j: usize, di: i8, dj: i8) -> (depth: i128)
    requires
        -1 <= di <= 1,
        -1 <= dj <= 1,
    ensures
        depth == sunk(layout@, i as int, j as int, di as int, dj as int),
{
    if neighbour(layout, i, di, j, dj).obstructable() {
        -2 * UNIT
    } else if neighbour(layout, i, 2 * di, j, 2 * dj).obstructable() {
        -UNIT
    } else {
        0
    }
}

/// The way an input or output in row `i` and column `j` is turned.
fn turn_port(layout: &Vec<Vec<Tile>>, i: usize, j: usize, rotation: Rotation) -> (r: Rotation)
    ensures
        r == port_rotation(layout@, i as int, j as int, rotation),
{
    if neighbour(layout, i, 0, j, 1).is_floor() {
        Rotation::D90
    } else if neighbour(layout, i, -1, j, 0).is_floor() {
        Rotation::D180
    } else if neighbour(layout, i, 0, j, -1).is_floor() {
        Rotation::D270
    } else {
        rotation
    }
}

/// The tile in row `i` and column `j` once it knows its neighbours.
pub fn surround_tile(layout: &Vec<Vec<Tile>>, i: usize, j: usize) -> (tile: Tile)
    ensures
        tile == surrounded(layout@, i as int, j as int),
{
    match neighbour(layout, i, 0, j, 0) {
        Tile::Wall(_, _, _, _) => {
            let nw = sink(layout, i, j, -1, -1);
            let ne = sink(layout, i, j, -1, 1);
            let se = sink(layout, i, j, 1, 1);
            let sw = sink(layout, i, j, 1, -1);
            if neighbour(layout, i, 0, j, 1).is_loadingbay() {
                Tile::Door(Rotation::D270, nw, ne, se, sw)
            } else if neighbour(layout, i, 1, j, 0).is_loadingbay() {
                Tile::Door(Rotation::D0, nw, ne, se, sw)
            } else if neighbour(layout, i, 0, j, -1).is_loadingbay() {
                Tile::Door(Rotation::D90, nw, ne, se, sw)
            } else if neighbour(layout, i, -1, j, 0).is_loadingbay() {
                Tile::Door(Rotation::D180, nw, ne, se, sw)
            } else {
                Tile::Wall(nw, ne, se, sw)
            }
        },
        Tile::Input(rotation, color) => Tile::Input(turn_port(layout, i, j, rotation), color),
        Tile::Output(rotation, color) => Tile::Output(turn_port(layout, i, j, rotation), color),
        other => other,
    }
}

/// Lets every tile of the layout know its neighbours: each tile becomes what
/// [`surrounded`] says of it in the layout as it was.
pub fn level_surround(layout: &mut Vec<Vec<Tile>>)
    ensures
        final(layout)@.len() == old(layout)@.len(),
        forall|i: int|
            0 <= i < old(layout)@.len() ==> (#[trigger] final(layout)@[i])@.len() == old(
                layout,
            )@[i]@.len(),
        forall|i: int, j: int|
            0 <= i < old(layout)@.len() && 0 <= j < old(layout)@[i]@.len() ==> (
            #[trigger] final(layout)@[i]@[j]) == surrounded(old(layout)@, i, j),
{
    let mut result: Vec<Vec<Tile>> = Vec::new();
    let mut i: usize = 0;
    while i < layout.len()
        invariant
            *layout == *old(layout),
            i <= layout@.len(),
            result@.len() == i,
            forall|k: int| 0 <= k < i ==> (#[trigger] result@[k])@.len() == layout@[k]@.len(),
            forall|k: int, j: int|
                0 <= k < i && 0 <= j < layout@[k]@.len() ==> (#[trigger] result@[k]@[j])
                    == surrounded(layout@, k, j),
        decreases layout@.len() - i,
    {
        let mut row: Vec<Tile> = Vec::new();
        let mut j: usize = 0;
        while j < layout[i].len()
            invariant
                i < layout@.len(),
                j <= layout@[i as int]@.len(),
                row@.len() == j,
                forall|k: int| 0 <= k < j ==> (#[trigger] row@[k]) == surrounded(layout@, i as int, k),
            decreases layout@[i as int]@.len() - j,
        {
            row.push(surround_tile(layout, i, j));
            j += 1;
        }
        result.push(row);
        i += 1;
    }
    *layout = result;
}

/// Milliseconds between two cubes of an input.
pub const SPAWN_DELAY: u64 = 2000;

/// A piece that stands on the level when it starts: the piece itself, the
/// path of a cube over it relative to the surface above its anchor, and how
/// its cells are to be shown.
#[derive(Debug)]
pub struct Piece {
    pub block: Block,
    pub router: CubeRouter,
    pub parts: Vec<BeltPart>,
}

/// The grid offset (`x`, `z`).
pub open spec fn offset(x: int, z: int) -> Dis2 {
    Dis2 { x: x as isize, z: z as isize }
}

/// The point (`x`, 0, `z`), in world units.
pub open spec fn level_point(x: int, z: int) -> WorldPos {
    WorldPos { x: x as i128, y: 0, z: z as i128 }
}

/// How one cell of a belt at (`x`, 0, `z`) is shown when the belt has not
/// turned before it.
pub open spec fn plain_part(shape: BeltShape, x: int, z: int) -> BeltPart {
    BeltPart { shape, pos: level_point(x, z), degrees: 0 }
}

/// The cells of the piece `object`, relative to its anchor: a belt of several
/// cells runs from its anchor along +z.
pub open spec fn object_tiles(object: Object) -> Seq<Dis2> {
    match object {
        Object::Empty => seq![],
        Object::Belt => seq![offset(0, 0)],
        Object::Belt2 => seq![offset(0, 0), offset(0, 1)],
        Object::Belt3 => seq![offset(0, 0), offset(0, 1), offset(0, 2)],
        Object::BeltR => seq![offset(0, 0)],
        Object::BeltL => seq![offset(0, 0)],
    }
}

/// The path of a cube over the piece `object`, relative to the surface above
/// its anchor.
///
/// A belt of one cell carries its cubes along -x. A belt that turns takes
/// them in at its +z edge and hands them on at its +x edge if it turns back,
/// at its -x edge if it turns on. A belt of several cells carries them along
/// -z, from the far edge of its last cell to the near edge of its anchor.
pub open spec fn object_route(object: Object) -> Seq<WorldPos> {
    match object {
        Object::Empty => seq![],
        Object::Belt => seq![level_point(500, 0), level_point(-500, 0)],
        Object::Belt2 => seq![level_point(0, 1500), level_point(0, 500), level_point(0, -500)],
        Object::Belt3 => seq![
            level_point(0, 2500),
            level_point(0, 1500),
            level_point(0, 500),
            level_point(0, -500),
        ],
        Object::BeltR => seq![level_point(0, 500), level_point(0, 0), level_point(500, 0)],
        Object::BeltL => seq![level_point(0, 500), level_point(0, 0), level_point(-500, 0)],
    }
}

/// How the cells of the piece `object` are to be shown: one model per cell,
/// on the cell, not turned.
pub open spec fn object_parts(object: Object) -> Seq<BeltPart> {
    match object {
        Object::Empty => seq![],
        Object::Belt => seq![plain_part(BeltShape::Straight, 0, 0)],
        Object::Belt2 => seq![
            plain_part(BeltShape::Straight, 0, 0),
            plain_part(BeltShape::Straight, 0, 1000),
        ],
        Object::Belt3 => seq![
            plain_part(BeltShape::Straight, 0, 0),
            plain_part(BeltShape::Straight, 0, 1000),
            plain_part(BeltShape::Straight, 0, 2000),
        ],
        Object::BeltR => seq![plain_part(BeltShape::Right, 0, 0)],
        Object::BeltL => seq![plain_part(BeltShape::Left, 0, 0)],
    }
}

/// A belt before it is put on a level: its cells relative to its anchor, the
/// path of a cube over it relative to the surface above its anchor, and how
/// its cells are to be shown.
#[derive(Debug)]
pub struct Belt {
    pub tiles: Vec<Dis2>,
    pub route: Vec<WorldPos>,
    pub parts: Vec<BeltPart>,
}

/// One cell of a belt, shown on the cell (0, `z`) and not turned.
fn part_at(shape: BeltShape, z: i128) -> (part: BeltPart)
    ensures
        part == plain_part(shape, 0, z as int),
{
    BeltPart { shape, pos: WorldPos { x: 0, y: 0, z }, degrees: 0 }
}

/// A straight belt of `cells` cells, one to three, along +z from its anchor.
fn straight_belt(cells: usize) -> (belt: Belt)
    requires
        2 <= cells <= 3,
    ensures
        belt.tiles@ == object_tiles(if cells == 2 { Object::Belt2 } else { Object::Belt3 }),
        belt.route@ == object_route(if cells == 2 { Object::Belt2 } else { Object::Belt3 }),
        belt.parts@ == object_parts(if cells == 2 { Object::Belt2 } else { Object::Belt3 }),
{
    let mut tiles: Vec<Dis2> = Vec::new();
    let mut route: Vec<WorldPos> = Vec::new();
    let mut parts: Vec<BeltPart> = Vec::new();
    if cells == 3 {
        route.push(WorldPos { x: 0, y: 0, z: 2 * UNIT + HALF_UNIT });
    }
    route.push(WorldPos { x: 0, y: 0, z: UNIT + HALF_UNIT });
    route.push(WorldPos { x: 0, y: 0, z: HALF_UNIT });
    route.push(WorldPos { x: 0, y: 0, z: -HALF_UNIT });
    tiles.push(Dis2 { x: 0, z: 0 });
    tiles.push(Dis2 { x: 0, z: 1 });
    parts.push(part_at(BeltShape::Straight, 0));
    parts.push(part_at(BeltShape::Straight, UNIT));
    if cells == 3 {
        tiles.push(Dis2 { x: 0, z: 2 });
        parts.push(part_at(BeltShape::Straight, 2 * UNIT));
    }
    let belt = Belt { tiles, route, parts };
    assert(belt.tiles@ =~= object_tiles(if cells == 2 { Object::Belt2 } else { Object::Belt3 }));
    assert(belt.route@ =~= object_route(if cells == 2 { Object::Belt2 } else { Object::Belt3 }));
    assert(belt.parts@ =~= object_parts(if cells == 2 { Object::Belt2 } else { Object::Belt3 }));
    belt
}

/// A straight belt of one cell with the path `from` to `to`.
fn single_belt(from: WorldPos, to: WorldPos) -> (belt: Belt)
    ensures
        belt.tiles@ == seq![offset(0, 0)],
        belt.parts@ == seq![plain_part(BeltShape::Straight, 0, 0)],
        belt.route@ == seq![from, to],
{
    let mut tiles: Vec<Dis2> = Vec::new();
    let mut route: Vec<WorldPos> = Vec::new();
    let mut parts: Vec<BeltPart> = Vec::new();
    tiles.push(Dis2 { x: 0, z: 0 });
    parts.push(part_at(BeltShape::Straight, 0));
    route.push(from);
    route.push(to);
    let belt = Belt { tiles, route, parts };
    assert(belt.tiles@ =~= seq![offset(0, 0)]);
    assert(belt.parts@ =~= seq![plain_part(BeltShape::Straight, 0, 0)]);
    assert(belt.route@ =~= seq![from, to]);
    belt
}

/// The belt of one cell that a builder has laid with a single turn.
fn turned_belt(laid: BeltBuilder) -> (belt: Belt)
    ensures
        belt.tiles == laid.tiles,
        belt.route == laid.route,
        belt.parts == laid.parts,
{
    Belt { tiles: laid.tiles, route: laid.route, parts: laid.parts }
}

/// The belt that the piece `object` is; none for no piece. A belt that
/// turns is the belt that a builder lays with that one turn.
pub fn belt_of(object: Object) -> (belt: Option<Belt>)
    ensures
        belt is Some <==> object != Object::Empty,
        belt matches Some(b) ==> {
            &&& b.tiles@ == object_tiles(object)
            &&& b.route@ == object_route(object)
            &&& b.parts@ == object_parts(object)
        },
{
    let east = WorldPos { x: HALF_UNIT, y: 0, z: 0 };
    let west = WorldPos { x: -HALF_UNIT, y: 0, z: 0 };
    let belt = match object {
        Object::Empty => {
            return None;
        },
        Object::Belt => single_belt(east, west),
        Object::Belt2 => straight_belt(2),
        Object::Belt3 => straight_belt(3),
        Object::BeltR => turned_belt(BeltBuilder::new().right()),
        Object::BeltL => turned_belt(BeltBuilder::new().left()),
    };
    assert(belt.tiles@ =~= object_tiles(object));
    assert(belt.route@ =~= object_route(object));
    assert(belt.parts@ =~= object_parts(object));
    Some(belt)
}

/// `piece` is the piece `object` as it stands when a level starts.
pub open spec fn is_piece(piece: Piece, object: Object) -> bool {
    &&& object != Object::Empty
    &&& piece.block.rotation == Rotation::D0
    &&& piece.block.tiles@ == object_tiles(object)
    &&& piece.router.0@ == object_route(object)
    &&& piece.parts@ == object_parts(object)
}

/// What a tile on the cell `c` does to the occupancy map when a level is
/// built.
///
/// Floor and loading bays make their cell usable. A piece on a floor tile
/// gets the next identifier and claims its cells, which must lie on the grid
/// and be claimed by no other piece. Every other tile leaves the map alone.
pub open spec fn tile_effect(v: LevelView, tile: Tile, c: Cell) -> Result<LevelView, LoadError> {
    match tile {
        Tile::Floor(object) => {
            let cells = footprint_of(object_tiles(object), c, Rotation::D0);
            if !v.contains(c) {
                Err(LoadError::OutOfGrid)
            } else if object == Object::Empty {
                Ok(v.with_floor(c))
            } else if v.index + 1 >= UNUSABLE {
                Err(LoadError::TooLarge)
            } else if !v.unclaimed(cells) {
                Err(LoadError::NoRoom)
            } else {
                Ok(
                    (LevelView { index: v.index + 1, ..v.with_floor(c) }).stamped(
                        cells,
                        (v.index + 1) as usize,
                    ),
                )
            }
        },
        Tile::Loadingbay => if v.contains(c) {
            Ok(v.with_floor(c))
        } else {
            Err(LoadError::OutOfGrid)
        },
        _ => Ok(v),
    }
}

/// Builds what the tile `tile` on the cell `cell` adds to a level, and
/// returns the piece that starts on it, if one does. On an error the level is
/// as it was.
pub fn spawn_tile(level: &mut Level, tile: Tile, cell: Dis2) -> (out: Result<
    Option<Piece>,
    LoadError,
>)
    requires
        old(level).wf(),
        old(level)@.tidy(),
    ensures
        final(level).wf(),
        final(level)@.tidy(),
        forall|other: Seq<Cell>, id: usize|
            old(level)@.holds(other, id) && id <= old(level)@.index
                ==> #[trigger] final(level)@.holds(other, id),
        match tile_effect(old(level)@, tile, cell@) {
            Ok(v) => {
                &&& final(level)@ == v
                &&& out matches Ok(spawned)
                &&& match spawned {
                    Some(piece) => {
                        &&& tile matches Tile::Floor(object)
                        &&& is_piece(piece, object)
                        &&& piece.block.index == old(level)@.index + 1
                        &&& piece.block.position == cell
                        &&& final(level)@.holds(piece.block.footprint(), piece.block.index)
                    },
                    None => !(tile matches Tile::Floor(object) && object != Object::Empty),
                }
            },
            Err(e) => out == Err::<Option<Piece>, LoadError>(e) && final(level)@ == old(level)@,
        },
{
    let object = match tile {
        Tile::Floor(object) => object,
        Tile::Loadingbay => Object::Empty,
        _ => {
            return Ok(None);
        },
    };
    if level.getd(cell).is_none() {
        return Err(LoadError::OutOfGrid);
    }
    let ghost before = level@;
    let ghost floored = before.with_floor(cell@);
    proof {
        assert forall|other: Seq<Cell>, id: usize| before.holds(other, id) implies floored.holds(
            other,
            id,
        ) by {
            lemma_floor_keeps_hold(before, cell@, other, id);
        }
        lemma_floor_keeps_hold(before, cell@, seq![], 0);
    }
    let belt = match belt_of(object) {
        None => {
            level.set_floor(cell.x as usize, cell.z as usize);
            return Ok(None);
        },
        Some(belt) => belt,
    };
    if level.last_index() >= usize::MAX - 1 {
        return Err(LoadError::TooLarge);
    }
    if !level.is_unclaimed(&belt.tiles, cell, Rotation::D0) {
        return Err(LoadError::NoRoom);
    }
    level.set_floor(cell.x as usize, cell.z as usize);
    let ghost cells = footprint_of(object_tiles(object), cell@, Rotation::D0);
    proof {
        assert forall|i: int| 0 <= i < cells.len() implies floored.contains(#[trigger] cells[i])
            && (floored.cells[cells[i]] == FREE || floored.cells[cells[i]]
            == UNUSABLE) by {
            assert(before.contains(cells[i]));
        }
        assert forall|other: Seq<Cell>, id: usize|
            before.holds(other, id) && id <= before.index implies (LevelView {
            index: floored.index + 1,
            ..floored
        }).stamped(cells, (floored.index + 1) as usize).holds(other, id) by {
            lemma_new_piece_holds(floored, cells, other, id);
        }
        lemma_new_piece_holds(floored, cells, seq![], 0);
    }
    let index = level.next_index();
    let block = Block { index, tiles: belt.tiles, rotation: Rotation::D0, position: cell };
    level.place_unchecked(&block);
    Ok(Some(Piece { block, router: CubeRouter(belt.route), parts: belt.parts }))
}

/// The occupancy map after the first `n` tiles of row `i`, starting from
/// `v`; the error of the first of them that cannot be built.
pub open spec fn row_effect(v: LevelView, row: Seq<Tile>, i: int, n: int) -> Result<
    LevelView,
    LoadError,
>
    decreases n,
{
    if n <= 0 {
        Ok(v)
    } else {
        match row_effect(v, row, i, n - 1) {
            Err(e) => Err(e),
            Ok(u) => tile_effect(u, row[n - 1], Cell { x: i, z: n - 1 }),
        }
    }
}

/// The occupancy map after the first `n` rows of the layout, starting from
/// `v`; the error of the first tile, in reading order, that cannot be built.
pub open spec fn layout_effect(v: LevelView, layout: Seq<Vec<Tile>>, n: int) -> Result<
    LevelView,
    LoadError,
>
    decreases n,
{
    if n <= 0 {
        Ok(v)
    } else {
        match layout_effect(v, layout, n - 1) {
            Err(e) => Err(e),
            Ok(u) => row_effect(u, layout[n - 1]@, n - 1, layout[n - 1]@.len() as int),
        }
    }
}

/// Every row of the layout is as long as the first.
pub open spec fn is_rectangular(layout: Seq<Vec<Tile>>) -> bool {
    layout.len() > 0 && forall|i: int|
        0 <= i < layout.len() ==> (#[trigger] layout[i])@.len() == layout[0]@.len()
}

/// The occupancy map of the level that a layout describes, with one column
/// per row of the layout and one row per tile of its rows; or why there is
/// none.
pub open spec fn spawn_plan(layout: Seq<Vec<Tile>>) -> Result<LevelView, LoadError> {
    if !is_rectangular(layout) {
        Err(LoadError::NotRectangular)
    } else if layout.len() > isize::MAX || layout[0]@.len() > isize::MAX || layout.len()
        * layout[0]@.len() > usize::MAX {
        Err(LoadError::TooLarge)
    } else {
        layout_effect(LevelView::blank(layout.len(), layout[0]@.len()), layout, layout.len() as int)
    }
}

/// `pieces` are the pieces that start on the level `v` built from `layout`:
/// numbered from 1 in the order of the list, each on a floor tile that names
/// it, and each holding exactly its cells.
pub open spec fn pieces_placed(layout: Seq<Vec<Tile>>, v: LevelView, pieces: Seq<Piece>) -> bool {
    &&& pieces.len() == v.index
    &&& forall|k: int|
        0 <= k < pieces.len() ==> {
            let piece = #[trigger] pieces[k];
            &&& piece.block.index == k + 1
            &&& v.holds(piece.block.footprint(), piece.block.index)
            &&& tile_at(layout, piece.block.position@.x, piece.block.position@.z) matches Tile::Floor(
                object,
            )
            &&& is_piece(piece, object)
        }
}

/// Whether every row of the layout is as long as the first.
fn check_rectangular(layout: &Vec<Vec<Tile>>) -> (ok: bool)
    ensures
        ok == is_rectangular(layout@),
{
    if layout.len() == 0 {
        return false;
    }
    let mut i: usize = 0;
    while i < layout.len()
        invariant
            layout@.len() > 0,
            i <= layout@.len(),
            forall|k: int| 0 <= k < i ==> (#[trigger] layout@[k])@.len() == layout@[0]@.len(),
        decreases layout@.len() - i,
    {
        if layout[i].len() != layout[0].len() {
            return false;
        }
        i += 1;
    }
    true
}

/// Builds the level that a layout describes: its occupancy map and the
/// pieces that start on it.
///
/// Row `i` of the layout is column `i` of the grid, and tile `j` of a row lies
/// in row `j` of the grid. The first tile, in reading order, that cannot be
/// built gives the error.
pub fn level_spawn(layout: &Vec<Vec<Tile>>) -> (out: Result<(Level, Vec<Piece>), LoadError>)
    ensures
        match spawn_plan(layout@) {
            Ok(v) => {
                &&& out matches Ok(built)
                &&& built.0.wf()
                &&& built.0@ == v
                &&& pieces_placed(layout@, v, built.1@)
            },
            Err(e) => out matches Err(why) && why == e,
        },
{
    if !check_rectangular(layout) {
        return Err(LoadError::NotRectangular);
    }
    let width = layout.len();
    let height = layout[0].len();
    if width > isize::MAX as usize || height > isize::MAX as usize {
        return Err(LoadError::TooLarge);
    }
    if width.checked_mul(height).is_none() {
        return Err(LoadError::TooLarge);
    }
    let mut level = Level::new(width, height);
    let mut pieces: Vec<Piece> = Vec::new();
    let ghost blank = LevelView::blank(width as nat, height as nat);
    let mut i: usize = 0;
    while i < width
        invariant
            is_rectangular(layout@),
            width == layout@.len(),
            height == layout@[0]@.len(),
            width <= isize::MAX,
            height <= isize::MAX,
            width * height <= usize::MAX,
            i <= width,
            level.wf(),
            level@.tidy(),
            blank == LevelView::blank(width as nat, height as nat),
            layout_effect(blank, layout@, i as int) == Ok::<LevelView, LoadError>(level@),
            pieces_placed(layout@, level@, pieces@),
        decreases width - i,
    {
        let row = &layout[i];
        let ghost start = level@;
        let mut j: usize = 0;
        while j < height
            invariant
                is_rectangular(layout@),
                width == layout@.len(),
                height == layout@[0]@.len(),
                width <= isize::MAX,
                height <= isize::MAX,
                width * height <= usize::MAX,
                blank == LevelView::blank(width as nat, height as nat),
                i < width,
                j <= height,
                *row == layout@[i as int],
                row@.len() == height,
                level.wf(),
                level@.tidy(),
                layout_effect(blank, layout@, i as int) == Ok::<LevelView, LoadError>(start),
                row_effect(start, row@, i as int, j as int) == Ok::<LevelView, LoadError>(level@),
                pieces_placed(layout@, level@, pieces@),
            decreases height - j,
        {
            let ghost before = level@;
            let ghost earlier = pieces@;
            let cell = Dis2 { x: i as isize, z: j as isize };
            match spawn_tile(&mut level, row[j], cell) {
                Err(e) => {
                    proof {
                        assert(row_effect(start, row@, i as int, j + 1) == Err::<
                            LevelView,
                            LoadError,
                        >(e));
                        lemma_row_error_stays(start, row@, i as int, j + 1, height as int);
                        assert(layout@[i as int]@ == row@);
                        assert(layout_effect(blank, layout@, i + 1) == row_effect(
                            start,
                            row@,
                            i as int,
                            height as int,
                        ));
                        lemma_layout_error_stays(blank, layout@, i + 1, width as int);
                    }
                    return Err(e);
                },
                Ok(None) => {},
                Ok(Some(piece)) => {
                    pieces.push(piece);
                },
            }
            proof {
                assert(tile_at(layout@, i as int, j as int) == row@[j as int]);
                assert forall|k: int| 0 <= k < earlier.len() implies level@.holds(
                    (#[trigger] earlier[k]).block.footprint(),
                    earlier[k].block.index,
                ) by {
                    assert(before.holds(earlier[k].block.footprint(), earlier[k].block.index));
                }
            }
            j += 1;
        }
        i += 1;
    }
    Ok((level, pieces))
}

/// Once a tile of a row cannot be built, the rest of the row changes nothing
/// about the error.
proof fn lemma_row_error_stays(v: LevelView, row: Seq<Tile>, i: int, n: int, m: int)
    requires
        row_effect(v, row, i, n) is Err,
        n <= m,
    ensures
        row_effect(v, row, i, m) == row_effect(v, row, i, n),
    decreases m - n,
{
    if n < m {
        lemma_row_error_stays(v, row, i, n, m - 1);
    }
}

/// Once a tile of the layout cannot be built, the rows after it change
/// nothing about the error.
proof fn lemma_layout_error_stays(v: LevelView, layout: Seq<Vec<Tile>>, n: int, m: int)
    requires
        layout_effect(v, layout, n) is Err,
        n <= m,
    ensures
        layout_effect(v, layout, m) == layout_effect(v, layout, n),
    decreases m - n,
{
    if n < m {
        lemma_layout_error_stays(v, layout, n, m - 1);
    }
}

} // verus!
