//! Moving and turning a piece on a level.
//!
//! A drag moves a piece by at most one cell per update and never diagonally; a
//! turn takes the first of the three other orientations for which there is
//! room. A move or turn for which there is no room leaves everything as it
//! was: that is the ordinary outcome of bumping into an obstacle, and no
//! error.

use vstd::prelude::*;
use crate::block::Block;
use crate::geometry::{Cell, Dis2, Rotation};
use crate::level::{clamp_isize, Level, LevelView, FREE};
use crate::world::{Point, WorldPos};

verus! {

/// `fastrand::bool` draws a boolean from the thread's random number
/// generator. Nothing is claimed of the value it returns.
pub assume_specification[ fastrand::bool ]() -> (coin: bool)
;

/// -1, 0 or 1 as `n` is negative, zero or positive.
pub open spec fn signum(n: int) -> int {
    if n > 0 {
        1
    } else if n < 0 {
        -1
    } else {
        0
    }
}

/// Whether `target` lies more than one cell from `current` and off both of
/// its axes, so that a step toward it has to give up one axis.
pub open spec fn is_diagonal(current: Cell, target: Cell) -> bool {
    current.distance(target) > 1 && current.x != target.x && current.z != target.z
}

/// The cell that a piece at `current` tries to reach when it is dragged to
/// `target`: `target` itself if that is at most one cell away, else the
/// neighbour of `current` one step toward `target` along one axis. Where
/// `target` lies off both axes, `coin` picks the axis: z if it is true, x if
/// it is false.
pub open spec fn step_toward_spec(current: Cell, target: Cell, coin: bool) -> Cell {
    if current.distance(target) <= 1 {
        target
    } else {
        let dx = signum(target.x - current.x);
        let dz = signum(target.z - current.z);
        if dx != 0 && dz != 0 {
            if coin {
                Cell { x: current.x, z: current.z + dz }
            } else {
                Cell { x: current.x + dx, z: current.z }
            }
        } else {
            Cell { x: current.x + dx, z: current.z + dz }
        }
    }
}

/// A step toward a target stays on one axis, covers at most one cell, and
/// unless the piece is at the target already brings it exactly one cell
/// nearer.
pub proof fn lemma_step_is_single(current: Cell, target: Cell, coin: bool)
    ensures
        current.distance(step_toward_spec(current, target, coin)) <= 1,
        current != target ==> step_toward_spec(current, target, coin).distance(target)
            == current.distance(target) - 1,
        current == target ==> step_toward_spec(current, target, coin) == current,
{
}

/// Whether a drag of a piece at `current` to `target` needs a coin to pick
/// an axis.
pub fn needs_coin(current: Dis2, target: Dis2) -> (diagonal: bool)
    ensures
        diagonal == is_diagonal(current@, target@),
{
    current.x != target.x && current.z != target.z
}

/// The cell that a piece at `current` tries to reach when it is dragged to
/// `target`.
pub fn step_toward(current: Dis2, target: Dis2, coin: bool) -> (next: Dis2)
    ensures
        next@ == step_toward_spec(current@, target@, coin),
{
    let dx: i128 = target.x as i128 - current.x as i128;
    let dz: i128 = target.z as i128 - current.z as i128;
    let ax: i128 = if dx >= 0 { dx } else { -dx };
    let az: i128 = if dz >= 0 { dz } else { -dz };
    if ax + az <= 1 {
        return target;
    }
    let mut sx: isize = if dx > 0 { 1 } else if dx < 0 { -1 } else { 0 };
    let mut sz: isize = if dz > 0 { 1 } else if dz < 0 { -1 } else { 0 };
    if sx != 0 && sz != 0 {
        if coin {
            sx = 0;
        } else {
            sz = 0;
        }
    }
    Dis2 { x: current.x + sx, z: current.z + sz }
}

/// What a drag does. `piece` on `before` is dragged to `target` with `coin`;
/// `moved` says whether it moved, and `after` and `landed` are the level and
/// the piece afterwards.
///
/// The piece moves if and only if the cell it steps to is not the one it
/// stands on and it may be placed there. It is then lifted off its cells and
/// set down with its anchor on that cell. Otherwise nothing changes.
pub open spec fn dragged(
    before: LevelView,
    piece: Block,
    target: Cell,
    coin: bool,
    after: LevelView,
    landed: Block,
    moved: bool,
) -> bool {
    let dest = step_toward_spec(piece.position@, target, coin);
    &&& landed.index == piece.index
    &&& landed.tiles == piece.tiles
    &&& landed.rotation == piece.rotation
    &&& moved == (dest != piece.position@ && before.can_place(
        piece.footprint_at(dest, piece.rotation),
        piece.index,
    ))
    &&& moved ==> landed.position@ == dest && after == before.stamped(
        piece.footprint(),
        FREE,
    ).stamped(landed.footprint(), piece.index)
    &&& !moved ==> landed.position == piece.position && after == before
}

/// What a drag to a world position does: a drag to the cell nearest to `pos`,
/// each of its coordinates limited to the range of `isize`.
pub open spec fn dragged_to(
    before: LevelView,
    piece: Block,
    pos: Point,
    coin: bool,
    after: LevelView,
    landed: Block,
    moved: bool,
) -> bool {
    dragged(
        before,
        piece,
        Cell { x: clamp_isize(before.to_grid(pos).x), z: clamp_isize(before.to_grid(pos).z) },
        coin,
        after,
        landed,
        moved,
    )
}

/// The orientation that a turn gives a piece: the first of the three after
/// its own, a quarter turn on each time, with which it may be placed at its
/// anchor; `None` if there is room for none of them.
pub open spec fn first_free_rotation(before: LevelView, piece: Block) -> Option<Rotation> {
    let r1 = piece.rotation.left();
    let r2 = r1.left();
    let r3 = r2.left();
    if before.can_place(piece.footprint_at(piece.position@, r1), piece.index) {
        Some(r1)
    } else if before.can_place(piece.footprint_at(piece.position@, r2), piece.index) {
        Some(r2)
    } else if before.can_place(piece.footprint_at(piece.position@, r3), piece.index) {
        Some(r3)
    } else {
        None
    }
}

/// Drags `block` toward the cell `target` by one step, if there is room.
/// Returns whether the piece moved.
pub fn move_block(level: &mut Level, block: &mut Block, target: Dis2, coin: bool) -> (moved:
    bool)
    requires
        old(level).wf(),
        old(level)@.holds(old(block).footprint(), old(block).index),
    ensures
        final(level).wf(),
        final(level)@.holds(final(block).footprint(), final(block).index),
        dragged(old(level)@, *old(block), target@, coin, final(level)@, *final(block), moved),
{
    let dest = step_toward(block.position, target, coin);
    if dest == block.position {
        return false;
    }
    if !level.try_place(block, dest, block.rotation) {
        return false;
    }
    proof {
        lemma_move_keeps_hold_here(level@, *block, dest@, block.rotation);
    }
    level.remove(block);
    block.translate(dest);
    level.place(block);
    true
}

/// Lifting `piece` and setting it down at `anchor` with `rotation`, where it
/// may be placed, leaves it holding exactly its new cells.
proof fn lemma_move_keeps_hold_here(v: LevelView, piece: Block, anchor: Cell, rotation: Rotation)
    requires
        v.wf(),
        v.holds(piece.footprint(), piece.index),
        v.can_place(piece.footprint_at(anchor, rotation), piece.index),
    ensures
        v.all_marked(piece.footprint(), piece.index),
        v.stamped(piece.footprint(), FREE).all_marked(piece.footprint_at(anchor, rotation), FREE),
        v.stamped(piece.footprint(), FREE).stamped(
            piece.footprint_at(anchor, rotation),
            piece.index,
        ).holds(piece.footprint_at(anchor, rotation), piece.index),
{
    crate::level::lemma_move_keeps_hold(
        v,
        piece.footprint(),
        piece.footprint_at(anchor, rotation),
        piece.index,
    );
}

/// Drags `block` toward the world position `pos` by one step, if there is
/// room, and returns the world position of its new anchor if it moved.
///
/// The target is the cell nearest to `pos`. Where it lies off both axes of the
/// piece, a random coin picks the axis of the step.
pub fn on_drag(level: &mut Level, block: &mut Block, pos: WorldPos) -> (place: Option<WorldPos>)
    requires
        old(level).wf(),
        old(level)@.holds(old(block).footprint(), old(block).index),
    ensures
        final(level).wf(),
        final(level)@.holds(final(block).footprint(), final(block).index),
        dragged_to(old(level)@, *old(block), pos@, true, final(level)@, *final(block), place is Some)
            || dragged_to(
            old(level)@,
            *old(block),
            pos@,
            false,
            final(level)@,
            *final(block),
            place is Some,
        ),
        place matches Some(p) ==> p@ == final(level)@.to_world(final(block).position@),
{
    let target = level.to_discrete(pos);
    let coin = if needs_coin(block.position, target) {
        fastrand::bool()
    } else {
        false
    };
    let moved = move_block(level, block, target, coin);
    assert(dragged_to(old(level)@, *old(block), pos@, coin, level@, *block, moved));
    if moved {
        Some(level.to_vec3(block.position))
    } else {
        None
    }
}

/// Turns `block` to the first of its three other orientations for which
/// there is room, and returns that orientation; leaves everything as it was
/// and returns `None` if there is room for none.
pub fn on_click(level: &mut Level, block: &mut Block) -> (turned: Option<Rotation>)
    requires
        old(level).wf(),
        old(level)@.holds(old(block).footprint(), old(block).index),
    ensures
        final(level).wf(),
        final(level)@.holds(final(block).footprint(), final(block).index),
        turned == first_free_rotation(old(level)@, *old(block)),
        final(block).index == old(block).index,
        final(block).tiles == old(block).tiles,
        final(block).position == old(block).position,
        match turned {
            Some(r) => final(block).rotation == r && final(level)@ == old(level)@.stamped(
                old(block).footprint(),
                FREE,
            ).stamped(final(block).footprint(), old(block).index),
            None => final(block).rotation == old(block).rotation && final(level)@ == old(level)@,
        },
{
    let mut dir = block.rotation;
    let mut tries: u8 = 0;
    while tries < 3
        invariant
            tries <= 3,
            level.wf(),
            *level == *old(level),
            *block == *old(block),
            level@.holds(block.footprint(), block.index),
            tries == 0 ==> dir == block.rotation,
            tries == 1 ==> dir == block.rotation.left(),
            tries == 2 ==> dir == block.rotation.left().left(),
            tries == 3 ==> dir == block.rotation.left().left().left(),
            forall|r: Rotation|
                (tries >= 1 && r == block.rotation.left()) || (tries >= 2 && r
                    == block.rotation.left().left()) || (tries >= 3 && r
                    == block.rotation.left().left().left()) ==> !level@.can_place(
                    #[trigger] block.footprint_at(block.position@, r),
                    block.index,
                ),
        decreases 3 - tries,
    {
        dir = dir.left();
        tries += 1;
        if level.try_place(block, block.position, dir) {
            proof {
                lemma_move_keeps_hold_here(level@, *block, block.position@, dir);
            }
            level.remove(block);
            block.rotate(dir);
            level.place(block);
            return Some(dir);
        }
    }
    None
}

} // verus!
