use conveyor_chaos::block::Block;
use conveyor_chaos::geometry::{Dis2, Rotation};
use conveyor_chaos::level::{Level, FREE, UNUSABLE};
use conveyor_chaos::world::WorldPos;

fn open_level(width: usize, height: usize) -> Level {
    let mut level = Level::new(width, height);
    for x in 0..width {
        for z in 0..height {
            level.set_floor(x, z);
        }
    }
    level
}

#[test]
fn game_test_coord() {
    let level = Level::new(4, 6);
    assert_eq!(level.get(5, 1), None);
    assert_eq!(level.get(1, 7), None);
    let (ox, oz) = level.offset();
    assert_eq!(level.to_discrete(WorldPos::new(ox + 2000, 0, oz + 1000)), Dis2::new(2, 1));
    assert_eq!(level.to_discrete(WorldPos::new(ox + 3000, 0, oz + 5000)), Dis2::new(3, 5));
    assert!(level
        .to_vec3(Dis2::new(3, 5))
        .within(&WorldPos::new(ox + 3000, 1000, oz + 5000), 100_000));
    assert!(level
        .to_vec3(Dis2::new(2, 1))
        .within(&WorldPos::new(ox + 2000, 1000, oz + 1000), 100_000));
}

#[test]
fn concrete_layout_round_trip() {
    let level = Level::new(4, 6);
    assert_eq!(level.offset(), (-2000, -3000));
    let world = level.to_vec3(Dis2::new(2, 1));
    assert_eq!(world, WorldPos::new(0, 1000, -2000));
    assert_eq!(level.to_discrete(world), Dis2::new(2, 1));
}

#[test]
fn round_trip_for_every_cell() {
    let level = Level::new(5, 3);
    for x in -4..9 {
        for z in -4..9 {
            let c = Dis2::new(x, z);
            assert_eq!(level.to_discrete(level.to_vec3(c)), c);
        }
    }
}

#[test]
fn to_discrete_rounds_halves_away_from_zero() {
    let level = Level::new(4, 6);
    assert_eq!(level.to_discrete(WorldPos::new(-2000 + 499, 0, -3000 + 500)), Dis2::new(0, 1));
    assert_eq!(level.to_discrete(WorldPos::new(-2000 - 499, 0, -3000 - 500)), Dis2::new(0, -1));
    assert_eq!(level.to_discrete(WorldPos::new(-2000 + 1500, 0, -3000 + 1499)), Dis2::new(2, 1));
}

#[test]
fn to_discrete_saturates() {
    let level = Level::new(4, 6);
    assert_eq!(
        level.to_discrete(WorldPos::new(i128::MAX, 0, i128::MIN)),
        Dis2::new(isize::MAX, isize::MIN)
    );
}

#[test]
fn new_level_is_unusable_everywhere() {
    let level = Level::new(3, 2);
    assert_eq!(level.width(), 3);
    assert_eq!(level.height(), 2);
    assert_eq!(level.last_index(), 0);
    for x in 0..3 {
        for z in 0..2 {
            assert_eq!(level.get(x, z), Some(&UNUSABLE));
        }
    }
    assert_eq!(level.get(3, 0), None);
    assert_eq!(level.get(0, 2), None);
    assert_eq!(level.getd(Dis2::new(-1, 0)), None);
    assert_eq!(level.getd(Dis2::new(0, -1)), None);
    assert_eq!(level.getd(Dis2::new(0, 2)), None);
    assert_eq!(level.getd(Dis2::new(2, 1)), Some(&UNUSABLE));
}

#[test]
fn set_floor_is_idempotent_and_keeps_owners() {
    let mut level = Level::new(2, 2);
    level.set_floor(1, 0);
    assert_eq!(level.get(1, 0), Some(&FREE));
    level.set_floor(1, 0);
    assert_eq!(level.get(1, 0), Some(&FREE));
    let block = Block::new(level.next_index(), Dis2::new(1, 0));
    level.place(&block);
    level.set_floor(1, 0);
    assert_eq!(level.get(1, 0), Some(&1));
    assert_eq!(level.get(0, 0), Some(&UNUSABLE));
}

#[test]
fn next_index_counts_from_one() {
    let mut level = Level::new(1, 1);
    assert_eq!(level.next_index(), 1);
    assert_eq!(level.next_index(), 2);
    assert_eq!(level.next_index(), 3);
    assert_eq!(level.last_index(), 3);
}

#[test]
fn place_then_remove_restores_free_cells() {
    let mut level = open_level(4, 4);
    let block = Block::new(level.next_index(), Dis2::new(1, 1))
        .with_tile(Dis2::new(1, 0))
        .with_tile(Dis2::new(1, 1));
    level.place(&block);
    for c in block.iter() {
        assert_eq!(level.getd(c), Some(&block.index));
    }
    assert_eq!(level.get(0, 0), Some(&FREE));
    level.remove(&block);
    for x in 0..4 {
        for z in 0..4 {
            assert_eq!(level.get(x, z), Some(&FREE));
        }
    }
}

#[test]
fn remove_then_place_restores_owned_cells() {
    let mut level = open_level(4, 4);
    let block = Block::new(level.next_index(), Dis2::new(2, 2)).with_tile(Dis2::new(0, 1)).left();
    level.place(&block);
    let before: Vec<Option<usize>> =
        (0..16).map(|k| level.get(k % 4, k / 4).copied()).collect();
    level.remove(&block);
    level.place(&block);
    let after: Vec<Option<usize>> = (0..16).map(|k| level.get(k % 4, k / 4).copied()).collect();
    assert_eq!(before, after);
    assert_eq!(level.getd(Dis2::new(2, 2)), Some(&block.index));
    assert_eq!(level.getd(Dis2::new(1, 2)), Some(&block.index));
}

#[test]
fn try_place_allows_own_cells() {
    let mut level = open_level(4, 4);
    let block = Block::new(level.next_index(), Dis2::new(1, 1)).with_tile(Dis2::new(1, 0));
    level.place(&block);
    assert!(level.try_place(&block, block.position, block.rotation));
    assert!(level.try_place(&block, Dis2::new(2, 1), Rotation::D0));
}

#[test]
fn try_place_rejects_walls_edges_and_other_pieces() {
    let mut level = Level::new(4, 4);
    for x in 0..3 {
        for z in 0..4 {
            level.set_floor(x, z);
        }
    }
    let block = Block::new(level.next_index(), Dis2::new(0, 0)).with_tile(Dis2::new(1, 0));
    level.place(&block);
    let other = Block::new(level.next_index(), Dis2::new(0, 2));
    level.place(&other);
    assert!(!level.try_place(&block, Dis2::new(2, 0), Rotation::D0));
    assert!(!level.try_place(&block, Dis2::new(-1, 0), Rotation::D0));
    assert!(!level.try_place(&block, Dis2::new(0, 3), Rotation::D90));
    assert!(!level.try_place(&block, Dis2::new(0, 1), Rotation::D90));
    assert!(!level.try_place(&block, Dis2::new(0, 2), Rotation::D0));
    assert!(level.try_place(&block, Dis2::new(1, 2), Rotation::D0));
    assert!(!level.try_place(&block, Dis2::new(isize::MAX, isize::MAX), Rotation::D0));
}

#[test]
fn place_unchecked_overwrites() {
    let mut level = Level::new(3, 1);
    let block = Block::new(level.next_index(), Dis2::new(0, 0)).with_tile(Dis2::new(1, 0));
    level.place_unchecked(&block);
    assert_eq!(level.get(0, 0), Some(&1));
    assert_eq!(level.get(1, 0), Some(&1));
    assert_eq!(level.get(2, 0), Some(&UNUSABLE));
}

#[test]
fn holds_tells_whether_piece_and_level_agree() {
    let mut level = open_level(4, 4);
    let mut block = Block::new(level.next_index(), Dis2::new(1, 1)).with_tile(Dis2::new(1, 0));
    assert!(!level.holds(&block));
    level.place(&block);
    assert!(level.holds(&block));
    let other = Block::new(level.next_index(), Dis2::new(3, 3));
    assert!(!level.holds(&other));
    level.place(&other);
    assert!(level.holds(&other));
    assert!(level.holds(&block));
    block.translate(Dis2::new(0, 1));
    assert!(!level.holds(&block));
    block.translate(Dis2::new(1, 1));
    block.tiles.pop();
    assert!(!level.holds(&block));
    block.tiles.push(Dis2::new(5, 0));
    assert!(!level.holds(&block));
    assert!(!level.holds(&Block::new(FREE, Dis2::new(0, 0))));
    assert!(!level.holds(&Block::new(UNUSABLE, Dis2::new(0, 0))));
}

#[test]
fn rows_show_the_markers() {
    let mut level = Level::new(4, 3);
    assert_eq!(level.rows(), vec!["####", "####", "####"]);
    for x in 0..3 {
        level.set_floor(x, 1);
    }
    level.set_floor(3, 2);
    let block = Block::new(level.next_index(), Dis2::new(1, 1)).with_tile(Dis2::new(1, 0));
    level.place(&block);
    assert_eq!(level.rows(), vec!["####", " 11#", "### "]);
    for _ in 0..10 {
        level.next_index();
    }
    let far = Block::new(level.next_index(), Dis2::new(3, 2));
    assert_eq!(far.index, 12);
    level.place(&far);
    assert_eq!(level.rows(), vec!["####", " 11#", "###12"]);
    assert!(Level::new(0, 2).rows().iter().all(|r| r.is_empty()));
    assert!(Level::new(2, 0).rows().is_empty());
    let mut big = Level::new(1, 1);
    big.set_floor(0, 0);
    let block = Block::new(9_076_543_210, Dis2::new(0, 0));
    big.place(&block);
    assert_eq!(big.rows(), vec!["9076543210"]);
}
