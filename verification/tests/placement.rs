use conveyor_chaos::block::Block;
use conveyor_chaos::geometry::{Dis2, Rotation};
use conveyor_chaos::level::{Level, FREE};
use conveyor_chaos::placement::{move_block, needs_coin, on_click, on_drag, step_toward};

fn open_level(width: usize, height: usize) -> Level {
    let mut level = Level::new(width, height);
    for x in 0..width {
        for z in 0..height {
            level.set_floor(x, z);
        }
    }
    level
}

#[test]
fn single_step_clamp() {
    assert_eq!(step_toward(Dis2::new(0, 0), Dis2::new(3, 0), true), Dis2::new(1, 0));
    assert_eq!(step_toward(Dis2::new(0, 0), Dis2::new(3, 0), false), Dis2::new(1, 0));
    let mut level = open_level(5, 5);
    let mut block = Block::new(level.next_index(), Dis2::new(0, 0));
    level.place(&block);
    assert!(move_block(&mut level, &mut block, Dis2::new(3, 0), false));
    assert_eq!(block.position, Dis2::new(1, 0));
    assert_eq!(level.get(0, 0), Some(&FREE));
    assert_eq!(level.get(1, 0), Some(&block.index));
    assert_eq!(level.get(3, 0), Some(&FREE));
}

#[test]
fn diagonal_overshoot_clears_one_axis() {
    assert_eq!(step_toward(Dis2::new(0, 0), Dis2::new(2, 2), true), Dis2::new(0, 1));
    assert_eq!(step_toward(Dis2::new(0, 0), Dis2::new(2, 2), false), Dis2::new(1, 0));
    assert_eq!(step_toward(Dis2::new(0, 0), Dis2::new(-2, 2), false), Dis2::new(-1, 0));
    assert_eq!(step_toward(Dis2::new(0, 0), Dis2::new(2, -2), true), Dis2::new(0, -1));
}

#[test]
fn diagonal_drag_converges_by_single_steps() {
    for pattern in 0..16u32 {
        let mut level = open_level(4, 4);
        let mut block = Block::new(level.next_index(), Dis2::new(0, 0));
        level.place(&block);
        let target = Dis2::new(2, 2);
        let mut steps = 0;
        while block.position != target {
            let before = block.position;
            let coin = (pattern >> steps) & 1 == 1;
            assert!(move_block(&mut level, &mut block, target, coin));
            assert_eq!(before.distance(block.position), 1);
            assert_eq!(block.position.distance(target), before.distance(target) - 1);
            steps += 1;
        }
        assert_eq!(steps, 4);
        assert_eq!(level.get(2, 2), Some(&block.index));
        assert_eq!(level.get(0, 0), Some(&FREE));
    }
}

#[test]
fn step_toward_near_targets() {
    assert_eq!(step_toward(Dis2::new(2, 2), Dis2::new(2, 2), true), Dis2::new(2, 2));
    assert_eq!(step_toward(Dis2::new(2, 2), Dis2::new(2, 3), true), Dis2::new(2, 3));
    assert_eq!(step_toward(Dis2::new(2, 2), Dis2::new(1, 2), false), Dis2::new(1, 2));
    assert_eq!(step_toward(Dis2::new(2, 2), Dis2::new(2, -5), false), Dis2::new(2, 1));
    assert_eq!(
        step_toward(Dis2::new(isize::MIN, 0), Dis2::new(isize::MAX, 0), true),
        Dis2::new(isize::MIN + 1, 0)
    );
}

#[test]
fn needs_coin_only_off_both_axes() {
    assert!(needs_coin(Dis2::new(0, 0), Dis2::new(2, 2)));
    assert!(needs_coin(Dis2::new(0, 0), Dis2::new(1, 1)));
    assert!(!needs_coin(Dis2::new(0, 0), Dis2::new(3, 0)));
    assert!(!needs_coin(Dis2::new(0, 0), Dis2::new(0, 0)));
}

#[test]
fn rejected_move_changes_nothing() {
    let mut level = open_level(3, 1);
    let mut block = Block::new(level.next_index(), Dis2::new(0, 0));
    level.place(&block);
    let wall = Block::new(level.next_index(), Dis2::new(1, 0));
    level.place(&wall);
    assert!(!move_block(&mut level, &mut block, Dis2::new(2, 0), false));
    assert_eq!(block.position, Dis2::new(0, 0));
    assert_eq!(level.get(0, 0), Some(&block.index));
    assert_eq!(level.get(1, 0), Some(&wall.index));
    assert!(!move_block(&mut level, &mut block, Dis2::new(0, 0), false));
    assert!(!move_block(&mut level, &mut block, Dis2::new(0, -4), true));
    assert_eq!(block.position, Dis2::new(0, 0));
}

#[test]
fn move_over_own_cells() {
    let mut level = open_level(4, 1);
    let mut block = Block::new(level.next_index(), Dis2::new(0, 0)).with_tile(Dis2::new(1, 0));
    level.place(&block);
    assert!(move_block(&mut level, &mut block, Dis2::new(1, 0), false));
    assert_eq!(level.get(0, 0), Some(&FREE));
    assert_eq!(level.get(1, 0), Some(&block.index));
    assert_eq!(level.get(2, 0), Some(&block.index));
    assert_eq!(level.get(3, 0), Some(&FREE));
}

#[test]
fn on_drag_moves_one_cell_toward_the_pointer() {
    let mut level = open_level(4, 4);
    let mut block = Block::new(level.next_index(), Dis2::new(0, 0));
    level.place(&block);
    let pointer = level.to_vec3(Dis2::new(3, 0));
    let place = on_drag(&mut level, &mut block, pointer);
    assert_eq!(block.position, Dis2::new(1, 0));
    assert_eq!(place, Some(level.to_vec3(Dis2::new(1, 0))));
    let same = level.to_vec3(Dis2::new(1, 0));
    assert_eq!(on_drag(&mut level, &mut block, same), None);
    assert_eq!(block.position, Dis2::new(1, 0));
}

#[test]
fn on_drag_diagonal_takes_one_axis() {
    for _ in 0..32 {
        let mut level = open_level(4, 4);
        let mut block = Block::new(level.next_index(), Dis2::new(0, 0));
        level.place(&block);
        let pointer = level.to_vec3(Dis2::new(2, 2));
        let place = on_drag(&mut level, &mut block, pointer);
        assert!(block.position == Dis2::new(1, 0) || block.position == Dis2::new(0, 1));
        assert_eq!(place, Some(level.to_vec3(block.position)));
        assert_eq!(level.getd(block.position), Some(&block.index));
        assert_eq!(level.get(0, 0), Some(&FREE));
        assert_eq!(level.get(1, 1), Some(&FREE));
    }
}

#[test]
fn rotation_takes_first_free_orientation() {
    let mut level = open_level(3, 3);
    let mut block = Block::new(level.next_index(), Dis2::new(1, 1)).with_tile(Dis2::new(1, 0));
    level.place(&block);
    assert_eq!(on_click(&mut level, &mut block), Some(Rotation::D90));
    assert_eq!(block.rotation, Rotation::D90);
    assert_eq!(level.get(2, 1), Some(&FREE));
    assert_eq!(level.get(1, 2), Some(&block.index));
    assert_eq!(level.get(1, 1), Some(&block.index));
}

#[test]
fn rotation_skips_blocked_orientations() {
    let mut level = open_level(3, 3);
    let mut block = Block::new(level.next_index(), Dis2::new(1, 1)).with_tile(Dis2::new(1, 0));
    level.place(&block);
    let wall = Block::new(level.next_index(), Dis2::new(1, 2));
    level.place(&wall);
    assert_eq!(on_click(&mut level, &mut block), Some(Rotation::D180));
    assert_eq!(block.rotation, Rotation::D180);
    assert_eq!(level.get(0, 1), Some(&block.index));
    assert_eq!(level.get(2, 1), Some(&FREE));
}

#[test]
fn rotation_rejected_when_walled_in() {
    let mut level = Level::new(3, 3);
    level.set_floor(1, 1);
    level.set_floor(2, 1);
    let mut block = Block::new(level.next_index(), Dis2::new(1, 1)).with_tile(Dis2::new(1, 0));
    level.place(&block);
    assert_eq!(on_click(&mut level, &mut block), None);
    assert_eq!(block.rotation, Rotation::D0);
    assert_eq!(block.position, Dis2::new(1, 1));
    assert_eq!(level.get(1, 1), Some(&block.index));
    assert_eq!(level.get(2, 1), Some(&block.index));
}
