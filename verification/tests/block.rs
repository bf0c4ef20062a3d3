use conveyor_chaos::block::Block;
use conveyor_chaos::geometry::{Dis2, Rotation};

#[test]
fn game_test_block() {
    let mut obj = Block::new(1, Dis2::zero())
        .with_tile(Dis2::new(1, 0))
        .with_tile(Dis2::new(2, 0))
        .with_tile(Dis2::new(2, 1))
        .left();
    assert_eq!(
        vec![Dis2::new(0, 0), Dis2::new(0, 1), Dis2::new(0, 2), Dis2::new(-1, 2)],
        obj.iter()
    );
    assert_eq!(obj.rotation, Rotation::D90);
    obj.translate(Dis2::unit_x());
    assert_eq!(
        vec![Dis2::new(1, 0), Dis2::new(1, 1), Dis2::new(1, 2), Dis2::new(0, 2)],
        obj.iter()
    );
}

#[test]
fn new_block_is_one_cell_on_its_anchor() {
    let b = Block::new(7, Dis2::new(4, 5));
    assert_eq!(b.index, 7);
    assert_eq!(b.tiles, vec![Dis2::zero()]);
    assert_eq!(b.rotation, Rotation::D0);
    assert_eq!(b.position, Dis2::new(4, 5));
    assert_eq!(b.iter(), vec![Dis2::new(4, 5)]);
}

#[test]
fn iter_with_leaves_the_block_alone() {
    let b = Block::new(1, Dis2::zero()).with_tile(Dis2::new(0, -1));
    assert_eq!(
        b.iter_with(Dis2::new(3, 3), Rotation::D180),
        vec![Dis2::new(3, 3), Dis2::new(3, 4)]
    );
    assert_eq!(b.iter_with(Dis2::new(3, 3), Rotation::D270), vec![Dis2::new(3, 3), Dis2::new(2, 3)]);
    assert_eq!(b.position, Dis2::zero());
    assert_eq!(b.rotation, Rotation::D0);
    assert_eq!(b.cell_at(1, Dis2::new(3, 3), Rotation::D90), (4, 3));
}

#[test]
fn translate_and_rotate_chain() {
    let mut b = Block::new(2, Dis2::zero()).with_tile(Dis2::new(1, 0)).right();
    assert_eq!(b.rotation, Rotation::D270);
    b.translate(Dis2::new(5, 5)).rotate(Rotation::D180);
    assert_eq!(b.position, Dis2::new(5, 5));
    assert_eq!(b.rotation, Rotation::D180);
    assert_eq!(b.iter(), vec![Dis2::new(5, 5), Dis2::new(4, 5)]);
}
