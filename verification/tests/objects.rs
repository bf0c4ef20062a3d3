use conveyor_chaos::geometry::{Dis2, Rotation};
use conveyor_chaos::level::{Level, UNUSABLE};
use conveyor_chaos::load::{belt_of, Object};
use conveyor_chaos::objects::{BeltBuilder, BeltPart, BeltShape};
use conveyor_chaos::world::WorldPos;

fn w(x: i128, z: i128) -> WorldPos {
    WorldPos::new(x, 0, z)
}

#[test]
fn empty_builder() {
    let b = BeltBuilder::new();
    assert!(b.tiles.is_empty());
    assert!(b.parts.is_empty());
    assert_eq!(b.route, vec![w(0, 500)]);
    assert_eq!(b.dir, Rotation::D0);
    assert_eq!(b.pos, w(0, 0));
    assert_eq!(b.dis, Dis2::zero());
}

#[test]
fn straight_belt() {
    let b = BeltBuilder::new().forward().forward();
    assert_eq!(b.tiles, vec![Dis2::new(0, 0), Dis2::new(0, -1)]);
    assert_eq!(b.route, vec![w(0, 500), w(0, -500), w(0, -1500)]);
    assert_eq!(b.dir, Rotation::D0);
    assert_eq!(b.dis, Dis2::new(0, -2));
    assert_eq!(b.pos, w(0, -2000));
    assert_eq!(
        b.parts,
        vec![
            BeltPart { shape: BeltShape::Straight, pos: w(0, 0), degrees: 0 },
            BeltPart { shape: BeltShape::Straight, pos: w(0, -1000), degrees: 0 },
        ]
    );
}

#[test]
fn belt_with_turns() {
    let b = BeltBuilder::new().left().forward().right();
    assert_eq!(b.tiles, vec![Dis2::new(0, 0), Dis2::new(-1, 0), Dis2::new(-2, 0)]);
    assert_eq!(
        b.route,
        vec![w(0, 500), w(0, 0), w(-500, 0), w(-1500, 0), w(-2000, 0), w(-2000, -500)]
    );
    assert_eq!(b.dir, Rotation::D0);
    assert_eq!(b.dis, Dis2::new(-2, -1));
    assert_eq!(b.pos, w(-2000, -1000));
    assert_eq!(
        b.parts,
        vec![
            BeltPart { shape: BeltShape::Left, pos: w(0, 0), degrees: 0 },
            BeltPart { shape: BeltShape::Straight, pos: w(-1000, 0), degrees: 90 },
            BeltPart { shape: BeltShape::Right, pos: w(-2000, 0), degrees: -90 },
        ]
    );
}

#[test]
fn left_turn_goes_on_along_minus_x() {
    let b = BeltBuilder::new().left();
    assert_eq!(b.dir, Rotation::D90);
    assert_eq!(b.tiles, vec![Dis2::new(0, 0)]);
    assert_eq!(b.route, vec![w(0, 500), w(0, 0), w(-500, 0)]);
    assert_eq!(b.dis, Dis2::new(-1, 0));
    assert_eq!(b.pos, w(-1000, 0));
}

#[test]
fn right_turn_goes_the_other_way() {
    let b = BeltBuilder::new().right();
    assert_eq!(b.dir, Rotation::D270);
    assert_eq!(b.tiles, vec![Dis2::new(0, 0)]);
    assert_eq!(b.route, vec![w(0, 500), w(0, 0), w(500, 0)]);
    assert_eq!(b.dis, Dis2::new(1, 0));
    assert_eq!(b.pos, w(1000, 0));
}

#[test]
fn belt_that_turns_back_on_itself() {
    let b = BeltBuilder::new().left().left().forward();
    assert_eq!(b.dir, Rotation::D180);
    assert_eq!(b.tiles, vec![Dis2::new(0, 0), Dis2::new(-1, 0), Dis2::new(-1, 1)]);
    assert_eq!(
        b.route,
        vec![w(0, 500), w(0, 0), w(-500, 0), w(-1000, 0), w(-1000, 500), w(-1000, 1500)]
    );
    assert_eq!(b.dis, Dis2::new(-1, 2));
    assert_eq!(b.parts[2], BeltPart { shape: BeltShape::Straight, pos: w(-1000, 1000), degrees: -180 });
}

#[test]
fn turned_belts_are_the_belts_of_the_level_file() {
    let left = belt_of(Object::BeltL).unwrap();
    let laid = BeltBuilder::new().left();
    assert_eq!((left.tiles, left.route, left.parts), (laid.tiles, laid.route, laid.parts));
    let right = belt_of(Object::BeltR).unwrap();
    let laid = BeltBuilder::new().right();
    assert_eq!((right.tiles, right.route, right.parts), (laid.tiles, laid.route, laid.parts));
}

#[test]
fn build_claims_the_cells() {
    let mut level = Level::new(3, 3);
    let first = level.next_index();
    assert_eq!(first, 1);
    let builder = BeltBuilder::new().forward().forward();
    let route = builder.route.clone();
    let parts = builder.parts.clone();
    let (block, router, shown) = builder.build(Dis2::new(1, 2), &mut level);
    assert_eq!(block.index, 2);
    assert_eq!(block.position, Dis2::new(1, 2));
    assert_eq!(block.rotation, Rotation::D0);
    assert_eq!(block.tiles, vec![Dis2::new(0, 0), Dis2::new(0, -1)]);
    assert_eq!(router.0, route);
    assert_eq!(shown, parts);
    assert_eq!(level.get(1, 2), Some(&2));
    assert_eq!(level.get(1, 1), Some(&2));
    assert_eq!(level.get(1, 0), Some(&UNUSABLE));
    assert_eq!(level.last_index(), 2);
}
