use conveyor_chaos::geometry::{Dis2, Rotation};
use conveyor_chaos::world::{WorldPos, UNIT};

const ALL: [Rotation; 4] = [Rotation::D0, Rotation::D90, Rotation::D180, Rotation::D270];

#[test]
fn test_rot() {
    let f = Dis2::neg_unit_z();
    assert_eq!(f.rotated(Rotation::D0), Rotation::D0.as_discrete());
    assert_eq!(f.rotated(Rotation::D90), Rotation::D90.as_discrete());
    assert_eq!(f.rotated(Rotation::D180), Rotation::D180.as_discrete());
    assert_eq!(f.rotated(Rotation::D270), Rotation::D270.as_discrete());
    let f = (0.0f32, 0.0f32, -1.0f32);
    assert!(length_squared(sub(rotate_y(Rotation::D0.as_degrees(), f), engine(Rotation::D0.as_vec3()))) < 0.1);
    assert!(length_squared(sub(rotate_y(Rotation::D90.as_degrees(), f), engine(Rotation::D90.as_vec3()))) < 0.1);
    assert!(length_squared(sub(rotate_y(Rotation::D180.as_degrees(), f), engine(Rotation::D180.as_vec3()))) < 0.1);
    assert!(length_squared(sub(rotate_y(Rotation::D270.as_degrees(), f), engine(Rotation::D270.as_vec3()))) < 0.1);
}

/// A vector turned about the vertical axis by an angle in degrees, as a
/// rotation matrix about y does it.
fn rotate_y(degrees: i16, v: (f32, f32, f32)) -> (f32, f32, f32) {
    let a = (degrees as f32).to_radians();
    (v.0 * a.cos() + v.2 * a.sin(), v.1, -v.0 * a.sin() + v.2 * a.cos())
}

fn engine(p: WorldPos) -> (f32, f32, f32) {
    (p.x as f32 / UNIT as f32, p.y as f32 / UNIT as f32, p.z as f32 / UNIT as f32)
}

fn sub(a: (f32, f32, f32), b: (f32, f32, f32)) -> (f32, f32, f32) {
    (a.0 - b.0, a.1 - b.1, a.2 - b.2)
}

fn length_squared(v: (f32, f32, f32)) -> f32 {
    v.0 * v.0 + v.1 * v.1 + v.2 * v.2
}

#[test]
fn fixed_point_rotation_matches_as_vec3() {
    let f = WorldPos::new(0, 0, -UNIT);
    for r in ALL {
        assert_eq!(f.rotated(r), r.as_vec3());
    }
}

#[test]
fn rotation_table() {
    let v = Dis2::new(3, 5);
    assert_eq!(v.rotated(Rotation::D0), Dis2::new(3, 5));
    assert_eq!(v.rotated(Rotation::D90), Dis2::new(-5, 3));
    assert_eq!(v.rotated(Rotation::D180), Dis2::new(-3, -5));
    assert_eq!(v.rotated(Rotation::D270), Dis2::new(5, -3));
}

#[test]
fn rotation_composes_for_all_pairs() {
    let v = Dis2::new(2, -7);
    let mut pairs = 0;
    for r1 in ALL {
        for r2 in ALL {
            assert_eq!(v.rotated(r1).rotated(r2), v.rotated(r1 + r2));
            pairs += 1;
        }
    }
    assert_eq!(pairs, 16);
}

#[test]
fn rotation_add_is_associative() {
    for a in ALL {
        for b in ALL {
            for c in ALL {
                assert_eq!((a + b) + c, a + (b + c));
            }
        }
    }
}

#[test]
fn left_and_right_are_inverses() {
    for r in ALL {
        assert_eq!(r.left().right(), r);
        assert_eq!(r.right().left(), r);
        assert_eq!(r.left().left().left().left(), r);
        assert_eq!(r.left(), r + Rotation::D90);
        assert_eq!(r.right(), r + Rotation::D270);
    }
    assert_eq!(Rotation::D0.left(), Rotation::D90);
    assert_eq!(Rotation::D0.right(), Rotation::D270);
}

#[test]
fn rotation_add_values() {
    assert_eq!(Rotation::D90 + Rotation::D180, Rotation::D270);
    assert_eq!(Rotation::D270 + Rotation::D180, Rotation::D90);
    assert_eq!(Rotation::D180 + Rotation::D180, Rotation::D0);
    assert_eq!(Rotation::D270 + Rotation::D0, Rotation::D270);
}

#[test]
fn unit_steps() {
    assert_eq!(Dis2::zero(), Dis2::new(0, 0));
    assert_eq!(Dis2::unit_x(), Dis2::new(1, 0));
    assert_eq!(Dis2::neg_unit_x(), Dis2::new(-1, 0));
    assert_eq!(Dis2::unit_z(), Dis2::new(0, 1));
    assert_eq!(Dis2::neg_unit_z(), Dis2::new(0, -1));
    assert_eq!(Dis2::default(), Dis2::zero());
}

#[test]
fn as_discrete_values() {
    assert_eq!(Rotation::D0.as_discrete(), Dis2::new(0, -1));
    assert_eq!(Rotation::D90.as_discrete(), Dis2::new(1, 0));
    assert_eq!(Rotation::D180.as_discrete(), Dis2::new(0, 1));
    assert_eq!(Rotation::D270.as_discrete(), Dis2::new(-1, 0));
}

#[test]
fn as_vec3_matches_as_discrete() {
    for r in ALL {
        let d = r.as_discrete();
        assert_eq!(r.as_vec3(), WorldPos::new(d.x as i128 * UNIT, 0, d.z as i128 * UNIT));
    }
}

#[test]
fn as_degrees_values() {
    assert_eq!(Rotation::D0.as_degrees(), 0);
    assert_eq!(Rotation::D90.as_degrees(), -90);
    assert_eq!(Rotation::D180.as_degrees(), 180);
    assert_eq!(Rotation::D270.as_degrees(), 90);
}

#[test]
fn dis2_add_and_distance() {
    let a = Dis2::new(1, -2);
    let b = Dis2::new(-4, 6);
    assert_eq!(a + b, Dis2::new(-3, 4));
    let mut c = a;
    c += b;
    assert_eq!(c, Dis2::new(-3, 4));
    assert_eq!(a.distance(b), 13);
    assert_eq!(b.distance(a), 13);
    assert_eq!(a.distance(a), 0);
}

#[test]
fn dis2_from_pairs() {
    assert_eq!(Dis2::from((3isize, -4isize)), Dis2::new(3, -4));
    assert_eq!(Dis2::from((3usize, 4usize)), Dis2::new(3, 4));
}

#[test]
fn world_rotation_and_sum() {
    let p = WorldPos::new(500, 1000, -1500);
    assert_eq!(p.rotated(Rotation::D0), p);
    assert_eq!(p.rotated(Rotation::D90), WorldPos::new(1500, 1000, 500));
    assert_eq!(p.rotated(Rotation::D180), WorldPos::new(-500, 1000, 1500));
    assert_eq!(p.rotated(Rotation::D270), WorldPos::new(-1500, 1000, -500));
    assert_eq!(p + WorldPos::new(1, 2, 3), WorldPos::new(501, 1002, -1497));
}

#[test]
fn within_compares_squared_distance() {
    let a = WorldPos::new(0, 0, 0);
    assert!(a.within(&WorldPos::new(300, 0, 0), 100_000));
    assert!(!a.within(&WorldPos::new(300, 100, 0), 100_000));
    assert!(a.within(&WorldPos::new(3, 4, 0), 26));
    assert!(!a.within(&WorldPos::new(3, 4, 0), 25));
    assert!(!a.within(&a, 0));
    assert!(!a.within(&WorldPos::new(i128::MAX, 0, 0), u64::MAX));
    assert!(!WorldPos::new(i128::MIN, 0, 0).within(&WorldPos::new(i128::MAX, 0, 0), u64::MAX));
}
