use voxel4d::fixed::{minus, plus, times, Vec3, ONE};

#[test]
fn one_is_two_to_the_sixteenth() {
    assert_eq!(ONE, 65536);
}

#[test]
fn sums_and_differences() {
    assert_eq!(plus(3, 4), 7);
    assert_eq!(minus(3, 4), -1);
    assert_eq!(plus(-ONE, ONE), 0);
}

#[test]
fn sums_saturate() {
    assert_eq!(plus(i64::MAX, 1), i64::MAX);
    assert_eq!(plus(i64::MIN, -1), i64::MIN);
    assert_eq!(minus(i64::MIN, 1), i64::MIN);
    assert_eq!(minus(i64::MAX, -1), i64::MAX);
    assert_eq!(minus(0, i64::MIN), i64::MAX);
}

#[test]
fn products_are_scaled() {
    assert_eq!(times(98304, 131072), 196608);
    assert_eq!(times(ONE, ONE), ONE);
    assert_eq!(times(ONE, 12345), 12345);
    assert_eq!(times(-98304, 131072), -196608);
    assert_eq!(times(0, i64::MAX), 0);
}

#[test]
fn products_round_down() {
    assert_eq!(times(1, 1), 0);
    assert_eq!(times(-1, 1), -1);
    assert_eq!(times(3, 32768), 1);
    assert_eq!(times(-3, 32768), -2);
    assert_eq!(times(65535, 1), 0);
    assert_eq!(times(-65536, 1), -1);
    assert_eq!(times(-65537, 1), -2);
}

#[test]
fn products_saturate() {
    assert_eq!(times(i64::MAX, 131072), i64::MAX);
    assert_eq!(times(i64::MIN, 131072), i64::MIN);
    assert_eq!(times(i64::MIN, -131072), i64::MAX);
    assert_eq!(times(i64::MIN, i64::MIN), i64::MAX);
    assert_eq!(times(i64::MAX, ONE), i64::MAX);
    assert_eq!(times(i64::MIN, ONE), i64::MIN);
}

#[test]
fn vectors_work_by_component() {
    let a = Vec3 { x: 1, y: -2, z: i64::MAX };
    let b = Vec3 { x: 10, y: 20, z: 30 };
    assert_eq!(a.plus(b), Vec3 { x: 11, y: 18, z: i64::MAX });
    assert_eq!(a.minus(b), Vec3 { x: -9, y: -22, z: i64::MAX - 30 });
    assert_eq!(b.scaled(2 * ONE), Vec3 { x: 20, y: 40, z: 60 });
    assert_eq!(Vec3::zero(), Vec3 { x: 0, y: 0, z: 0 });
}
