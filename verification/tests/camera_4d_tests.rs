use voxel4d::camera_4d::{
    quarter_turn, rotate_command, turn, Axis4, Camera, CameraInternal, Generator, Pose, Rotating,
    Rotation4, Vec4,
};
use voxel4d::world::WorldSize;

fn row(x: i8, y: i8, z: i8, w: i8) -> Axis4 {
    Axis4 { x, y, z, w }
}

fn initial() -> Rotation4 {
    Rotation4 { x: row(0, 1, 0, 0), y: row(0, 0, 0, 1), z: row(1, 0, 0, 0), w: row(0, 0, 1, 0) }
}

fn finish(camera: &mut Camera, generator: Generator, inverse: bool, now: u64) -> u64 {
    assert!(camera.rotate(generator, inverse, now));
    let end = now + camera.rotate_time();
    assert_eq!(camera.tick(end), Pose::Resting(camera.rotation()));
    assert_eq!(camera.rotating(), None);
    end
}

#[test]
fn new_camera_rests_in_the_initial_rotation() {
    let mut camera = Camera::new();
    assert_eq!(camera.rotation(), initial());
    assert_eq!(camera.rotating(), None);
    assert_eq!(camera.rotate_time(), 1_000_000);
    assert_eq!(camera.pose(0), Pose::Resting(initial()));
    assert!(camera.take_changed());
    assert!(!camera.take_changed());
}

#[test]
fn quarter_turns_are_the_closed_forms() {
    assert_eq!(
        quarter_turn(Generator::First, false),
        Rotation4 { x: row(0, -1, 0, 0), y: row(1, 0, 0, 0), z: row(0, 0, 1, 0), w: row(0, 0, 0, 1) }
    );
    assert_eq!(
        quarter_turn(Generator::First, true),
        Rotation4 { x: row(0, 1, 0, 0), y: row(-1, 0, 0, 0), z: row(0, 0, 1, 0), w: row(0, 0, 0, 1) }
    );
    assert_eq!(
        quarter_turn(Generator::Second, false),
        Rotation4 { x: row(1, 0, 0, 0), y: row(0, 0, 1, 0), z: row(0, -1, 0, 0), w: row(0, 0, 0, 1) }
    );
    assert_eq!(
        quarter_turn(Generator::Second, true),
        Rotation4 { x: row(1, 0, 0, 0), y: row(0, 0, -1, 0), z: row(0, 1, 0, 0), w: row(0, 0, 0, 1) }
    );
}

#[test]
fn turn_multiplies_from_the_left() {
    assert_eq!(
        turn(initial(), Generator::First, false),
        Rotation4 { x: row(0, 0, 0, -1), y: row(0, 1, 0, 0), z: row(1, 0, 0, 0), w: row(0, 0, 1, 0) }
    );
    assert_eq!(
        turn(initial(), Generator::Second, true),
        Rotation4 { x: row(0, 1, 0, 0), y: row(-1, 0, 0, 0), z: row(0, 0, 0, 1), w: row(0, 0, 1, 0) }
    );
}

#[test]
fn rotate_starts_a_turn() {
    let mut camera = Camera::new();
    camera.take_changed();
    assert!(camera.rotate(Generator::Second, true, 500));
    assert_eq!(
        camera.rotating(),
        Some(Rotating {
            last_rotation: initial(),
            generator: Generator::Second,
            inverse: true,
            start_time: 500,
            duration: 1_000_000,
        })
    );
    assert_eq!(camera.rotation(), initial());
    assert!(camera.take_changed());
}

#[test]
fn tick_reports_clamped_progress() {
    let mut camera = Camera::new();
    camera.rotate(Generator::First, false, 1_000);
    let at = |elapsed: u64| Pose::Turning {
        base: initial(),
        generator: Generator::First,
        inverse: false,
        elapsed,
        duration: 1_000_000,
    };
    assert_eq!(camera.tick(1_000), at(0));
    assert_eq!(camera.tick(500), at(0));
    assert_eq!(camera.tick(251_000), at(250_000));
    assert_eq!(camera.pose(1_000_999), at(999_999));
    assert_eq!(camera.tick(1_000_999), at(999_999));
    assert!(camera.rotating().is_some());
    assert_eq!(camera.rotation(), initial());
    let target = turn(initial(), Generator::First, false);
    assert_eq!(camera.tick(1_001_000), Pose::Resting(target));
    assert_eq!(camera.rotating(), None);
    assert_eq!(camera.rotation(), target);
}

#[test]
fn late_tick_snaps_to_the_target() {
    let mut camera = Camera::new();
    camera.rotate(Generator::Second, false, 0);
    let target = turn(initial(), Generator::Second, false);
    assert_eq!(camera.tick(u64::MAX), Pose::Resting(target));
    assert_eq!(camera.rotation(), target);
}

#[test]
fn tick_at_rest_changes_nothing() {
    let mut camera = Camera::new();
    camera.take_changed();
    assert_eq!(camera.tick(123), Pose::Resting(initial()));
    assert!(!camera.take_changed());
    assert_eq!(camera, {
        let mut fresh = Camera::new();
        fresh.take_changed();
        fresh
    });
}

#[test]
fn rotate_while_rotating_is_dropped() {
    let mut camera = Camera::new();
    assert!(camera.rotate(Generator::First, false, 10));
    let under_way = camera.rotating();
    camera.take_changed();
    assert!(!camera.rotate(Generator::Second, true, 20));
    assert!(!camera.rotate(Generator::First, true, 30));
    assert_eq!(camera.rotating(), under_way);
    assert!(!camera.take_changed());
    camera.set_rotate_time(5);
    assert_eq!(camera.rotating(), under_way);
    assert!(matches!(camera.tick(1_000_009), Pose::Turning { elapsed: 999_999, duration: 1_000_000, .. }));
    assert_eq!(camera.tick(1_000_010), Pose::Resting(turn(initial(), Generator::First, false)));
}

#[test]
fn four_turns_return_to_the_start() {
    for generator in [Generator::First, Generator::Second] {
        for inverse in [false, true] {
            let mut camera = Camera::new();
            let mut now = 0;
            for lap in 0..4 {
                now = finish(&mut camera, generator, inverse, now);
                if lap < 3 {
                    assert_ne!(camera.rotation(), initial());
                }
            }
            assert_eq!(camera.rotation(), initial());
        }
    }
}

#[test]
fn turn_and_back_returns_to_the_start() {
    let mut camera = Camera::new();
    let now = finish(&mut camera, Generator::First, false, 7);
    let now = finish(&mut camera, Generator::Second, true, now);
    let now = finish(&mut camera, Generator::Second, false, now);
    finish(&mut camera, Generator::First, true, now);
    assert_eq!(camera.rotation(), initial());
}

#[test]
fn zero_duration_turn_ends_at_once() {
    let mut camera = Camera::new();
    camera.set_rotate_time(0);
    assert!(camera.rotate(Generator::First, true, 99));
    assert_eq!(camera.tick(99), Pose::Resting(turn(initial(), Generator::First, true)));
}

#[test]
fn keys_choose_the_turn() {
    assert_eq!(rotate_command(false, false, false), None);
    assert_eq!(rotate_command(false, false, true), None);
    assert_eq!(rotate_command(true, false, false), Some((Generator::First, false)));
    assert_eq!(rotate_command(true, false, true), Some((Generator::First, true)));
    assert_eq!(rotate_command(false, true, false), Some((Generator::Second, false)));
    assert_eq!(rotate_command(false, true, true), Some((Generator::Second, true)));
    assert_eq!(rotate_command(true, true, false), Some((Generator::First, false)));
}

#[test]
fn snapshot_uses_the_inverse_rotation() {
    let camera = Camera::new();
    assert_eq!(
        camera.to_internal(WorldSize(88)),
        CameraInternal {
            position: Vec4 { x: 2949120, y: 2949120, z: -8585216, w: 2949120 },
            rotation: Rotation4 {
                x: row(0, 0, 1, 0),
                y: row(1, 0, 0, 0),
                z: row(0, 0, 0, 1),
                w: row(0, 1, 0, 0),
            },
            voxel_size: 65536,
        }
    );
}

#[test]
fn snapshot_of_a_turned_camera() {
    let mut camera = Camera::new();
    finish(&mut camera, Generator::Second, false, 0);
    finish(&mut camera, Generator::First, false, 2_000_000);
    let r = camera.rotation();
    assert_eq!(r, Rotation4 { x: row(-1, 0, 0, 0), y: row(0, 1, 0, 0), z: row(0, 0, 0, -1), w: row(0, 0, 1, 0) });
    let internal = camera.to_internal(WorldSize(3));
    assert_eq!(internal.position, Vec4 { x: 163840, y: 163840, z: -229376, w: 163840 });
    assert_eq!(internal.rotation.z, row(0, 0, 0, 1));
    assert_eq!(internal.rotation.w, row(0, 0, -1, 0));
    let biggest = camera.to_internal(WorldSize(u32::MAX));
    assert_eq!(biggest.position.x, 140737488388096);
    assert_eq!(biggest.position.z, -422212464902144);
}
