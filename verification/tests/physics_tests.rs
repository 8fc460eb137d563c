use voxel4d::camera_3d::Camera;
use voxel4d::fixed::{Vec3, ONE};
use voxel4d::physics::{
    staging_len, staging_row, update_camera, Axes, CollisionResult, PhysicsView, Player,
    PlayerStats, WindowRequest,
};
use voxel4d::voxel::{Index3, VoxelId};

const SIDE: u32 = 4;

fn v(x: i64, y: i64, z: i64) -> Vec3 {
    Vec3 { x, y, z }
}

fn staged(solid: &[(usize, usize, usize)]) -> Vec<u8> {
    let row = staging_row(SIDE) as usize;
    let mut buffer = vec![0u8; staging_len(SIDE) as usize];
    for &(i, j, k) in solid {
        buffer[(i * row + j) * SIDE as usize + k] = 2;
    }
    buffer
}

fn window(solid: &[(usize, usize, usize)]) -> PhysicsView {
    assert!(PhysicsView::fits(SIDE));
    let mut view = PhysicsView::new(SIDE);
    let request = view.request_refresh(v(2 * ONE, 2 * ONE, 2 * ONE));
    assert_eq!(request, Some(WindowRequest { origin: Index3::new(0, 0, 0), side: SIDE }));
    assert!(view.deliver(&staged(solid)));
    view
}

fn floor() -> Vec<(usize, usize, usize)> {
    let mut cells = Vec::new();
    for i in 0..4 {
        for j in 0..4 {
            cells.push((i, j, 0));
        }
    }
    cells
}

fn walls() -> Vec<(usize, usize, usize)> {
    let mut cells = Vec::new();
    for j in 0..4 {
        for k in 0..4 {
            cells.push((0, j, k));
            cells.push((2, j, k));
        }
    }
    cells
}

fn stats(size: Vec3) -> PlayerStats {
    PlayerStats { air_friction: 0, movement_acceleration: ONE, jump_velocity: ONE, size, gravity: 0 }
}

fn nothing() -> CollisionResult {
    CollisionResult {
        shift: v(0, 0, 0),
        collided: false,
        conflicted: Axes { x: false, y: false, z: false },
    }
}

#[test]
fn staging_rows_are_multiples_of_256() {
    assert_eq!(staging_row(0), 0);
    assert_eq!(staging_row(1), 256);
    assert_eq!(staging_row(4), 256);
    assert_eq!(staging_row(256), 256);
    assert_eq!(staging_row(257), 512);
    assert_eq!(staging_row(u32::MAX), 4294967296);
}

#[test]
fn staging_length_is_rows_squared_times_side() {
    assert_eq!(staging_len(0), 0);
    assert_eq!(staging_len(4), 262144);
    assert_eq!(staging_len(128), 256 * 256 * 128);
    assert_eq!(staging_len(300), 512 * 512 * 300);
}

#[test]
fn window_fits_tells_small_from_huge() {
    assert!(PhysicsView::fits(0));
    assert!(PhysicsView::fits(128));
    assert!(!PhysicsView::fits(u32::MAX));
}

#[test]
fn new_window_is_all_air() {
    let view = PhysicsView::new(3);
    assert_eq!(view.size(), 3);
    assert_eq!(view.start(), Index3::new(0, 0, 0));
    assert_eq!(view.next_start(), Index3::new(0, 0, 0));
    assert!(!view.is_pending());
    for i in 0..3 {
        for j in 0..3 {
            for k in 0..3 {
                assert_eq!(view.cell(i, j, k), Some(VoxelId(0)));
            }
        }
    }
    assert_eq!(view.cell(3, 0, 0), None);
    assert_eq!(view.cell(0, 0, 3), None);
    assert_eq!(view.aabb_collide(v(0, 0, 0), v(3 * ONE, 3 * ONE, 3 * ONE)), nothing());
}

#[test]
fn refresh_is_centred_on_the_agent() {
    let mut view = PhysicsView::new(SIDE);
    let request = view.request_refresh(v(681574, 13107, -5 * ONE));
    assert_eq!(request, Some(WindowRequest { origin: Index3::new(8, 0, 0), side: 4 }));
    assert_eq!(view.next_start(), Index3::new(8, 0, 0));
    assert_eq!(view.start(), Index3::new(0, 0, 0));
    assert!(view.is_pending());
}

#[test]
fn refresh_origin_rounds_to_nearest() {
    let mut view = PhysicsView::new(SIDE);
    let request = view.request_refresh(v(2 * ONE + 32767, 2 * ONE + 32768, 3 * ONE + 32768));
    assert_eq!(request.unwrap().origin, Index3::new(0, 1, 2));
    let mut far = PhysicsView::new(SIDE);
    let request = far.request_refresh(v(i64::MAX, i64::MIN, 0));
    assert_eq!(request.unwrap().origin, Index3::new(u32::MAX, 0, 0));
}

#[test]
fn only_one_request_at_a_time() {
    let mut view = PhysicsView::new(SIDE);
    assert!(view.request_refresh(v(10 * ONE, 10 * ONE, 10 * ONE)).is_some());
    assert_eq!(view.request_refresh(v(20 * ONE, 20 * ONE, 20 * ONE)), None);
    assert_eq!(view.next_start(), Index3::new(8, 8, 8));
    assert!(view.deliver(&staged(&[])));
    assert_eq!(view.start(), Index3::new(8, 8, 8));
    assert!(!view.is_pending());
    let again = view.request_refresh(v(20 * ONE, 20 * ONE, 20 * ONE));
    assert_eq!(again, Some(WindowRequest { origin: Index3::new(18, 18, 18), side: 4 }));
}

#[test]
fn delivery_unpads_the_staged_buffer() {
    let view = window(&[(1, 2, 3), (3, 0, 0)]);
    for i in 0..4usize {
        for j in 0..4usize {
            for k in 0..4usize {
                let solid = (i, j, k) == (1, 2, 3) || (i, j, k) == (3, 0, 0);
                let expected = if solid { VoxelId(2) } else { VoxelId(0) };
                assert_eq!(view.cell(i as u32, j as u32, k as u32), Some(expected));
            }
        }
    }
}

#[test]
fn delivery_without_request_is_turned_down() {
    let mut view = PhysicsView::new(SIDE);
    assert!(!view.deliver(&staged(&[(0, 0, 0)])));
    assert_eq!(view.cell(0, 0, 0), Some(VoxelId(0)));
    assert!(!view.is_pending());
}

#[test]
fn delivery_of_wrong_length_is_turned_down() {
    let mut view = window(&[(1, 1, 1)]);
    assert!(view.request_refresh(v(9 * ONE, 9 * ONE, 9 * ONE)).is_some());
    assert!(!view.deliver(&[2u8; 64]));
    assert!(!view.deliver(&[]));
    assert!(view.is_pending());
    assert_eq!(view.start(), Index3::new(0, 0, 0));
    assert_eq!(view.cell(1, 1, 1), Some(VoxelId(2)));
    assert_eq!(view.cell(0, 0, 0), Some(VoxelId(0)));
}

#[test]
fn stale_window_is_used_until_delivery() {
    let mut view = window(&floor());
    let mut before = Vec::new();
    for i in 0..4 {
        for j in 0..4 {
            for k in 0..4 {
                before.push(view.cell(i, j, k));
            }
        }
    }
    let start = v(ONE + 49152, ONE + 49152, 58982);
    let size = v(32768, 32768, ONE);
    let hit = view.aabb_collide(start, size);
    assert!(hit.collided);
    assert!(view.request_refresh(v(30 * ONE, 30 * ONE, 30 * ONE)).is_some());
    assert!(!view.deliver(&[0u8; 3]));
    let mut after = Vec::new();
    for i in 0..4 {
        for j in 0..4 {
            for k in 0..4 {
                after.push(view.cell(i, j, k));
            }
        }
    }
    assert_eq!(before, after);
    assert_eq!(view.start(), Index3::new(0, 0, 0));
    assert_eq!(view.aabb_collide(start, size), hit);
    assert!(view.deliver(&staged(&[])));
    assert_eq!(view.start(), Index3::new(28, 28, 28));
    assert_eq!(view.aabb_collide(start, size), nothing());
}

#[test]
fn open_air_reports_no_collision() {
    let view = window(&[(0, 0, 0)]);
    let hit = view.aabb_collide(v(ONE, ONE, ONE), v(2 * ONE, 2 * ONE, 2 * ONE));
    assert_eq!(hit, nothing());
    let flush = view.aabb_collide(v(ONE, 0, 0), v(ONE, ONE, ONE));
    assert_eq!(flush, nothing());
}

#[test]
fn open_air_leaves_velocity_unchanged() {
    let view = window(&[(3, 3, 3)]);
    let mut player = Player::new(v(ONE, ONE, ONE), stats(v(16384, 16384, 16384)));
    player.set_velocity(v(ONE, -ONE, 0));
    player.update_physics(&view, 32768);
    assert!(!player.is_dead());
    assert_eq!(player.velocity(), v(ONE, -ONE, 0));
    assert_eq!(player.position(), v(ONE + 32768, ONE - 32768, ONE));
}

#[test]
fn single_cell_pushes_along_every_axis() {
    let view = window(&[(1, 1, 0)]);
    let hit = view.aabb_collide(v(81920, 81920, 58982), v(32768, 32768, ONE));
    assert_eq!(
        hit,
        CollisionResult {
            shift: v(49152, 49152, 6554),
            collided: true,
            conflicted: Axes { x: false, y: false, z: false },
        }
    );
}

#[test]
fn push_takes_the_nearer_face() {
    let view = window(&[(1, 1, 1)]);
    let hit = view.aabb_collide(v(ONE - 100, ONE + 65000, ONE + 60000), v(200, 200000, 200000));
    assert_eq!(hit.shift, v(-100, 536, 5536));
    assert_eq!(hit.conflicted, Axes { x: false, y: false, z: false });
    assert!(hit.collided);
}

#[test]
fn agent_on_a_floor_is_lifted_onto_it() {
    let view = window(&floor());
    let size = v(16384, 16384, 32768);
    let mut player = Player::new(v(2 * ONE, 2 * ONE, 91750), stats(size));
    player.set_velocity(v(1000, -2000, -3000));
    let hit = view.aabb_collide(player.position().minus(size), size.plus(size));
    assert_eq!(hit.shift, v(0, 0, 6554));
    assert_eq!(hit.conflicted, Axes { x: true, y: true, z: false });
    player.update_physics(&view, 0);
    assert!(!player.is_dead());
    assert_eq!(player.position(), v(2 * ONE, 2 * ONE, 98304));
    assert_eq!(player.position().z - size.z, ONE);
    assert_eq!(player.velocity(), v(1000, -2000, 0));
}

#[test]
fn agent_on_a_single_voxel_is_lifted_and_stopped() {
    let view = window(&[(1, 1, 0)]);
    let size = v(16384, 16384, 32768);
    let mut player = Player::new(v(98304, 98304, 91750), stats(size));
    player.set_velocity(v(0, 0, -3000));
    player.update_physics(&view, 0);
    assert!(!player.is_dead());
    assert_eq!(player.position().z, 98304);
    assert_eq!(player.position().z - size.z, ONE);
    assert_eq!(player.velocity(), v(0, 0, 0));
    assert_eq!(player.position(), v(147456, 147456, 98304));
}

#[test]
fn agent_between_two_walls_is_crushed() {
    let view = window(&walls());
    let size = v(39322, 16384, 16384);
    let mut player = Player::new(v(98304, 2 * ONE, 2 * ONE), stats(size));
    player.set_velocity(v(5, 6, 7));
    let hit = view.aabb_collide(player.position().minus(size), size.plus(size));
    assert!(hit.collided);
    assert_eq!(hit.conflicted, Axes { x: true, y: true, z: true });
    assert_eq!(hit.shift, v(0, 0, 0));
    player.update_physics(&view, 0);
    assert!(player.is_dead());
    assert_eq!(player.position(), v(98304, 2 * ONE, 2 * ONE));
}

#[test]
fn agent_that_cannot_escape_the_walls_dies() {
    let view = window(&walls());
    let size = v(39322, 16384, 16384);
    let mut player = Player::new(v(98304, 98304, 98304), stats(size));
    let hit = view.aabb_collide(player.position().minus(size), size.plus(size));
    assert_eq!(hit.conflicted, Axes { x: true, y: false, z: false });
    assert_eq!(hit.shift, v(0, 49152, 49152));
    player.update_physics(&view, 0);
    assert!(player.is_dead());
    assert_eq!(player.position(), v(98304, 147456, 147456));
}

#[test]
fn dead_agent_never_moves_again() {
    let view = window(&walls());
    let size = v(39322, 16384, 16384);
    let mut player = Player::new(v(98304, 2 * ONE, 2 * ONE), stats(size));
    player.update_physics(&view, 0);
    assert!(player.is_dead());
    let frozen = player;
    let open = window(&[]);
    player.set_velocity(v(ONE, ONE, ONE));
    player.update_physics(&open, ONE);
    player.update_physics(&open, ONE);
    assert_eq!(player, frozen);
}

#[test]
fn gravity_and_friction_integrate() {
    let view = window(&[]);
    let s = PlayerStats {
        air_friction: 32768,
        movement_acceleration: ONE,
        jump_velocity: ONE,
        size: v(1000, 1000, 1000),
        gravity: 10 * ONE,
    };
    let mut player = Player::new(v(2 * ONE, 2 * ONE, 2 * ONE), s);
    player.set_velocity(v(2 * ONE, 0, 4 * ONE));
    player.update_physics(&view, 6554);
    assert_eq!(player.velocity(), v(124518, 0, 183496));
    assert_eq!(player.position(), v(143524, 2 * ONE, 149422));
    assert_eq!(player.stats(), s);
}

#[test]
fn new_player_is_alive_and_at_rest() {
    let s = stats(v(1, 2, 3));
    let player = Player::new(v(7, 8, 9), s);
    assert!(!player.is_dead());
    assert_eq!(player.position(), v(7, 8, 9));
    assert_eq!(player.velocity(), v(0, 0, 0));
    assert_eq!(player.stats(), s);
}

#[test]
fn camera_follows_the_living_only() {
    let mut camera = Camera::new(v(0, 0, 0), 0);
    let open = window(&[]);
    let mut walker = Player::new(v(ONE, 2 * ONE, 3 * ONE), stats(v(100, 100, 100)));
    walker.update_physics(&open, 0);
    camera.take_changed();
    update_camera(&walker, &mut camera);
    assert_eq!(camera.position(), v(ONE, 2 * ONE, 3 * ONE));
    assert!(camera.take_changed());
    let crushing = window(&walls());
    let mut victim = Player::new(v(98304, 2 * ONE, 2 * ONE), stats(v(39322, 16384, 16384)));
    victim.update_physics(&crushing, 0);
    assert!(victim.is_dead());
    update_camera(&victim, &mut camera);
    assert_eq!(camera.position(), v(ONE, 2 * ONE, 3 * ONE));
    assert!(!camera.take_changed());
}
