use voxel4d::utils::to_u32_array;
use voxel4d::window_size::{update_window_size, workgroup_counts, ViewSize, WindowSize};
use voxel4d::world::WorldSize;

#[test]
fn words_are_little_endian() {
    let bytes = [1u8, 0, 0, 0, 0x78, 0x56, 0x34, 0x12, 0xff, 0xff, 0xff, 0xff];
    assert_eq!(to_u32_array(&bytes), vec![1, 0x1234_5678, u32::MAX]);
}

#[test]
fn no_bytes_no_words() {
    assert_eq!(to_u32_array(&[]), Vec::<u32>::new());
}

#[test]
fn words_are_not_the_zeros_they_overwrite() {
    assert_eq!(to_u32_array(&[0, 1, 0, 0]), vec![256]);
}

#[test]
fn window_size_reports_change() {
    let mut size = WindowSize::new(500, 500);
    assert!(!update_window_size(&mut size, WindowSize::new(500, 500)));
    assert_eq!(size, WindowSize::new(500, 500));
    assert!(update_window_size(&mut size, WindowSize::new(640, 500)));
    assert_eq!(size, WindowSize { width: 640, height: 500 });
    assert!(update_window_size(&mut size, WindowSize::new(640, 480)));
    assert_eq!(size, WindowSize { width: 640, height: 480 });
}

#[test]
fn workgroups_cover_the_world() {
    assert_eq!(workgroup_counts(WorldSize(88)), (11, 11, 88));
    assert_eq!(workgroup_counts(WorldSize(7)), (0, 0, 7));
    assert_eq!(workgroup_counts(WorldSize(0)), (0, 0, 0));
    assert_eq!(ViewSize(128), ViewSize(128));
}
