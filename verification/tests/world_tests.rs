use voxel4d::voxel::{Index4, Srgb8, VoxelId, VoxelType};
use voxel4d::world::{World, WorldError, WorldSize};

fn world(size: u32) -> World {
    assert!(World::fits(size));
    World::new(size)
}

fn grey() -> VoxelType {
    VoxelType::new(Srgb8::new(54, 63, 71))
}

#[test]
fn voxel_id_equality() {
    assert_eq!(VoxelId(3), VoxelId(3));
    assert_ne!(VoxelId(3), VoxelId(4));
    assert_eq!(WorldSize(88), WorldSize(88));
}

#[test]
fn reserved_ids() {
    assert_eq!(World::air(), VoxelId(0));
    assert_eq!(World::solid_air(), VoxelId(1));
}

#[test]
fn default_type_is_black() {
    assert_eq!(VoxelType::default(), VoxelType::new(Srgb8::new(0, 0, 0)));
}

#[test]
fn fits_tells_small_from_huge() {
    assert!(World::fits(0));
    assert!(World::fits(88));
    assert!(!World::fits(u32::MAX));
    assert!(!World::fits(70_000));
}

#[test]
fn new_world_is_all_air() {
    let w = world(3);
    assert_eq!(w.size(), 3);
    for x in 0..3 {
        for y in 0..3 {
            for z in 0..3 {
                for t in 0..3 {
                    assert_eq!(w.get(Index4::new(x, y, z, t)), Ok(VoxelId(0)));
                }
            }
        }
    }
}

#[test]
fn new_world_has_two_reserved_types() {
    let w = world(2);
    assert_eq!(w.type_of(VoxelId(0)), Some(VoxelType::default()));
    assert_eq!(w.type_of(VoxelId(1)), Some(VoxelType::default()));
    assert_eq!(w.type_of(VoxelId(2)), None);
}

#[test]
fn empty_world_has_no_cell() {
    let mut w = world(0);
    assert_eq!(w.size(), 0);
    assert_eq!(w.get(Index4::new(0, 0, 0, 0)), Err(WorldError::OutOfBounds));
    assert_eq!(w.set(Index4::new(0, 0, 0, 0), VoxelId(2)), Err(WorldError::OutOfBounds));
    assert_eq!(w.voxel_bytes(), vec![1u8; 16]);
}

#[test]
fn write_is_read_back() {
    let mut w = world(3);
    assert_eq!(w.set(Index4::new(0, 1, 2, 0), VoxelId(7)), Ok(()));
    assert_eq!(w.get(Index4::new(0, 1, 2, 0)), Ok(VoxelId(7)));
    assert_eq!(w.get(Index4::new(0, 1, 2, 1)), Ok(VoxelId(0)));
    assert_eq!(w.get(Index4::new(1, 1, 2, 0)), Ok(VoxelId(0)));
    assert_eq!(w.get(Index4::new(2, 1, 0, 0)), Ok(VoxelId(0)));
}

#[test]
fn grid_round_trip_everywhere() {
    for k in [0u8, 2, 3, 200, 255] {
        let mut w = world(3);
        for x in 0..3 {
            for y in 0..3 {
                for z in 0..3 {
                    for t in 0..3 {
                        assert_eq!(w.set(Index4::new(x, y, z, t), VoxelId(k)), Ok(()));
                    }
                }
            }
        }
        for x in 0..3 {
            for y in 0..3 {
                for z in 0..3 {
                    for t in 0..3 {
                        assert_eq!(w.get(Index4::new(x, y, z, t)), Ok(VoxelId(k)));
                    }
                }
            }
        }
    }
}

#[test]
fn padding_is_out_of_bounds() {
    let mut w = world(3);
    for index in [
        Index4::new(3, 0, 0, 0),
        Index4::new(0, 3, 0, 0),
        Index4::new(0, 0, 3, 0),
        Index4::new(0, 0, 0, 3),
        Index4::new(4, 4, 4, 4),
        Index4::new(u32::MAX, 0, 0, 0),
        Index4::new(0, 0, 0, u32::MAX),
    ] {
        assert_eq!(w.get(index), Err(WorldError::OutOfBounds));
        assert_eq!(w.set(index, VoxelId(2)), Err(WorldError::OutOfBounds));
    }
    assert_eq!(w.voxel_bytes(), world(3).voxel_bytes());
}

#[test]
fn boundary_id_cannot_be_written() {
    let mut w = world(3);
    assert_eq!(w.set(Index4::new(1, 1, 1, 1), VoxelId(1)), Err(WorldError::OutOfBounds));
    assert_eq!(w.get(Index4::new(1, 1, 1, 1)), Ok(VoxelId(0)));
}

#[test]
fn palette_holds_256_types() {
    let mut w = world(1);
    for id in 2..=255u32 {
        let ty = VoxelType::new(Srgb8::new(id as u8, 1, 2));
        assert_eq!(w.insert_type(ty), Ok(VoxelId(id as u8)));
    }
    for id in 2..=255u32 {
        assert_eq!(
            w.type_of(VoxelId(id as u8)),
            Some(VoxelType::new(Srgb8::new(id as u8, 1, 2)))
        );
    }
    assert_eq!(w.type_of(VoxelId(0)), Some(VoxelType::default()));
    assert_eq!(w.type_of(VoxelId(1)), Some(VoxelType::default()));
    let before = w.palette_table();
    assert_eq!(w.insert_type(grey()), Err(WorldError::CapacityExceeded));
    assert_eq!(w.insert_type(grey()), Err(WorldError::CapacityExceeded));
    assert_eq!(w.palette_table(), before);
    assert_eq!(w.type_of(VoxelId(255)), Some(VoxelType::new(Srgb8::new(255, 1, 2))));
}

#[test]
fn inserted_type_gets_next_id() {
    let mut w = world(1);
    assert_eq!(w.insert_type(grey()), Ok(VoxelId(2)));
    assert_eq!(w.insert_type(VoxelType::default()), Ok(VoxelId(3)));
    assert_eq!(w.type_of(VoxelId(2)), Some(grey()));
    assert_eq!(w.type_of(VoxelId(3)), Some(VoxelType::default()));
    assert_eq!(w.type_of(VoxelId(4)), None);
}

#[test]
fn palette_table_has_a_slot_for_every_id() {
    let mut w = world(1);
    w.insert_type(grey()).unwrap();
    let table = w.palette_table();
    assert_eq!(table.len(), 256);
    assert_eq!(table[0], VoxelType::default());
    assert_eq!(table[1], VoxelType::default());
    assert_eq!(table[2], grey());
    for slot in &table[3..] {
        assert_eq!(*slot, VoxelType::default());
    }
}

#[test]
fn voxel_bytes_are_row_major_with_shell() {
    let mut w = world(3);
    w.set(Index4::new(0, 1, 2, 0), VoxelId(9)).unwrap();
    let bytes = w.voxel_bytes();
    assert_eq!(bytes.len(), 625);
    assert_eq!(bytes[0], 1);
    assert_eq!(bytes[624], 1);
    assert_eq!(bytes[156], 0);
    assert_eq!(bytes[191], 9);
    let mut air = 0;
    let mut shell = 0;
    for b in &bytes {
        if *b == 0 {
            air += 1;
        }
        if *b == 1 {
            shell += 1;
        }
    }
    assert_eq!(air, 80);
    assert_eq!(shell, 625 - 81);
}

#[test]
fn texture_extent_squares_the_depth() {
    let w = world(3);
    assert_eq!(w.padded_size(), 5);
    assert_eq!(w.texture_extent(), (5, 5, 25));
    let big = world(88);
    assert_eq!(big.texture_extent(), (90, 90, 8100));
}

#[test]
fn fill_region_fills_the_box_only() {
    let mut w = world(4);
    let id = w.insert_type(grey()).unwrap();
    assert_eq!(w.fill_region(Index4::new(1, 0, 2, 1), Index4::new(3, 2, 4, 2), id), Ok(()));
    for x in 0..4 {
        for y in 0..4 {
            for z in 0..4 {
                for t in 0..4 {
                    let inside = (1..3).contains(&x)
                        && (0..2).contains(&y)
                        && (2..4).contains(&z)
                        && (1..2).contains(&t);
                    let expected = if inside { id } else { VoxelId(0) };
                    assert_eq!(w.get(Index4::new(x, y, z, t)), Ok(expected));
                }
            }
        }
    }
}

#[test]
fn fill_region_refuses_what_reaches_outside() {
    let mut w = world(4);
    w.take_changed();
    let r = w.fill_region(Index4::new(0, 0, 0, 0), Index4::new(5, 1, 1, 1), VoxelId(2));
    assert_eq!(r, Err(WorldError::OutOfBounds));
    let r = w.fill_region(Index4::new(0, 0, 0, 0), Index4::new(1, 1, 1, 1), VoxelId(1));
    assert_eq!(r, Err(WorldError::OutOfBounds));
    assert_eq!(w.get(Index4::new(0, 0, 0, 0)), Ok(VoxelId(0)));
    assert!(!w.take_changed());
}

#[test]
fn fill_region_accepts_an_empty_box() {
    let mut w = world(4);
    w.take_changed();
    let r = w.fill_region(Index4::new(2, 0, 0, 0), Index4::new(2, 9, 9, 9), VoxelId(1));
    assert_eq!(r, Ok(()));
    assert!(!w.take_changed());
    assert_eq!(w.voxel_bytes(), world(4).voxel_bytes());
}

#[test]
fn whole_world_fill_reads_back() {
    let mut w = world(3);
    assert_eq!(w.fill_region(Index4::new(0, 0, 0, 0), Index4::new(3, 3, 3, 3), VoxelId(5)), Ok(()));
    for x in 0..3 {
        for t in 0..3 {
            assert_eq!(w.get(Index4::new(x, 2, 1, t)), Ok(VoxelId(5)));
        }
    }
}

#[test]
fn changes_are_reported_once() {
    let mut w = world(2);
    assert!(w.take_changed());
    assert!(!w.take_changed());
    w.set(Index4::new(0, 0, 0, 0), VoxelId(2)).unwrap();
    assert!(w.take_changed());
    assert!(!w.take_changed());
    w.insert_type(grey()).unwrap();
    assert!(w.take_changed());
    assert_eq!(w.set(Index4::new(2, 0, 0, 0), VoxelId(2)), Err(WorldError::OutOfBounds));
    assert!(!w.take_changed());
    assert_eq!(w.get(Index4::new(0, 0, 0, 0)), Ok(VoxelId(2)));
    assert!(!w.take_changed());
}

#[test]
fn upload_only_after_a_change() {
    let mut w = world(2);
    let first = w.take_upload().unwrap();
    assert_eq!(first.side, 4);
    assert_eq!(first.voxels.len(), 256);
    assert_eq!(first.palette.len(), 256);
    assert!(w.take_upload().is_none());
    w.set(Index4::new(1, 1, 1, 1), VoxelId(3)).unwrap();
    let second = w.take_upload().unwrap();
    assert_eq!(second.voxels[((2 * 4 + 2) * 4 + 2) * 4 + 2], 3);
    assert_eq!(second.voxels, w.voxel_bytes());
    assert_eq!(second.palette, w.palette_table());
    assert!(w.take_upload().is_none());
}

#[test]
fn error_messages() {
    assert_eq!(WorldError::OutOfBounds.message(), "Out of bounds");
    assert_eq!(WorldError::CapacityExceeded.message(), "Palette is full");
}
