//! Voxel ids, materials and integer grid coordinates.

use vstd::prelude::*;

verus! {

/// Index of a material in a world's palette.
#[derive(Copy, Clone, Debug, PartialEq, Eq, Structural)]
pub struct VoxelId(pub u8);

/// An sRGB color with eight bits per channel.
#[derive(Copy, Clone, Debug, PartialEq, Eq, Structural)]
pub struct Srgb8 {
    pub red: u8,
    pub green: u8,
    pub blue: u8,
}

/// A voxel material.
#[derive(Copy, Clone, Debug, PartialEq, Eq, Structural)]
pub struct VoxelType {
    pub color: Srgb8,
}

/// Integer coordinates of a cell in three dimensions.
#[derive(Copy, Clone, Debug, PartialEq, Eq, Structural)]
pub struct Index3 {
    pub x: u32,
    pub y: u32,
    pub z: u32,
}

/// Integer coordinates of a cell in four dimensions.
#[derive(Copy, Clone, Debug, PartialEq, Eq, Structural)]
pub struct Index4 {
    pub x: u32,
    pub y: u32,
    pub z: u32,
    pub w: u32,
}

/// The black material, which unused palette slots hold.
pub open spec fn blank() -> VoxelType {
    VoxelType { color: Srgb8 { red: 0, green: 0, blue: 0 } }
}

impl Srgb8 {
    /// The color with the given channels.
    pub fn new(red: u8, green: u8, blue: u8) -> (c: Srgb8)
        ensures
            c == (Srgb8 { red, green, blue }),
    {
        Srgb8 { red, green, blue }
    }
}

impl VoxelType {
    /// The material with the given color.
    pub fn new(color: Srgb8) -> (ty: VoxelType)
        ensures
            ty == (VoxelType { color }),
    {
        VoxelType { color }
    }
}

impl Default for VoxelType {
    /// The black material, which unused palette slots hold.
    fn default() -> (ty: VoxelType)
        ensures
            ty == blank(),
    {
        VoxelType { color: Srgb8 { red: 0, green: 0, blue: 0 } }
    }
}

impl Index3 {
    /// The cell with the given coordinates.
    pub fn new(x: u32, y: u32, z: u32) -> (c: Index3)
        ensures
            c == (Index3 { x, y, z }),
    {
        Index3 { x, y, z }
    }
}

impl Index4 {
    /// The cell with the given coordinates.
    pub fn new(x: u32, y: u32, z: u32, w: u32) -> (c: Index4)
        ensures
            c == (Index4 { x, y, z, w }),
    {
        Index4 { x, y, z, w }
    }
}

} // verus!
