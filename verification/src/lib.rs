pub mod camera_3d;
pub mod camera_4d;
pub mod dense;
pub mod fixed;
pub mod palette;
pub mod physics;
pub mod utils;
pub mod voxel;
pub mod window_size;
pub mod world;
