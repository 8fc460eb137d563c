//! Sizes of the window and of the view, and what follows from them.

use crate::world::WorldSize;
use vstd::prelude::*;

verus! {

/// Inner size of the window, in pixels.
#[derive(Copy, Clone, Debug, PartialEq, Eq, Structural)]
pub struct WindowSize {
    pub width: u32,
    pub height: u32,
}

/// Side length of the cube of cells that the camera looks at.
#[derive(Copy, Clone, Debug, PartialEq, Eq, Structural)]
pub struct ViewSize(pub u32);

/// Cells that one group of the renderer's workers covers along the first two
/// axes.
pub const LOCAL_WORKGROUP_SIZE: u32 = 8;

impl WindowSize {
    /// The size of a window that is `width` by `height` pixels.
    pub fn new(width: u32, height: u32) -> (size: WindowSize)
        ensures
            size == (WindowSize { width, height }),
    {
        WindowSize { width, height }
    }
}

/// Takes over the size that the window has now. Says whether that is another
/// size than before: only then has anything to be built again.
pub fn update_window_size(window_size: &mut WindowSize, measured: WindowSize) -> (changed: bool)
    ensures
        *final(window_size) == measured,
        changed == (*old(window_size) != measured),
{
    if window_size.width != measured.width || window_size.height != measured.height {
        *window_size = measured;
        true
    } else {
        false
    }
}

/// How many groups of workers it takes along each axis to render a world of
/// the given side: one for every full `LOCAL_WORKGROUP_SIZE` cells along the
/// first two axes, one for every cell along the third.
pub fn workgroup_counts(world_size: WorldSize) -> (counts: (u32, u32, u32))
    ensures
        counts.0 == world_size.0 / 8,
        counts.1 == world_size.0 / 8,
        counts.2 == world_size.0,
{
    (world_size.0 / LOCAL_WORKGROUP_SIZE, world_size.0 / LOCAL_WORKGROUP_SIZE, world_size.0)
}

} // verus!
