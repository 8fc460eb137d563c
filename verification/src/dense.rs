//! Dense cubic arrays of voxel ids, stored by `ndarray`.
//!
//! Everything in this module is a thin, unverified binding: each function body
//! is a single `ndarray` call, and its contract records what that call is
//! documented to do. The rest of the crate reasons about arrays only through
//! the two pairs of names declared here (`*_side` and `*_cells`).

use vstd::prelude::*;

verus! {

/// Row-major position of cell `(x, y, z, w)` in a hypercube of the given side.
pub open spec fn flat4(side: int, x: int, y: int, z: int, w: int) -> int {
    ((x * side + y) * side + z) * side + w
}

/// Number of cells in a cube of the given side.
pub open spec fn cube(side: int) -> int {
    side * side * side
}

/// Number of cells in a hypercube of the given side.
pub open spec fn hypercube(side: int) -> int {
    side * side * side * side
}

/// Whether an array can hold a cube of the given side: its cell count must
/// not exceed `isize::MAX`.
pub open spec fn cube_fits(side: int) -> bool {
    0 <= side && cube(side) <= isize::MAX
}

/// Whether an array can hold a hypercube of the given side: its cell count
/// must not exceed `isize::MAX`.
pub open spec fn hypercube_fits(side: int) -> bool {
    0 <= side && hypercube(side) <= isize::MAX
}

/// Whether `(i, j, k)` indexes a cell of a cube of the given side.
pub open spec fn in_cube(side: int, i: int, j: int, k: int) -> bool {
    0 <= i < side && 0 <= j < side && 0 <= k < side
}

/// Whether `(x, y, z, w)` indexes a cell of a hypercube of the given side.
pub open spec fn in_hypercube(side: int, x: int, y: int, z: int, w: int) -> bool {
    0 <= x < side && 0 <= y < side && 0 <= z < side && 0 <= w < side
}

/// A three-dimensional `ndarray::Array3<u8>` with all three axes equally long.
#[verifier::external_body]
#[derive(Debug)]
pub struct Grid3 {
    cells: ndarray::Array3<u8>,
}

/// A four-dimensional `ndarray::Array4<u8>` with all four axes equally long.
#[verifier::external_body]
#[derive(Debug)]
pub struct Grid4 {
    cells: ndarray::Array4<u8>,
}

/// Length of each axis of the array.
pub uninterp spec fn grid3_side(g: Grid3) -> nat;

/// The element stored at each index of the array.
pub uninterp spec fn grid3_cells(g: Grid3) -> Map<(int, int, int), u8>;

/// Length of each axis of the array.
pub uninterp spec fn grid4_side(g: Grid4) -> nat;

/// The element stored at each index of the array.
pub uninterp spec fn grid4_cells(g: Grid4) -> Map<(int, int, int, int), u8>;

/// `Array3::from_elem` with shape `(side, side, side)`: every cell holds
/// `value`. The call panics when the element count overflows `isize`, which
/// the precondition excludes.
#[verifier::external_body]
pub(crate) fn grid3_filled(side: usize, value: u8) -> (g: Grid3)
    requires
        cube_fits(side as int),
    ensures
        grid3_side(g) == side,
        forall|i: int, j: int, k: int|
            grid3_cells(g).dom().contains((i, j, k)) == in_cube(side as int, i, j, k),
        forall|i: int, j: int, k: int|
            in_cube(side as int, i, j, k) ==> #[trigger] grid3_cells(g)[(i, j, k)] == value,
{
    Grid3 { cells: ndarray::Array3::from_elem((side, side, side), value) }
}

/// Indexing an `Array3` with `[i, j, k]`: the element at that index. The
/// index operator panics outside the array, which the precondition excludes.
#[verifier::external_body]
pub(crate) fn grid3_get(g: &Grid3, i: usize, j: usize, k: usize) -> (value: u8)
    requires
        in_cube(grid3_side(*g) as int, i as int, j as int, k as int),
    ensures
        value == grid3_cells(*g)[(i as int, j as int, k as int)],
{
    g.cells[[i, j, k]]
}

/// Assigning through the mutable index operator of an `Array3`: the cell at
/// `[i, j, k]` takes `value`, every other cell and the shape stay. The
/// operator panics outside the array, which the precondition excludes.
#[verifier::external_body]
pub(crate) fn grid3_set(g: &mut Grid3, i: usize, j: usize, k: usize, value: u8)
    requires
        in_cube(grid3_side(*old(g)) as int, i as int, j as int, k as int),
    ensures
        grid3_side(*final(g)) == grid3_side(*old(g)),
        grid3_cells(*final(g)) == grid3_cells(*old(g)).insert(
            (i as int, j as int, k as int),
            value,
        ),
{
    g.cells[[i, j, k]] = value;
}

/// `Array4::from_elem` with shape `(side, side, side, side)`: every cell
/// holds `value`. The call panics when the element count overflows `isize`,
/// which the precondition excludes.
#[verifier::external_body]
pub(crate) fn grid4_filled(side: usize, value: u8) -> (g: Grid4)
    requires
        hypercube_fits(side as int),
    ensures
        grid4_side(g) == side,
        forall|x: int, y: int, z: int, w: int|
            grid4_cells(g).dom().contains((x, y, z, w)) == in_hypercube(side as int, x, y, z, w),
        forall|x: int, y: int, z: int, w: int|
            in_hypercube(side as int, x, y, z, w) ==> #[trigger] grid4_cells(g)[(x, y, z, w)]
                == value,
{
    Grid4 { cells: ndarray::Array4::from_elem((side, side, side, side), value) }
}

/// `ArrayBase::shape`, first axis: the side the array was built with.
#[verifier::external_body]
pub(crate) fn grid4_axis_len(g: &Grid4) -> (side: usize)
    ensures
        side == grid4_side(*g),
{
    g.cells.shape()[0]
}

/// Indexing an `Array4` with `[x, y, z, w]`: the element at that index. The
/// index operator panics outside the array, which the precondition excludes.
#[verifier::external_body]
pub(crate) fn grid4_get(g: &Grid4, x: usize, y: usize, z: usize, w: usize) -> (value: u8)
    requires
        in_hypercube(grid4_side(*g) as int, x as int, y as int, z as int, w as int),
    ensures
        value == grid4_cells(*g)[(x as int, y as int, z as int, w as int)],
{
    g.cells[[x, y, z, w]]
}

/// Assigning through the mutable index operator of an `Array4`: the cell at
/// `[x, y, z, w]` takes `value`, every other cell and the shape stay. The
/// operator panics outside the array, which the precondition excludes.
#[verifier::external_body]
pub(crate) fn grid4_set(g: &mut Grid4, x: usize, y: usize, z: usize, w: usize, value: u8)
    requires
        in_hypercube(grid4_side(*old(g)) as int, x as int, y as int, z as int, w as int),
    ensures
        grid4_side(*final(g)) == grid4_side(*old(g)),
        grid4_cells(*final(g)) == grid4_cells(*old(g)).insert(
            (x as int, y as int, z as int, w as int),
            value,
        ),
{
    g.cells[[x, y, z, w]] = value;
}

/// `ArrayBase::iter`, collected: the elements in logical order, in which the
/// last index varies fastest.
#[verifier::external_body]
pub(crate) fn grid4_to_vec(g: &Grid4) -> (data: Vec<u8>)
    ensures
        data@.len() == hypercube(grid4_side(*g) as int),
        forall|x: int, y: int, z: int, w: int|
            in_hypercube(grid4_side(*g) as int, x, y, z, w) ==> data@[flat4(
                grid4_side(*g) as int,
                x,
                y,
                z,
                w,
            )] == #[trigger] grid4_cells(*g)[(x, y, z, w)],
{
    g.cells.iter().copied().collect()
}

} // verus!
