//! Agent physics against a cached window of the voxel grid.
//!
//! Positions and box extents are fixed-point numbers (see `fixed`); the cell at
//! integer coordinates `c` occupies the interval `[c, c + 1]` on each axis.

use crate::camera_3d::{Camera, Eye};
use crate::dense::{cube, cube_fits, grid3_cells, grid3_filled, grid3_get, grid3_set, grid3_side,
    in_cube, Grid3};
use crate::fixed::{diff, minus, plus, product, times, vec3_diff, vec3_scaled, vec3_sum, Vec3};
use crate::voxel::{Index3, VoxelId};
use crate::world::AIR;
use vstd::prelude::*;

verus! {

/// A cube of voxel ids copied out of the world, and where it was cut from.
#[derive(Debug)]
pub struct PhysicsView {
    start: Index3,
    next_start: Index3,
    voxels: Grid3,
    size: u32,
    pending: bool,
}

/// What a `PhysicsView` holds.
pub ghost struct Window {
    /// World coordinates of the window's cell `(0, 0, 0)`.
    pub start: Index3,
    /// Origin of the window that was last asked for.
    pub next_start: Index3,
    /// Length of each side of the window.
    pub size: nat,
    /// Whether a window was asked for and has not arrived yet.
    pub pending: bool,
    /// The voxel id of each cell, by its position inside the window.
    pub cells: Map<(int, int, int), u8>,
}

/// For each axis, whether something holds of it.
#[derive(Copy, Clone, Debug, PartialEq, Eq, Structural)]
pub struct Axes {
    pub x: bool,
    pub y: bool,
    pub z: bool,
}

/// Outcome of testing a box against a window.
#[derive(Copy, Clone, Debug, PartialEq, Eq, Structural)]
pub struct CollisionResult {
    /// The correction to add to the box's position.
    pub shift: Vec3,
    /// Whether the box touches any solid cell.
    pub collided: bool,
    /// The axes on which the box is pushed from both sides.
    pub conflicted: Axes,
}

/// Fixed-point coordinate of the lower face of the cell at `index` in a
/// window that starts at `origin`.
pub open spec fn cell_face(origin: u32, index: int) -> int {
    (origin + index) * 65536
}

/// Whether the interval `[lo, lo + extent]` and the cell whose lower face is
/// at `face` share more than a boundary point.
pub open spec fn axis_overlaps(lo: int, extent: int, face: int) -> bool {
    lo < face + 65536 && lo + extent > face
}

/// The shortest signed move that takes `[lo, lo + extent]` off the cell whose
/// lower face is at `face`: positive past its upper face, negative past its
/// lower face, and upward when both are equally far.
pub open spec fn axis_push(lo: int, extent: int, face: int) -> int {
    let up = face + 65536 - lo;
    let down = face - (lo + extent);
    if up <= -down {
        up
    } else {
        down
    }
}

/// Whether the box `[start, start + size]` overlaps the space of the
/// window's cell `(i, j, k)` on all three axes at once.
pub open spec fn overlapping(w: Window, start: Vec3, size: Vec3, i: int, j: int, k: int) -> bool {
    &&& axis_overlaps(start.x as int, size.x as int, cell_face(w.start.x, i))
    &&& axis_overlaps(start.y as int, size.y as int, cell_face(w.start.y, j))
    &&& axis_overlaps(start.z as int, size.z as int, cell_face(w.start.z, k))
}

/// Whether the box `[start, start + size]` touches the window's cell
/// `(i, j, k)`: the cell is not air and the box overlaps it.
pub open spec fn touching(w: Window, start: Vec3, size: Vec3, i: int, j: int, k: int) -> bool {
    &&& in_cube(w.size as int, i, j, k)
    &&& w.cells[(i, j, k)] != AIR
    &&& overlapping(w, start, size, i, j, k)
}

/// The push that cell `(i, j, k)` exerts on the box along `axis` (0 for x,
/// 1 for y, anything else for z).
pub open spec fn push(w: Window, start: Vec3, size: Vec3, axis: int, i: int, j: int, k: int) -> int {
    if axis == 0 {
        axis_push(start.x as int, size.x as int, cell_face(w.start.x, i))
    } else if axis == 1 {
        axis_push(start.y as int, size.y as int, cell_face(w.start.y, j))
    } else {
        axis_push(start.z as int, size.z as int, cell_face(w.start.z, k))
    }
}

/// `m` is the most negative push along `axis` over all touching cells, or
/// zero when no touching cell pushes that way.
pub open spec fn is_lowest(w: Window, start: Vec3, size: Vec3, axis: int, m: int) -> bool {
    &&& m <= 0
    &&& forall|i: int, j: int, k: int| #[trigger]
        touching(w, start, size, i, j, k) ==> m <= push(w, start, size, axis, i, j, k)
    &&& (m == 0 || exists|i: int, j: int, k: int| #[trigger]
        touching(w, start, size, i, j, k) && push(w, start, size, axis, i, j, k) == m)
}

/// `m` is the most positive push along `axis` over all touching cells, or
/// zero when no touching cell pushes that way.
pub open spec fn is_highest(w: Window, start: Vec3, size: Vec3, axis: int, m: int) -> bool {
    &&& m >= 0
    &&& forall|i: int, j: int, k: int| #[trigger]
        touching(w, start, size, i, j, k) ==> m >= push(w, start, size, axis, i, j, k)
    &&& (m == 0 || exists|i: int, j: int, k: int| #[trigger]
        touching(w, start, size, i, j, k) && push(w, start, size, axis, i, j, k) == m)
}

/// The most negative push along `axis`, zero if there is none.
pub open spec fn lowest(w: Window, start: Vec3, size: Vec3, axis: int) -> int {
    choose|m: int| is_lowest(w, start, size, axis, m)
}

/// The most positive push along `axis`, zero if there is none.
pub open spec fn highest(w: Window, start: Vec3, size: Vec3, axis: int) -> int {
    choose|m: int| is_highest(w, start, size, axis, m)
}

/// Whether some touching cell pushes the box toward lower coordinates along
/// `axis`.
pub open spec fn pushed_down(w: Window, start: Vec3, size: Vec3, axis: int) -> bool {
    exists|i: int, j: int, k: int| #[trigger]
        touching(w, start, size, i, j, k) && push(w, start, size, axis, i, j, k) < 0
}

/// Whether some touching cell pushes the box toward higher coordinates along
/// `axis`.
pub open spec fn pushed_up(w: Window, start: Vec3, size: Vec3, axis: int) -> bool {
    exists|i: int, j: int, k: int| #[trigger]
        touching(w, start, size, i, j, k) && push(w, start, size, axis, i, j, k) > 0
}

/// Whether the box touches any cell of the window.
pub open spec fn touches_any(w: Window, start: Vec3, size: Vec3) -> bool {
    exists|i: int, j: int, k: int| touching(w, start, size, i, j, k)
}

/// The correction along one axis: none when the box is pushed both ways (the
/// axis is conflicted) or not at all, else the farthest push there is.
pub open spec fn axis_shift(w: Window, start: Vec3, size: Vec3, axis: int) -> int {
    if pushed_down(w, start, size, axis) && pushed_up(w, start, size, axis) {
        0
    } else if pushed_down(w, start, size, axis) {
        lowest(w, start, size, axis)
    } else if pushed_up(w, start, size, axis) {
        highest(w, start, size, axis)
    } else {
        0
    }
}

/// The outcome of testing the box `[start, start + size]` against `w`.
pub open spec fn collision(w: Window, start: Vec3, size: Vec3) -> CollisionResult {
    CollisionResult {
        shift: Vec3 {
            x: axis_shift(w, start, size, 0) as i64,
            y: axis_shift(w, start, size, 1) as i64,
            z: axis_shift(w, start, size, 2) as i64,
        },
        collided: touches_any(w, start, size),
        conflicted: Axes {
            x: pushed_down(w, start, size, 0) && pushed_up(w, start, size, 0),
            y: pushed_down(w, start, size, 1) && pushed_up(w, start, size, 1),
            z: pushed_down(w, start, size, 2) && pushed_up(w, start, size, 2),
        },
    }
}

/// What the outside copy is asked for: a cube of `side` cells per axis whose
/// first cell is at `origin`.
#[derive(Copy, Clone, Debug, PartialEq, Eq, Structural)]
pub struct WindowRequest {
    pub origin: Index3,
    pub side: u32,
}

/// Length of one staged row: the window's side, rounded up to a multiple of
/// 256.
pub open spec fn staged_row(side: int) -> int {
    ((side + 255) / 256) * 256
}

/// Length of the staged buffer for a window of the given side.
pub open spec fn staged_len(side: int) -> int {
    staged_row(side) * staged_row(side) * side
}

/// Position of the window's cell `(i, j, k)` in the staged buffer.
pub open spec fn staged_index(side: int, i: int, j: int, k: int) -> int {
    (i * staged_row(side) + j) * side + k
}

/// Where along one axis a window of the given side starts so that `position`
/// lies at its middle: `position - side / 2`, rounded to the nearest cell and
/// kept inside the range of cell coordinates.
pub open spec fn origin_along(position: i64, side: u32) -> u32 {
    let cell = (position - side * 32768 + 32768) / 65536;
    if cell < 0 {
        0
    } else if cell > u32::MAX {
        u32::MAX
    } else {
        cell as u32
    }
}

/// The origin of the window of `w`'s side that is centred on `position`.
pub open spec fn centred_origin(w: Window, position: Vec3) -> Index3 {
    Index3 {
        x: origin_along(position.x, w.size as u32),
        y: origin_along(position.y, w.size as u32),
        z: origin_along(position.z, w.size as u32),
    }
}

/// The request that `request_refresh` makes: none while one is outstanding.
pub open spec fn refresh_request(w: Window, position: Vec3) -> Option<WindowRequest> {
    if w.pending {
        None
    } else {
        Some(WindowRequest { origin: centred_origin(w, position), side: w.size as u32 })
    }
}

/// The view after `request_refresh`.
pub open spec fn refresh_requested(w: Window, position: Vec3) -> Window {
    if w.pending {
        w
    } else {
        Window { next_start: centred_origin(w, position), pending: true, ..w }
    }
}

/// Whether `deliver` accepts the buffer.
pub open spec fn deliverable(w: Window, staged: Seq<u8>) -> bool {
    w.pending && staged.len() == staged_len(w.size as int)
}

/// The view after `deliver`.
pub open spec fn delivered(w: Window, staged: Seq<u8>) -> Window {
    if deliverable(w, staged) {
        Window {
            start: w.next_start,
            pending: false,
            cells: Map::new(
                |c: (int, int, int)| in_cube(w.size as int, c.0, c.1, c.2),
                |c: (int, int, int)| staged[staged_index(w.size as int, c.0, c.1, c.2)],
            ),
            ..w
        }
    } else {
        w
    }
}

/// The array has exactly the cells of a cube of side `n`.
spec fn fresh_dom(g: Grid3, n: int, i: int, j: int, k: int) -> bool {
    grid3_cells(g).dom().contains((i, j, k)) <==> in_cube(n, i, j, k)
}

/// Every cell of the window has a place in the staged buffer.
proof fn lemma_staged_index(n: int, i: int, j: int, k: int)
    requires
        in_cube(n, i, j, k),
    ensures
        n <= staged_row(n),
        0 <= i * staged_row(n) <= i * staged_row(n) + j,
        i * staged_row(n) + j < staged_row(n) * staged_row(n),
        0 <= (i * staged_row(n) + j) * n <= staged_index(n, i, j, k) < staged_len(n),
        staged_row(n) <= staged_row(n) * staged_row(n) <= staged_len(n),
{
    let row = staged_row(n);
    assert(n <= row);
    assert(0 <= i * row && (i + 1) * row <= row * row && i * row + row == (i + 1) * row)
        by (nonlinear_arith)
        requires
            0 <= i < n <= row,
    ;
    let q = i * row + j;
    assert(0 <= q * n && (q + 1) * n <= row * row * n && q * n + n == (q + 1) * n)
        by (nonlinear_arith)
        requires
            0 <= q < row * row,
            0 < n,
    ;
    assert(row <= row * row <= row * row * n) by (nonlinear_arith)
        requires
            0 < n <= row,
    ;
}

/// Length of one staged row for a window of the given side.
pub fn staging_row(size: u32) -> (row: u64)
    ensures
        row == staged_row(size as int),
{
    let n: u64 = size as u64;
    ((n + 255) / 256) * 256
}

/// Length of the staged buffer for a window of the given side.
pub fn staging_len(size: u32) -> (len: u128)
    ensures
        len == staged_len(size as int),
{
    let row: u128 = staging_row(size) as u128;
    let n: u128 = size as u128;
    assert(row * row <= 0x1_0000_0100 * 0x1_0000_0100 && row * row * n <= 0x1_0000_0100
        * 0x1_0000_0100 * 0xffff_ffff) by (nonlinear_arith)
        requires
            0 <= row <= 0x1_0000_0100,
            0 <= n <= 0xffff_ffff,
    ;
    row * row * n
}

/// Where along one axis a window of the given side starts so that `position`
/// lies at its middle.
fn origin_axis(position: i64, size: u32) -> (c: u32)
    ensures
        c == origin_along(position, size),
{
    let shifted: i128 = position as i128 - (size as i128) * 32768 + 32768;
    if shifted < 0 {
        0
    } else {
        let cell: i128 = shifted / 65536;
        if cell > 0xffff_ffff {
            u32::MAX
        } else {
            cell as u32
        }
    }
}

/// Whether cell `(ci, cj, ck)` comes before `(i, j, k)` in row-major order.
spec fn before(i: int, j: int, k: int, ci: int, cj: int, ck: int) -> bool {
    ci < i || (ci == i && (cj < j || (cj == j && ck < k)))
}

/// `is_lowest`, over the cells before `(i, j, k)` only.
spec fn is_lowest_before(
    w: Window,
    start: Vec3,
    size: Vec3,
    axis: int,
    i: int,
    j: int,
    k: int,
    m: int,
) -> bool {
    &&& m <= 0
    &&& forall|ci: int, cj: int, ck: int| #[trigger]
        touching(w, start, size, ci, cj, ck) && before(i, j, k, ci, cj, ck) ==> m <= push(
            w,
            start,
            size,
            axis,
            ci,
            cj,
            ck,
        )
    &&& (m == 0 || exists|ci: int, cj: int, ck: int| #[trigger]
        touching(w, start, size, ci, cj, ck) && before(i, j, k, ci, cj, ck) && push(
            w,
            start,
            size,
            axis,
            ci,
            cj,
            ck,
        ) == m)
}

/// `is_highest`, over the cells before `(i, j, k)` only.
spec fn is_highest_before(
    w: Window,
    start: Vec3,
    size: Vec3,
    axis: int,
    i: int,
    j: int,
    k: int,
    m: int,
) -> bool {
    &&& m >= 0
    &&& forall|ci: int, cj: int, ck: int| #[trigger]
        touching(w, start, size, ci, cj, ck) && before(i, j, k, ci, cj, ck) ==> m >= push(
            w,
            start,
            size,
            axis,
            ci,
            cj,
            ck,
        )
    &&& (m == 0 || exists|ci: int, cj: int, ck: int| #[trigger]
        touching(w, start, size, ci, cj, ck) && before(i, j, k, ci, cj, ck) && push(
            w,
            start,
            size,
            axis,
            ci,
            cj,
            ck,
        ) == m)
}

/// The six running extremes of a scan over the window.
struct Extremes {
    low: Vec3,
    high: Vec3,
}

/// The extremes are those of the cells before `(i, j, k)`.
spec fn extremes_before(w: Window, start: Vec3, size: Vec3, i: int, j: int, k: int, e: Extremes) -> bool {
    &&& is_lowest_before(w, start, size, 0, i, j, k, e.low.x as int)
    &&& is_lowest_before(w, start, size, 1, i, j, k, e.low.y as int)
    &&& is_lowest_before(w, start, size, 2, i, j, k, e.low.z as int)
    &&& is_highest_before(w, start, size, 0, i, j, k, e.high.x as int)
    &&& is_highest_before(w, start, size, 1, i, j, k, e.high.y as int)
    &&& is_highest_before(w, start, size, 2, i, j, k, e.high.z as int)
}

/// At most one value is the lowest push along an axis.
pub proof fn lemma_lowest_unique(w: Window, start: Vec3, size: Vec3, axis: int, m: int)
    requires
        is_lowest(w, start, size, axis, m),
    ensures
        lowest(w, start, size, axis) == m,
{
    let c = lowest(w, start, size, axis);
    assert(is_lowest(w, start, size, axis, c));
    if c < m {
        let (i, j, k) = choose|i: int, j: int, k: int| #[trigger]
            touching(w, start, size, i, j, k) && push(w, start, size, axis, i, j, k) == c;
        assert(m <= push(w, start, size, axis, i, j, k));
    }
    if m < c {
        let (i, j, k) = choose|i: int, j: int, k: int| #[trigger]
            touching(w, start, size, i, j, k) && push(w, start, size, axis, i, j, k) == m;
        assert(c <= push(w, start, size, axis, i, j, k));
    }
}

/// At most one value is the highest push along an axis.
pub proof fn lemma_highest_unique(w: Window, start: Vec3, size: Vec3, axis: int, m: int)
    requires
        is_highest(w, start, size, axis, m),
    ensures
        highest(w, start, size, axis) == m,
{
    let c = highest(w, start, size, axis);
    assert(is_highest(w, start, size, axis, c));
    if c > m {
        let (i, j, k) = choose|i: int, j: int, k: int| #[trigger]
            touching(w, start, size, i, j, k) && push(w, start, size, axis, i, j, k) == c;
        assert(m >= push(w, start, size, axis, i, j, k));
    }
    if m > c {
        let (i, j, k) = choose|i: int, j: int, k: int| #[trigger]
            touching(w, start, size, i, j, k) && push(w, start, size, axis, i, j, k) == m;
        assert(c >= push(w, start, size, axis, i, j, k));
    }
}

/// The push of one cell on the interval `[lo, lo + extent]`, if they overlap.
fn axis_contact(lo: i64, extent: i64, origin: u32, index: u32) -> (r: Option<i64>)
    ensures
        r is Some <==> axis_overlaps(lo as int, extent as int, cell_face(origin, index as int)),
        r matches Some(p) ==> p == axis_push(lo as int, extent as int, cell_face(origin, index as int))
            && p != 0,
{
    let face: i128 = (origin as i128 + index as i128) * 65536;
    let up: i128 = face + 65536 - lo as i128;
    let down: i128 = face - (lo as i128 + extent as i128);
    if up > 0 && down < 0 {
        if up <= -down {
            Some(up as i64)
        } else {
            Some(down as i64)
        }
    } else {
        None
    }
}

impl View for PhysicsView {
    type V = Window;

    closed spec fn view(&self) -> Window {
        Window {
            start: self.start,
            next_start: self.next_start,
            size: self.size as nat,
            pending: self.pending,
            cells: grid3_cells(self.voxels),
        }
    }
}

impl PhysicsView {
    /// The window's array has the side the view was made with.
    pub closed spec fn wf(&self) -> bool {
        &&& grid3_side(self.voxels) == self.size
        &&& cube_fits(self.size as int)
        &&& forall|i: int, j: int, k: int|
            grid3_cells(self.voxels).dom().contains((i, j, k)) <==> in_cube(self.size as int, i, j, k)
    }

    /// Whether a window of the given side can be held in memory.
    pub fn fits(size: u32) -> (ok: bool)
        ensures
            ok == cube_fits(size as int),
    {
        let n: u128 = size as u128;
        assert(n * n <= 0xffff_ffff * 0xffff_ffff && n * n * n <= 0xffff_ffff * 0xffff_ffff
            * 0xffff_ffff) by (nonlinear_arith)
            requires
                0 <= n <= 0xffff_ffff,
        ;
        assert(n * n * n == cube(size as int)) by (nonlinear_arith)
            requires
                n == size,
        ;
        n * n * n <= isize::MAX as u128
    }

    /// An all-air window of the given side at the world's origin, with no
    /// refresh outstanding.
    pub fn new(size: u32) -> (view: PhysicsView)
        requires
            cube_fits(size as int),
        ensures
            view.wf(),
            view@.size == size,
            view@.start == (Index3 { x: 0, y: 0, z: 0 }),
            view@.next_start == (Index3 { x: 0, y: 0, z: 0 }),
            !view@.pending,
            forall|i: int, j: int, k: int|
                in_cube(size as int, i, j, k) ==> #[trigger] view@.cells[(i, j, k)] == AIR,
    {
        PhysicsView {
            start: Index3 { x: 0, y: 0, z: 0 },
            next_start: Index3 { x: 0, y: 0, z: 0 },
            voxels: grid3_filled(size as usize, AIR),
            size,
            pending: false,
        }
    }

    /// Length of each side of the window.
    pub fn size(&self) -> (n: u32)
        ensures
            n == self@.size,
    {
        self.size
    }

    /// World coordinates of the window's first cell.
    pub fn start(&self) -> (c: Index3)
        ensures
            c == self@.start,
    {
        self.start
    }

    /// Origin of the window that was last asked for.
    pub fn next_start(&self) -> (c: Index3)
        ensures
            c == self@.next_start,
    {
        self.next_start
    }

    /// Whether a window was asked for and has not arrived yet.
    pub fn is_pending(&self) -> (b: bool)
        ensures
            b == self@.pending,
    {
        self.pending
    }

    /// The id held by the window's cell `(i, j, k)`, if there is such a cell.
    pub fn cell(&self, i: u32, j: u32, k: u32) -> (id: Option<VoxelId>)
        requires
            self.wf(),
        ensures
            id is Some <==> in_cube(self@.size as int, i as int, j as int, k as int),
            id matches Some(v) ==> v.0 == self@.cells[(i as int, j as int, k as int)],
    {
        if i < self.size && j < self.size && k < self.size {
            Some(VoxelId(grid3_get(&self.voxels, i as usize, j as usize, k as usize)))
        } else {
            None
        }
    }

    /// Asks for a fresh window centred on `position`, unless one is still
    /// outstanding. The cells in use and their origin stay as they are.
    pub fn request_refresh(&mut self, position: Vec3) -> (request: Option<WindowRequest>)
        requires
            old(self).wf(),
        ensures
            final(self).wf(),
            final(self)@ == refresh_requested(old(self)@, position),
            request == refresh_request(old(self)@, position),
    {
        if self.pending {
            return None;
        }
        let origin = Index3 {
            x: origin_axis(position.x, self.size),
            y: origin_axis(position.y, self.size),
            z: origin_axis(position.z, self.size),
        };
        self.next_start = origin;
        self.pending = true;
        Some(WindowRequest { origin, side: self.size })
    }

    /// Takes the answer to the outstanding request. The buffer is accepted
    /// when a request is outstanding and the buffer has the staged length for
    /// this window; its cells then replace the window's, and the window moves
    /// to the origin that was asked for. Otherwise nothing changes.
    pub fn deliver(&mut self, staged: &[u8]) -> (accepted: bool)
        requires
            old(self).wf(),
        ensures
            final(self).wf(),
            accepted == deliverable(old(self)@, staged@),
            final(self)@ == delivered(old(self)@, staged@),
    {
        let expected: u128 = staging_len(self.size);
        if !self.pending || staged.len() as u128 != expected {
            return false;
        }
        let n: usize = self.size as usize;
        proof {
            if n > 0 {
                lemma_staged_index(n as int, 0, 0, 0);
            }
        }
        let row: usize = staging_row(self.size) as usize;
        let mut fresh = grid3_filled(n, AIR);
        let mut i: usize = 0;
        while i < n
            invariant
                self.wf(),
                n == self.size,
                row == staged_row(n as int),
                staged@.len() == staged_len(n as int),
                staged@.len() <= usize::MAX,
                i <= n,
                grid3_side(fresh) == n,
                forall|ci: int, cj: int, ck: int|
                    fresh_dom(fresh, n as int, ci, cj, ck),
                forall|ci: int, cj: int, ck: int|
                    in_cube(n as int, ci, cj, ck) && before(i as int, 0, 0, ci, cj, ck)
                        ==> #[trigger] grid3_cells(fresh)[(ci, cj, ck)] == staged@[staged_index(
                        n as int,
                        ci,
                        cj,
                        ck,
                    )],
            decreases n - i,
        {
            let mut j: usize = 0;
            while j < n
                invariant
                    self.wf(),
                    n == self.size,
                    row == staged_row(n as int),
                    staged@.len() == staged_len(n as int),
                    staged@.len() <= usize::MAX,
                staged@.len() <= usize::MAX,
                    i < n,
                    j <= n,
                    grid3_side(fresh) == n,
                    forall|ci: int, cj: int, ck: int|
                        fresh_dom(fresh, n as int, ci, cj, ck),
                    forall|ci: int, cj: int, ck: int|
                        in_cube(n as int, ci, cj, ck) && before(i as int, j as int, 0, ci, cj, ck)
                            ==> #[trigger] grid3_cells(fresh)[(ci, cj, ck)]
                            == staged@[staged_index(n as int, ci, cj, ck)],
                decreases n - j,
            {
                let mut k: usize = 0;
                while k < n
                    invariant
                        self.wf(),
                        n == self.size,
                        row == staged_row(n as int),
                        staged@.len() == staged_len(n as int),
                        staged@.len() <= usize::MAX,
                    staged@.len() <= usize::MAX,
                staged@.len() <= usize::MAX,
                        i < n,
                        j < n,
                        k <= n,
                        grid3_side(fresh) == n,
                        forall|ci: int, cj: int, ck: int|
                            fresh_dom(fresh, n as int, ci, cj, ck),
                        forall|ci: int, cj: int, ck: int|
                            in_cube(n as int, ci, cj, ck) && before(
                                i as int,
                                j as int,
                                k as int,
                                ci,
                                cj,
                                ck,
                            ) ==> #[trigger] grid3_cells(fresh)[(ci, cj, ck)]
                                == staged@[staged_index(n as int, ci, cj, ck)],
                    decreases n - k,
                {
                    proof {
                        lemma_staged_index(n as int, i as int, j as int, k as int);
                    }
                    let at: usize = (i * row + j) * n + k;
                    let ghost prev = fresh;
                    grid3_set(&mut fresh, i, j, k, staged[at]);
                    proof {
                        assert forall|ci: int, cj: int, ck: int|
                            fresh_dom(fresh, n as int, ci, cj, ck) by {
                            assert(fresh_dom(prev, n as int, ci, cj, ck));
                        }
                    }
                    k = k + 1;
                }
                j = j + 1;
            }
            i = i + 1;
        }
        self.voxels = fresh;
        self.start = self.next_start;
        self.pending = false;
        proof {
            let target = delivered(old(self)@, staged@).cells;
            assert forall|c: (int, int, int)| self@.cells.dom().contains(c) <==> target.dom().contains(
                c,
            ) by {
                assert(fresh_dom(self.voxels, n as int, c.0, c.1, c.2));
                assert(c == (c.0, c.1, c.2));
            }
            assert forall|c: (int, int, int)| self@.cells.dom().contains(c) implies self@.cells[c]
                == target[c] by {
                assert(fresh_dom(self.voxels, n as int, c.0, c.1, c.2));
                assert(c == (c.0, c.1, c.2));
                assert(before(n as int, 0, 0, c.0, c.1, c.2));
            }
            assert(self@.cells =~= target);
        }
        true
    }

    /// Tests the box `[start, start + size]` against every cell of the window.
    pub fn aabb_collide(&self, start: Vec3, size: Vec3) -> (r: CollisionResult)
        requires
            self.wf(),
        ensures
            r == collision(self@, start, size),
    {
        let n: usize = self.size as usize;
        let mut e = Extremes { low: Vec3 { x: 0, y: 0, z: 0 }, high: Vec3 { x: 0, y: 0, z: 0 } };
        let mut i: usize = 0;
        while i < n
            invariant
                self.wf(),
                n == self.size,
                i <= n,
                extremes_before(self@, start, size, i as int, 0, 0, e),
            decreases n - i,
        {
            let mut j: usize = 0;
            while j < n
                invariant
                    self.wf(),
                    n == self.size,
                    i < n,
                    j <= n,
                    extremes_before(self@, start, size, i as int, j as int, 0, e),
                decreases n - j,
            {
                let mut k: usize = 0;
                while k < n
                    invariant
                        self.wf(),
                        n == self.size,
                        i < n,
                        j < n,
                        k <= n,
                        extremes_before(self@, start, size, i as int, j as int, k as int, e),
                    decreases n - k,
                {
                    let id: u8 = grid3_get(&self.voxels, i, j, k);
                    let ghost old_e = e;
                    if id != AIR {
                        let cx = axis_contact(start.x, size.x, self.start.x, i as u32);
                        let cy = axis_contact(start.y, size.y, self.start.y, j as u32);
                        let cz = axis_contact(start.z, size.z, self.start.z, k as u32);
                        match (cx, cy, cz) {
                            (Some(px), Some(py), Some(pz)) => {
                                assert(touching(self@, start, size, i as int, j as int, k as int));
                                if px < e.low.x {
                                    e.low.x = px;
                                }
                                if py < e.low.y {
                                    e.low.y = py;
                                }
                                if pz < e.low.z {
                                    e.low.z = pz;
                                }
                                if px > e.high.x {
                                    e.high.x = px;
                                }
                                if py > e.high.y {
                                    e.high.y = py;
                                }
                                if pz > e.high.z {
                                    e.high.z = pz;
                                }
                            },
                            _ => {
                                assert(!touching(self@, start, size, i as int, j as int, k as int));
                            },
                        }
                    } else {
                        assert(!touching(self@, start, size, i as int, j as int, k as int));
                    }
                    proof {
                        lemma_scan_step(self@, start, size, i as int, j as int, k as int, old_e, e);
                    }
                    k = k + 1;
                }
                proof {
                    lemma_scan_row(self@, start, size, i as int, j as int, e);
                }
                j = j + 1;
            }
            proof {
                lemma_scan_plane(self@, start, size, i as int, e);
            }
            i = i + 1;
        }
        proof {
            lemma_scan_done(self@, start, size, e);
            lemma_extremes_decide(self@, start, size, 0, e.low.x as int, e.high.x as int);
            lemma_extremes_decide(self@, start, size, 1, e.low.y as int, e.high.y as int);
            lemma_extremes_decide(self@, start, size, 2, e.low.z as int, e.high.z as int);
        }
        let conflicted = Axes {
            x: e.low.x != 0 && e.high.x != 0,
            y: e.low.y != 0 && e.high.y != 0,
            z: e.low.z != 0 && e.high.z != 0,
        };
        CollisionResult {
            shift: Vec3 {
                x: pick_shift(e.low.x, e.high.x),
                y: pick_shift(e.low.y, e.high.y),
                z: pick_shift(e.low.z, e.high.z),
            },
            collided: e.low.x != 0 || e.high.x != 0 || e.low.y != 0 || e.high.y != 0 || e.low.z != 0
                || e.high.z != 0,
            conflicted,
        }
    }
}

/// The correction along one axis from the two extremes of its pushes.
fn pick_shift(low: i64, high: i64) -> (s: i64)
    ensures
        s == if low != 0 && high != 0 {
            0
        } else if low == 0 {
            high
        } else {
            low
        },
{
    if low != 0 && high != 0 {
        0
    } else if low == 0 {
        high
    } else {
        low
    }
}

/// What one cell contributes to a running extreme.
spec fn absorbed_low(w: Window, start: Vec3, size: Vec3, axis: int, i: int, j: int, k: int, m: int) -> int {
    if touching(w, start, size, i, j, k) && push(w, start, size, axis, i, j, k) < m {
        push(w, start, size, axis, i, j, k)
    } else {
        m
    }
}

spec fn absorbed_high(w: Window, start: Vec3, size: Vec3, axis: int, i: int, j: int, k: int, m: int) -> int {
    if touching(w, start, size, i, j, k) && push(w, start, size, axis, i, j, k) > m {
        push(w, start, size, axis, i, j, k)
    } else {
        m
    }
}

proof fn lemma_low_step(w: Window, start: Vec3, size: Vec3, axis: int, i: int, j: int, k: int, m: int)
    requires
        is_lowest_before(w, start, size, axis, i, j, k, m),
    ensures
        is_lowest_before(w, start, size, axis, i, j, k + 1, absorbed_low(w, start, size, axis, i, j, k, m)),
{
    let m2 = absorbed_low(w, start, size, axis, i, j, k, m);
    assert forall|ci: int, cj: int, ck: int| #[trigger]
        touching(w, start, size, ci, cj, ck) && before(i, j, k + 1, ci, cj, ck) implies m2 <= push(
        w,
        start,
        size,
        axis,
        ci,
        cj,
        ck,
    ) by {
        if before(i, j, k, ci, cj, ck) {
        } else {
            assert(ci == i && cj == j && ck == k);
        }
    }
    if m2 != 0 {
        if m2 == m {
            let (ci, cj, ck) = choose|ci: int, cj: int, ck: int| #[trigger]
                touching(w, start, size, ci, cj, ck) && before(i, j, k, ci, cj, ck) && push(
                    w,
                    start,
                    size,
                    axis,
                    ci,
                    cj,
                    ck,
                ) == m;
            assert(touching(w, start, size, ci, cj, ck) && before(i, j, k + 1, ci, cj, ck) && push(
                w,
                start,
                size,
                axis,
                ci,
                cj,
                ck,
            ) == m2);
        } else {
            assert(touching(w, start, size, i, j, k) && before(i, j, k + 1, i, j, k) && push(
                w,
                start,
                size,
                axis,
                i,
                j,
                k,
            ) == m2);
        }
    }
}

proof fn lemma_high_step(w: Window, start: Vec3, size: Vec3, axis: int, i: int, j: int, k: int, m: int)
    requires
        is_highest_before(w, start, size, axis, i, j, k, m),
    ensures
        is_highest_before(w, start, size, axis, i, j, k + 1, absorbed_high(w, start, size, axis, i, j, k, m)),
{
    let m2 = absorbed_high(w, start, size, axis, i, j, k, m);
    assert forall|ci: int, cj: int, ck: int| #[trigger]
        touching(w, start, size, ci, cj, ck) && before(i, j, k + 1, ci, cj, ck) implies m2 >= push(
        w,
        start,
        size,
        axis,
        ci,
        cj,
        ck,
    ) by {
        if before(i, j, k, ci, cj, ck) {
        } else {
            assert(ci == i && cj == j && ck == k);
        }
    }
    if m2 != 0 {
        if m2 == m {
            let (ci, cj, ck) = choose|ci: int, cj: int, ck: int| #[trigger]
                touching(w, start, size, ci, cj, ck) && before(i, j, k, ci, cj, ck) && push(
                    w,
                    start,
                    size,
                    axis,
                    ci,
                    cj,
                    ck,
                ) == m;
            assert(touching(w, start, size, ci, cj, ck) && before(i, j, k + 1, ci, cj, ck) && push(
                w,
                start,
                size,
                axis,
                ci,
                cj,
                ck,
            ) == m2);
        } else {
            assert(touching(w, start, size, i, j, k) && before(i, j, k + 1, i, j, k) && push(
                w,
                start,
                size,
                axis,
                i,
                j,
                k,
            ) == m2);
        }
    }
}

/// Scanning cell `(i, j, k)` extends the extremes by that cell.
proof fn lemma_scan_step(w: Window, start: Vec3, size: Vec3, i: int, j: int, k: int, e: Extremes, f: Extremes)
    requires
        extremes_before(w, start, size, i, j, k, e),
        f.low.x == absorbed_low(w, start, size, 0, i, j, k, e.low.x as int),
        f.low.y == absorbed_low(w, start, size, 1, i, j, k, e.low.y as int),
        f.low.z == absorbed_low(w, start, size, 2, i, j, k, e.low.z as int),
        f.high.x == absorbed_high(w, start, size, 0, i, j, k, e.high.x as int),
        f.high.y == absorbed_high(w, start, size, 1, i, j, k, e.high.y as int),
        f.high.z == absorbed_high(w, start, size, 2, i, j, k, e.high.z as int),
    ensures
        extremes_before(w, start, size, i, j, k + 1, f),
{
    lemma_low_step(w, start, size, 0, i, j, k, e.low.x as int);
    lemma_low_step(w, start, size, 1, i, j, k, e.low.y as int);
    lemma_low_step(w, start, size, 2, i, j, k, e.low.z as int);
    lemma_high_step(w, start, size, 0, i, j, k, e.high.x as int);
    lemma_high_step(w, start, size, 1, i, j, k, e.high.y as int);
    lemma_high_step(w, start, size, 2, i, j, k, e.high.z as int);
}

proof fn lemma_low_shift(
    w: Window,
    start: Vec3,
    size: Vec3,
    axis: int,
    i: int,
    j: int,
    k: int,
    i2: int,
    j2: int,
    k2: int,
    m: int,
)
    requires
        is_lowest_before(w, start, size, axis, i, j, k, m),
        forall|ci: int, cj: int, ck: int|
            in_cube(w.size as int, ci, cj, ck) ==> (before(i, j, k, ci, cj, ck) <==> before(
                i2,
                j2,
                k2,
                ci,
                cj,
                ck,
            )),
    ensures
        is_lowest_before(w, start, size, axis, i2, j2, k2, m),
{
    if m != 0 {
        let (ci, cj, ck) = choose|ci: int, cj: int, ck: int| #[trigger]
            touching(w, start, size, ci, cj, ck) && before(i, j, k, ci, cj, ck) && push(
                w,
                start,
                size,
                axis,
                ci,
                cj,
                ck,
            ) == m;
        assert(touching(w, start, size, ci, cj, ck) && before(i2, j2, k2, ci, cj, ck) && push(
            w,
            start,
            size,
            axis,
            ci,
            cj,
            ck,
        ) == m);
    }
}

proof fn lemma_high_shift(
    w: Window,
    start: Vec3,
    size: Vec3,
    axis: int,
    i: int,
    j: int,
    k: int,
    i2: int,
    j2: int,
    k2: int,
    m: int,
)
    requires
        is_highest_before(w, start, size, axis, i, j, k, m),
        forall|ci: int, cj: int, ck: int|
            in_cube(w.size as int, ci, cj, ck) ==> (before(i, j, k, ci, cj, ck) <==> before(
                i2,
                j2,
                k2,
                ci,
                cj,
                ck,
            )),
    ensures
        is_highest_before(w, start, size, axis, i2, j2, k2, m),
{
    if m != 0 {
        let (ci, cj, ck) = choose|ci: int, cj: int, ck: int| #[trigger]
            touching(w, start, size, ci, cj, ck) && before(i, j, k, ci, cj, ck) && push(
                w,
                start,
                size,
                axis,
                ci,
                cj,
                ck,
            ) == m;
        assert(touching(w, start, size, ci, cj, ck) && before(i2, j2, k2, ci, cj, ck) && push(
            w,
            start,
            size,
            axis,
            ci,
            cj,
            ck,
        ) == m);
    }
}

proof fn lemma_scan_shift(
    w: Window,
    start: Vec3,
    size: Vec3,
    i: int,
    j: int,
    k: int,
    i2: int,
    j2: int,
    k2: int,
    e: Extremes,
)
    requires
        extremes_before(w, start, size, i, j, k, e),
        forall|ci: int, cj: int, ck: int|
            in_cube(w.size as int, ci, cj, ck) ==> (before(i, j, k, ci, cj, ck) <==> before(
                i2,
                j2,
                k2,
                ci,
                cj,
                ck,
            )),
    ensures
        extremes_before(w, start, size, i2, j2, k2, e),
{
    lemma_low_shift(w, start, size, 0, i, j, k, i2, j2, k2, e.low.x as int);
    lemma_low_shift(w, start, size, 1, i, j, k, i2, j2, k2, e.low.y as int);
    lemma_low_shift(w, start, size, 2, i, j, k, i2, j2, k2, e.low.z as int);
    lemma_high_shift(w, start, size, 0, i, j, k, i2, j2, k2, e.high.x as int);
    lemma_high_shift(w, start, size, 1, i, j, k, i2, j2, k2, e.high.y as int);
    lemma_high_shift(w, start, size, 2, i, j, k, i2, j2, k2, e.high.z as int);
}

/// The end of a row is the start of the next.
proof fn lemma_scan_row(w: Window, start: Vec3, size: Vec3, i: int, j: int, e: Extremes)
    requires
        extremes_before(w, start, size, i, j, w.size as int, e),
    ensures
        extremes_before(w, start, size, i, j + 1, 0, e),
{
    lemma_scan_shift(w, start, size, i, j, w.size as int, i, j + 1, 0, e);
}

/// The end of a plane is the start of the next.
proof fn lemma_scan_plane(w: Window, start: Vec3, size: Vec3, i: int, e: Extremes)
    requires
        extremes_before(w, start, size, i, w.size as int, 0, e),
    ensures
        extremes_before(w, start, size, i + 1, 0, 0, e),
{
    lemma_scan_shift(w, start, size, i, w.size as int, 0, i + 1, 0, 0, e);
}

/// After the last plane the extremes are those of the whole window.
proof fn lemma_scan_done(w: Window, start: Vec3, size: Vec3, e: Extremes)
    requires
        extremes_before(w, start, size, w.size as int, 0, 0, e),
    ensures
        is_lowest(w, start, size, 0, e.low.x as int),
        is_lowest(w, start, size, 1, e.low.y as int),
        is_lowest(w, start, size, 2, e.low.z as int),
        is_highest(w, start, size, 0, e.high.x as int),
        is_highest(w, start, size, 1, e.high.y as int),
        is_highest(w, start, size, 2, e.high.z as int),
{
    lemma_low_done(w, start, size, 0, e.low.x as int);
    lemma_low_done(w, start, size, 1, e.low.y as int);
    lemma_low_done(w, start, size, 2, e.low.z as int);
    lemma_high_done(w, start, size, 0, e.high.x as int);
    lemma_high_done(w, start, size, 1, e.high.y as int);
    lemma_high_done(w, start, size, 2, e.high.z as int);
}

/// What the two extremes along an axis say about the pushes along it.
pub proof fn lemma_extremes_decide(w: Window, start: Vec3, size: Vec3, axis: int, low: int, high: int)
    requires
        is_lowest(w, start, size, axis, low),
        is_highest(w, start, size, axis, high),
    ensures
        lowest(w, start, size, axis) == low,
        highest(w, start, size, axis) == high,
        pushed_down(w, start, size, axis) <==> low != 0,
        pushed_up(w, start, size, axis) <==> high != 0,
        touches_any(w, start, size) <==> low != 0 || high != 0,
{
    lemma_lowest_unique(w, start, size, axis, low);
    lemma_highest_unique(w, start, size, axis, high);
    if low != 0 {
        let (i, j, k) = choose|i: int, j: int, k: int| #[trigger]
            touching(w, start, size, i, j, k) && push(w, start, size, axis, i, j, k) == low;
        assert(touching(w, start, size, i, j, k) && push(w, start, size, axis, i, j, k) < 0);
    }
    if high != 0 {
        let (i, j, k) = choose|i: int, j: int, k: int| #[trigger]
            touching(w, start, size, i, j, k) && push(w, start, size, axis, i, j, k) == high;
        assert(touching(w, start, size, i, j, k) && push(w, start, size, axis, i, j, k) > 0);
    }
    if touches_any(w, start, size) {
        let (i, j, k) = choose|i: int, j: int, k: int| touching(w, start, size, i, j, k);
        assert(push(w, start, size, axis, i, j, k) != 0);
        assert(low <= push(w, start, size, axis, i, j, k) <= high);
    }
}

proof fn lemma_low_done(w: Window, start: Vec3, size: Vec3, axis: int, m: int)
    requires
        is_lowest_before(w, start, size, axis, w.size as int, 0, 0, m),
    ensures
        is_lowest(w, start, size, axis, m),
{
    assert forall|i: int, j: int, k: int| #[trigger] touching(w, start, size, i, j, k) implies m
        <= push(w, start, size, axis, i, j, k) by {
        assert(before(w.size as int, 0, 0, i, j, k));
    }
    if m != 0 {
        let (ci, cj, ck) = choose|ci: int, cj: int, ck: int| #[trigger]
            touching(w, start, size, ci, cj, ck) && before(w.size as int, 0, 0, ci, cj, ck) && push(
                w,
                start,
                size,
                axis,
                ci,
                cj,
                ck,
            ) == m;
        assert(touching(w, start, size, ci, cj, ck) && push(w, start, size, axis, ci, cj, ck) == m);
    }
}

proof fn lemma_high_done(w: Window, start: Vec3, size: Vec3, axis: int, m: int)
    requires
        is_highest_before(w, start, size, axis, w.size as int, 0, 0, m),
    ensures
        is_highest(w, start, size, axis, m),
{
    assert forall|i: int, j: int, k: int| #[trigger] touching(w, start, size, i, j, k) implies m
        >= push(w, start, size, axis, i, j, k) by {
        assert(before(w.size as int, 0, 0, i, j, k));
    }
    if m != 0 {
        let (ci, cj, ck) = choose|ci: int, cj: int, ck: int| #[trigger]
            touching(w, start, size, ci, cj, ck) && before(w.size as int, 0, 0, ci, cj, ck) && push(
                w,
                start,
                size,
                axis,
                ci,
                cj,
                ck,
            ) == m;
        assert(touching(w, start, size, ci, cj, ck) && push(w, start, size, axis, ci, cj, ck) == m);
    }
}

proof fn lemma_low_before_exists(w: Window, start: Vec3, size: Vec3, axis: int, i: int, j: int, k: int)
    requires
        0 <= i,
        0 <= j,
        0 <= k,
    ensures
        exists|m: int| is_lowest_before(w, start, size, axis, i, j, k, m),
    decreases i, j, k,
{
    let n = w.size as int;
    if k > 0 {
        let kp = k - 1;
        lemma_low_before_exists(w, start, size, axis, i, j, kp);
        let m = choose|m: int| is_lowest_before(w, start, size, axis, i, j, kp, m);
        lemma_low_step(w, start, size, axis, i, j, kp, m);
        assert(is_lowest_before(w, start, size, axis, i, j, k, absorbed_low(w, start, size, axis, i, j, kp, m)));
    } else if j > 0 {
        let jp = j - 1;
        lemma_low_before_exists(w, start, size, axis, i, jp, n);
        let m = choose|m: int| is_lowest_before(w, start, size, axis, i, jp, n, m);
        lemma_low_shift(w, start, size, axis, i, jp, n, i, j, 0, m);
    } else if i > 0 {
        let ip = i - 1;
        lemma_low_before_exists(w, start, size, axis, ip, n, 0);
        let m = choose|m: int| is_lowest_before(w, start, size, axis, ip, n, 0, m);
        lemma_low_shift(w, start, size, axis, ip, n, 0, i, 0, 0, m);
    } else {
        assert(is_lowest_before(w, start, size, axis, 0, 0, 0, 0));
    }
}

proof fn lemma_high_before_exists(w: Window, start: Vec3, size: Vec3, axis: int, i: int, j: int, k: int)
    requires
        0 <= i,
        0 <= j,
        0 <= k,
    ensures
        exists|m: int| is_highest_before(w, start, size, axis, i, j, k, m),
    decreases i, j, k,
{
    let n = w.size as int;
    if k > 0 {
        let kp = k - 1;
        lemma_high_before_exists(w, start, size, axis, i, j, kp);
        let m = choose|m: int| is_highest_before(w, start, size, axis, i, j, kp, m);
        lemma_high_step(w, start, size, axis, i, j, kp, m);
        assert(is_highest_before(w, start, size, axis, i, j, k, absorbed_high(w, start, size, axis, i, j, kp, m)));
    } else if j > 0 {
        let jp = j - 1;
        lemma_high_before_exists(w, start, size, axis, i, jp, n);
        let m = choose|m: int| is_highest_before(w, start, size, axis, i, jp, n, m);
        lemma_high_shift(w, start, size, axis, i, jp, n, i, j, 0, m);
    } else if i > 0 {
        let ip = i - 1;
        lemma_high_before_exists(w, start, size, axis, ip, n, 0);
        let m = choose|m: int| is_highest_before(w, start, size, axis, ip, n, 0, m);
        lemma_high_shift(w, start, size, axis, ip, n, 0, i, 0, 0, m);
    } else {
        assert(is_highest_before(w, start, size, axis, 0, 0, 0, 0));
    }
}

/// Every window has a lowest and a highest push along every axis: `lowest`
/// and `highest` are what their names say.
pub proof fn lemma_extremes_exist(w: Window, start: Vec3, size: Vec3, axis: int)
    ensures
        is_lowest(w, start, size, axis, lowest(w, start, size, axis)),
        is_highest(w, start, size, axis, highest(w, start, size, axis)),
{
    let n = w.size as int;
    lemma_low_before_exists(w, start, size, axis, n, 0, 0);
    let low = choose|m: int| is_lowest_before(w, start, size, axis, n, 0, 0, m);
    lemma_low_done(w, start, size, axis, low);
    lemma_high_before_exists(w, start, size, axis, n, 0, 0);
    let high = choose|m: int| is_highest_before(w, start, size, axis, n, 0, 0, m);
    lemma_high_done(w, start, size, axis, high);
}

/// What an agent is made of.
#[derive(Copy, Clone, Debug, PartialEq, Eq, Structural)]
pub struct PlayerStats {
    /// How strongly the air slows the agent down.
    pub air_friction: i64,
    /// Scale of the acceleration that movement input gives.
    pub movement_acceleration: i64,
    /// Upward speed of a jump.
    pub jump_velocity: i64,
    /// Half the extent of the agent's bounding box along each axis.
    pub size: Vec3,
    /// Downward acceleration.
    pub gravity: i64,
}

/// An agent that moves through the voxel world.
#[derive(Copy, Clone, Debug, PartialEq, Eq, Structural)]
pub struct Player {
    position: Vec3,
    velocity: Vec3,
    stats: PlayerStats,
    dead: bool,
}

/// What a `Player` holds.
pub ghost struct Agent {
    /// Centre of the bounding box.
    pub position: Vec3,
    pub velocity: Vec3,
    pub stats: PlayerStats,
    /// Whether the agent was crushed. A dead agent never moves again.
    pub dead: bool,
}

/// Lower corner of the agent's bounding box.
pub open spec fn box_start(a: Agent) -> Vec3 {
    vec3_diff(a.position, a.stats.size)
}

/// Extent of the agent's bounding box: twice its half-extent.
pub open spec fn box_size(a: Agent) -> Vec3 {
    vec3_sum(a.stats.size, a.stats.size)
}

/// The acceleration of an agent: gravity along `-z` and air friction against
/// the velocity.
pub open spec fn acceleration(a: Agent) -> Vec3 {
    Vec3 {
        x: diff(0, product(a.stats.air_friction, a.velocity.x)),
        y: diff(0, product(a.stats.air_friction, a.velocity.y)),
        z: diff(diff(0, a.stats.gravity), product(a.stats.air_friction, a.velocity.z)),
    }
}

/// The agent after `timestep` of free motion: the velocity changes by the
/// acceleration, then the position by the new velocity.
pub open spec fn integrated(a: Agent, timestep: i64) -> Agent {
    let velocity = vec3_sum(a.velocity, vec3_scaled(acceleration(a), timestep));
    Agent { position: vec3_sum(a.position, vec3_scaled(velocity, timestep)), velocity, ..a }
}

/// The velocity after a correction: stopped on every axis along which the
/// agent was moved.
pub open spec fn damped(velocity: Vec3, shift: Vec3) -> Vec3 {
    Vec3 {
        x: if shift.x == 0 { velocity.x } else { 0 },
        y: if shift.y == 0 { velocity.y } else { 0 },
        z: if shift.z == 0 { velocity.z } else { 0 },
    }
}

/// The agent moved by the correction of a collision.
pub open spec fn corrected(a: Agent, shift: Vec3) -> Agent {
    Agent { position: vec3_sum(a.position, shift), velocity: damped(a.velocity, shift), ..a }
}

/// The agent after its collision with the window is resolved. An agent that
/// touches nothing stays as it is. One that is conflicted on every axis dies
/// where it is. Any other is corrected once, and dies if it still touches
/// something.
pub open spec fn resolved(a: Agent, w: Window) -> Agent {
    let hit = collision(w, box_start(a), box_size(a));
    if !hit.collided {
        a
    } else if hit.conflicted.x && hit.conflicted.y && hit.conflicted.z {
        Agent { dead: true, ..a }
    } else {
        let moved = corrected(a, hit.shift);
        if collision(w, box_start(moved), box_size(moved)).collided {
            Agent { dead: true, ..moved }
        } else {
            moved
        }
    }
}

/// The agent one time step later.
pub open spec fn stepped(a: Agent, w: Window, timestep: i64) -> Agent {
    if a.dead {
        a
    } else {
        resolved(integrated(a, timestep), w)
    }
}

impl View for Player {
    type V = Agent;

    closed spec fn view(&self) -> Agent {
        Agent { position: self.position, velocity: self.velocity, stats: self.stats, dead: self.dead }
    }
}

impl Player {
    /// A live agent at rest at `position`.
    pub fn new(position: Vec3, stats: PlayerStats) -> (player: Player)
        ensures
            player@ == (Agent { position, velocity: Vec3 { x: 0, y: 0, z: 0 }, stats, dead: false }),
    {
        Player { position, velocity: Vec3 { x: 0, y: 0, z: 0 }, stats, dead: false }
    }

    /// Centre of the agent's bounding box.
    pub fn position(&self) -> (p: Vec3)
        ensures
            p == self@.position,
    {
        self.position
    }

    /// The agent's velocity.
    pub fn velocity(&self) -> (v: Vec3)
        ensures
            v == self@.velocity,
    {
        self.velocity
    }

    /// What the agent is made of.
    pub fn stats(&self) -> (s: PlayerStats)
        ensures
            s == self@.stats,
    {
        self.stats
    }

    /// Whether the agent was crushed.
    pub fn is_dead(&self) -> (d: bool)
        ensures
            d == self@.dead,
    {
        self.dead
    }

    /// Gives a live agent a new velocity. A dead agent stays as it is.
    pub fn set_velocity(&mut self, velocity: Vec3)
        ensures
            final(self)@ == if old(self)@.dead {
                old(self)@
            } else {
                Agent { velocity, ..old(self)@ }
            },
    {
        if !self.dead {
            self.velocity = velocity;
        }
    }

    /// Advances the agent by `timestep` against the window in `view`.
    pub fn update_physics(&mut self, view: &PhysicsView, timestep: i64)
        requires
            view.wf(),
        ensures
            final(self)@ == stepped(old(self)@, view@, timestep),
    {
        if self.dead {
            return ;
        }
        let stats = self.stats;
        let acceleration = Vec3 {
            x: minus(0, times(stats.air_friction, self.velocity.x)),
            y: minus(0, times(stats.air_friction, self.velocity.y)),
            z: minus(minus(0, stats.gravity), times(stats.air_friction, self.velocity.z)),
        };
        self.velocity = self.velocity.plus(acceleration.scaled(timestep));
        self.position = self.position.plus(self.velocity.scaled(timestep));
        let extent = stats.size.plus(stats.size);
        let hit = view.aabb_collide(self.position.minus(stats.size), extent);
        if !hit.collided {
            return ;
        }
        if hit.conflicted.x && hit.conflicted.y && hit.conflicted.z {
            self.dead = true;
            return ;
        }
        self.position = self.position.plus(hit.shift);
        self.velocity = Vec3 {
            x: if hit.shift.x == 0 { self.velocity.x } else { 0 },
            y: if hit.shift.y == 0 { self.velocity.y } else { 0 },
            z: if hit.shift.z == 0 { self.velocity.z } else { 0 },
        };
        if view.aabb_collide(self.position.minus(stats.size), extent).collided {
            self.dead = true;
        }
    }
}

/// The outcome of a test that finds nothing.
pub open spec fn no_collision() -> CollisionResult {
    CollisionResult {
        shift: Vec3 { x: 0, y: 0, z: 0 },
        collided: false,
        conflicted: Axes { x: false, y: false, z: false },
    }
}

/// A box in open air: when every cell that the box overlaps holds air, the
/// test reports no collision, no conflict and no correction.
pub proof fn lemma_open_air(w: Window, start: Vec3, size: Vec3)
    requires
        forall|i: int, j: int, k: int|
            in_cube(w.size as int, i, j, k) && #[trigger] overlapping(w, start, size, i, j, k)
                ==> w.cells[(i, j, k)] == AIR,
    ensures
        collision(w, start, size) == no_collision(),
{
    assert forall|i: int, j: int, k: int| !touching(w, start, size, i, j, k) by {
        if in_cube(w.size as int, i, j, k) && overlapping(w, start, size, i, j, k) {
        }
    }
}

/// An agent in open air: when every cell that its box overlaps after free
/// motion holds air, the step is free motion alone. The collision response
/// changes neither velocity nor position, and the agent stays alive.
pub proof fn lemma_open_air_step(a: Agent, w: Window, timestep: i64)
    requires
        !a.dead,
        forall|i: int, j: int, k: int|
            in_cube(w.size as int, i, j, k) && #[trigger] overlapping(
                w,
                box_start(integrated(a, timestep)),
                box_size(integrated(a, timestep)),
                i,
                j,
                k,
            ) ==> w.cells[(i, j, k)] == AIR,
    ensures
        stepped(a, w, timestep) == integrated(a, timestep),
        !stepped(a, w, timestep).dead,
{
    let moved = integrated(a, timestep);
    lemma_open_air(w, box_start(moved), box_size(moved));
}

/// A crushed agent: one whose box is pushed both ways along every axis is
/// marked dead and is not moved.
pub proof fn lemma_crushed(a: Agent, w: Window)
    requires
        pushed_down(w, box_start(a), box_size(a), 0) && pushed_up(w, box_start(a), box_size(a), 0),
        pushed_down(w, box_start(a), box_size(a), 1) && pushed_up(w, box_start(a), box_size(a), 1),
        pushed_down(w, box_start(a), box_size(a), 2) && pushed_up(w, box_start(a), box_size(a), 2),
    ensures
        resolved(a, w) == (Agent { dead: true, ..a }),
{
    let (i, j, k) = choose|i: int, j: int, k: int| #[trigger]
        touching(w, box_start(a), box_size(a), i, j, k) && push(
            w,
            box_start(a),
            box_size(a),
            0,
            i,
            j,
            k,
        ) < 0;
    assert(touching(w, box_start(a), box_size(a), i, j, k));
}

/// Death is final: a dead agent is left as it is by every step.
pub proof fn lemma_dead_stays(a: Agent, w: Window, timestep: i64)
    requires
        a.dead,
    ensures
        stepped(a, w, timestep) == a,
{
}

/// A survivor stands free: an agent that is alive after a step touches no
/// cell of the window it was stepped against.
pub proof fn lemma_survivor_is_free(a: Agent, w: Window, timestep: i64)
    requires
        !a.dead,
        !stepped(a, w, timestep).dead,
    ensures
        !touches_any(
            w,
            box_start(stepped(a, w, timestep)),
            box_size(stepped(a, w, timestep)),
        ),
{
}

/// An agent standing in a floor: when the cells that its box touches push it
/// upward only, the correction lifts the bottom of the box exactly onto the
/// highest top face among those cells and stops the vertical motion. Along a
/// horizontal axis the velocity is kept whenever the agent is not moved along
/// that axis.
pub proof fn lemma_lifted_onto_floor(a: Agent, w: Window)
    requires
        pushed_up(w, box_start(a), box_size(a), 2),
        !pushed_down(w, box_start(a), box_size(a), 2),
    ensures
        ({
            let hit = collision(w, box_start(a), box_size(a));
            let after = corrected(a, hit.shift);
            let bottom = box_start(a).z + hit.shift.z;
            &&& hit.collided
            &&& !hit.conflicted.z
            &&& hit.shift.z > 0
            &&& after.velocity.z == 0
            &&& hit.shift.x == 0 ==> after.velocity.x == a.velocity.x
            &&& hit.shift.y == 0 ==> after.velocity.y == a.velocity.y
            &&& forall|i: int, j: int, k: int| #[trigger]
                touching(w, box_start(a), box_size(a), i, j, k) ==> cell_face(w.start.z, k) + 65536
                    <= bottom
            &&& exists|i: int, j: int, k: int| #[trigger]
                touching(w, box_start(a), box_size(a), i, j, k) && cell_face(w.start.z, k) + 65536
                    == bottom
        }),
{
    let start = box_start(a);
    let size = box_size(a);
    lemma_extremes_exist(w, start, size, 2);
    let high = highest(w, start, size, 2);
    lemma_push_fits(w, start, size, 2);
    let (i, j, k) = choose|i: int, j: int, k: int| #[trigger]
        touching(w, start, size, i, j, k) && push(w, start, size, 2, i, j, k) > 0;
    assert(touching(w, start, size, i, j, k));
    assert(high >= push(w, start, size, 2, i, j, k));
    let (ti, tj, tk) = choose|i: int, j: int, k: int| #[trigger]
        touching(w, start, size, i, j, k) && push(w, start, size, 2, i, j, k) == high;
    assert(touching(w, start, size, ti, tj, tk) && cell_face(w.start.z, tk) + 65536 == start.z + high);
    assert forall|ci: int, cj: int, ck: int| #[trigger]
        touching(w, start, size, ci, cj, ck) implies cell_face(w.start.z, ck) + 65536 <= start.z
        + high by {
        assert(push(w, start, size, 2, ci, cj, ck) <= high);
        if push(w, start, size, 2, ci, cj, ck) < 0 {
            assert(pushed_down(w, start, size, 2));
        }
    }
}

/// Every push of a touching cell, and so every extreme and every correction,
/// is a 64-bit value.
pub proof fn lemma_push_fits(w: Window, start: Vec3, size: Vec3, axis: int)
    ensures
        forall|i: int, j: int, k: int| #[trigger]
            touching(w, start, size, i, j, k) ==> i64::MIN <= push(w, start, size, axis, i, j, k)
                <= i64::MAX,
        i64::MIN <= lowest(w, start, size, axis) <= 0,
        0 <= highest(w, start, size, axis) <= i64::MAX,
        i64::MIN <= axis_shift(w, start, size, axis) <= i64::MAX,
{
    lemma_extremes_exist(w, start, size, axis);
    let low = lowest(w, start, size, axis);
    let high = highest(w, start, size, axis);
    if low != 0 {
        let (i, j, k) = choose|i: int, j: int, k: int| #[trigger]
            touching(w, start, size, i, j, k) && push(w, start, size, axis, i, j, k) == low;
        assert(touching(w, start, size, i, j, k));
    }
    if high != 0 {
        let (i, j, k) = choose|i: int, j: int, k: int| #[trigger]
            touching(w, start, size, i, j, k) && push(w, start, size, axis, i, j, k) == high;
        assert(touching(w, start, size, i, j, k));
    }
}

/// The test reads the window's cells, origin and side, and nothing else.
pub proof fn lemma_collision_reads_window(v: Window, w: Window, start: Vec3, size: Vec3)
    requires
        v.cells == w.cells,
        v.start == w.start,
        v.size == w.size,
    ensures
        collision(v, start, size) == collision(w, start, size),
{
    assert forall|i: int, j: int, k: int|
        touching(v, start, size, i, j, k) == touching(w, start, size, i, j, k) by {}
    assert(touches_any(v, start, size) == touches_any(w, start, size)) by {
        if touches_any(v, start, size) {
            let (i, j, k) = choose|i: int, j: int, k: int| touching(v, start, size, i, j, k);
            assert(touching(w, start, size, i, j, k));
        }
        if touches_any(w, start, size) {
            let (i, j, k) = choose|i: int, j: int, k: int| touching(w, start, size, i, j, k);
            assert(touching(v, start, size, i, j, k));
        }
    }
    lemma_axis_reads_window(v, w, start, size, 0);
    lemma_axis_reads_window(v, w, start, size, 1);
    lemma_axis_reads_window(v, w, start, size, 2);
}

proof fn lemma_axis_reads_window(v: Window, w: Window, start: Vec3, size: Vec3, axis: int)
    requires
        v.cells == w.cells,
        v.start == w.start,
        v.size == w.size,
    ensures
        pushed_down(v, start, size, axis) == pushed_down(w, start, size, axis),
        pushed_up(v, start, size, axis) == pushed_up(w, start, size, axis),
        lowest(v, start, size, axis) == lowest(w, start, size, axis),
        highest(v, start, size, axis) == highest(w, start, size, axis),
{
    assert forall|i: int, j: int, k: int|
        touching(v, start, size, i, j, k) == touching(w, start, size, i, j, k) && push(
            v,
            start,
            size,
            axis,
            i,
            j,
            k,
        ) == push(w, start, size, axis, i, j, k) by {}
    lemma_extremes_exist(v, start, size, axis);
    lemma_extremes_exist(w, start, size, axis);
    let low = lowest(v, start, size, axis);
    let high = highest(v, start, size, axis);
    assert(is_lowest(w, start, size, axis, low)) by {
        if low != 0 {
            let (i, j, k) = choose|i: int, j: int, k: int| #[trigger]
                touching(v, start, size, i, j, k) && push(v, start, size, axis, i, j, k) == low;
            assert(touching(w, start, size, i, j, k) && push(w, start, size, axis, i, j, k) == low);
        }
        assert forall|i: int, j: int, k: int| #[trigger]
            touching(w, start, size, i, j, k) implies low <= push(w, start, size, axis, i, j, k) by {
            assert(touching(v, start, size, i, j, k));
        }
    }
    assert(is_highest(w, start, size, axis, high)) by {
        if high != 0 {
            let (i, j, k) = choose|i: int, j: int, k: int| #[trigger]
                touching(v, start, size, i, j, k) && push(v, start, size, axis, i, j, k) == high;
            assert(touching(w, start, size, i, j, k) && push(w, start, size, axis, i, j, k) == high);
        }
        assert forall|i: int, j: int, k: int| #[trigger]
            touching(w, start, size, i, j, k) implies high >= push(w, start, size, axis, i, j, k) by {
            assert(touching(v, start, size, i, j, k));
        }
    }
    lemma_extremes_decide(w, start, size, axis, low, high);
    lemma_extremes_decide(v, start, size, axis, low, high);
}

/// A stale window: until a delivery is accepted, asking for a refresh and
/// offering a buffer that is turned down leave the cells, the origin and the
/// side of the window as they were, and every step of an agent comes out as
/// it would have against the window before.
pub proof fn lemma_stale_window(w: Window, position: Vec3, staged: Seq<u8>, a: Agent, timestep: i64)
    ensures
        refresh_requested(w, position).cells == w.cells,
        refresh_requested(w, position).start == w.start,
        refresh_requested(w, position).size == w.size,
        !deliverable(w, staged) ==> delivered(w, staged) == w,
        stepped(a, refresh_requested(w, position), timestep) == stepped(a, w, timestep),
{
    let v = refresh_requested(w, position);
    let moved = integrated(a, timestep);
    lemma_collision_reads_window(v, w, box_start(moved), box_size(moved));
    let hit = collision(w, box_start(moved), box_size(moved));
    let again = corrected(moved, hit.shift);
    lemma_collision_reads_window(v, w, box_start(again), box_size(again));
}

/// The camera after it has followed the agent: where the agent is, unless
/// the agent is dead, which the camera no longer follows.
pub open spec fn followed(e: Eye, a: Agent) -> Eye {
    if a.dead {
        e
    } else {
        Eye { position: a.position, changed: true, ..e }
    }
}

/// Puts the camera where a live agent is. A dead agent is not followed.
pub fn update_camera(player: &Player, camera: &mut Camera)
    ensures
        final(camera)@ == followed(old(camera)@, player@),
{
    if !player.is_dead() {
        camera.set_position(player.position());
    }
}

} // verus!
