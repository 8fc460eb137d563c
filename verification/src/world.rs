//! The four-dimensional voxel world: a dense hypercube of voxel ids inside a
//! one-cell shell of boundary cells, and the palette that the ids refer to.

use crate::dense::{flat4, grid4_axis_len, grid4_cells, grid4_filled, grid4_get, grid4_set,
    grid4_side, grid4_to_vec, hypercube, hypercube_fits, in_hypercube, Grid4};
use crate::palette::{table_entries, table_get, table_len, table_new, table_push};
use crate::voxel::{blank, Index4, Srgb8, VoxelId, VoxelType};
use vstd::prelude::*;

verus! {

/// Side length of a world, in cells.
#[derive(Copy, Clone, Debug, PartialEq, Eq, Structural)]
pub struct WorldSize(pub u32);

/// Why a world turned a call down.
#[derive(Copy, Clone, Debug, PartialEq, Eq, Structural)]
pub enum WorldError {
    /// The palette already holds an entry for every voxel id.
    CapacityExceeded,
    /// The cell lies outside the world, or the id is the boundary's own.
    OutOfBounds,
}

/// The id of empty space.
pub const AIR: u8 = 0;

/// The id of the cells that surround the world.
pub const SOLID_AIR: u8 = 1;

/// A voxel world.
#[derive(Debug)]
pub struct World {
    voxels: Grid4,
    types: arrayvec::ArrayVec<(u8, u8, u8), 256>,
    changed: bool,
}

/// What a `World` holds.
pub ghost struct Terrain {
    /// Side length of the world.
    pub size: nat,
    /// The id in each cell of the world, by its coordinates.
    pub cells: Map<(int, int, int, int), VoxelId>,
    /// The materials, by voxel id.
    pub palette: Seq<VoxelType>,
    /// Whether the world was changed since `take_changed` last ran.
    pub changed: bool,
}

/// The material that a table entry stands for.
pub open spec fn material(entry: (u8, u8, u8)) -> VoxelType {
    VoxelType { color: Srgb8 { red: entry.0, green: entry.1, blue: entry.2 } }
}

/// Whether a cell of the array lies in the shell around the world.
pub open spec fn on_shell(side: int, x: int, y: int, z: int, w: int) -> bool {
    x == 0 || y == 0 || z == 0 || w == 0 || x == side - 1 || y == side - 1 || z == side - 1 || w
        == side - 1
}

/// The byte that the serialized world holds for the array cell
/// `(x, y, z, w)`: the boundary id in the shell, and inside it the id of the
/// world's cell `(x - 1, y - 1, z - 1, w - 1)`.
pub open spec fn padded_byte(t: Terrain, x: int, y: int, z: int, w: int) -> u8 {
    if on_shell(t.size as int + 2, x, y, z, w) {
        SOLID_AIR
    } else {
        t.cells[(x - 1, y - 1, z - 1, w - 1)].0
    }
}

/// The material that slot `i` of the palette table holds: the palette's entry
/// where there is one, black elsewhere.
pub open spec fn table_slot(t: Terrain, i: int) -> VoxelType {
    if 0 <= i < t.palette.len() {
        t.palette[i]
    } else {
        blank()
    }
}

/// What `insert_type` answers: the next free id, unless the palette is full.
pub open spec fn insertion(t: Terrain, ty: VoxelType) -> Result<VoxelId, WorldError> {
    if t.palette.len() < 256 {
        Ok(VoxelId(t.palette.len() as u8))
    } else {
        Err(WorldError::CapacityExceeded)
    }
}

/// The world after `insert_type`.
pub open spec fn inserted(t: Terrain, ty: VoxelType) -> Terrain {
    if t.palette.len() < 256 {
        Terrain { palette: t.palette.push(ty), changed: true, ..t }
    } else {
        t
    }
}

/// What `type_of` answers.
pub open spec fn resolve(t: Terrain, id: VoxelId) -> Option<VoxelType> {
    if id.0 < t.palette.len() {
        Some(t.palette[id.0 as int])
    } else {
        None
    }
}

/// Whether `index` names a cell of the world.
pub open spec fn inside(t: Terrain, index: Index4) -> bool {
    in_hypercube(t.size as int, index.x as int, index.y as int, index.z as int, index.w as int)
}

/// The coordinates of `index` as a key of `Terrain::cells`.
pub open spec fn key(index: Index4) -> (int, int, int, int) {
    (index.x as int, index.y as int, index.z as int, index.w as int)
}

/// What `get` answers.
pub open spec fn read(t: Terrain, index: Index4) -> Result<VoxelId, WorldError> {
    if inside(t, index) {
        Ok(t.cells[key(index)])
    } else {
        Err(WorldError::OutOfBounds)
    }
}

/// Whether `set` accepts the write.
pub open spec fn writable(t: Terrain, index: Index4, id: VoxelId) -> bool {
    inside(t, index) && id != VoxelId(SOLID_AIR)
}

/// The world after `set`.
pub open spec fn written(t: Terrain, index: Index4, id: VoxelId) -> Terrain {
    if writable(t, index, id) {
        Terrain { cells: t.cells.insert(key(index), id), changed: true, ..t }
    } else {
        t
    }
}

/// Whether a cell lies in the box from `lo` (included) to `hi` (excluded).
pub open spec fn in_region(lo: Index4, hi: Index4, x: int, y: int, z: int, w: int) -> bool {
    lo.x <= x < hi.x && lo.y <= y < hi.y && lo.z <= z < hi.z && lo.w <= w < hi.w
}

/// Whether the box from `lo` to `hi` has no cell.
pub open spec fn empty_region(lo: Index4, hi: Index4) -> bool {
    lo.x >= hi.x || lo.y >= hi.y || lo.z >= hi.z || lo.w >= hi.w
}

/// Whether `fill_region` accepts the box: it is empty, or all of it lies in
/// the world and the id is not the boundary's.
pub open spec fn fillable(t: Terrain, lo: Index4, hi: Index4, id: VoxelId) -> bool {
    empty_region(lo, hi) || (id != VoxelId(SOLID_AIR) && hi.x <= t.size && hi.y <= t.size && hi.z
        <= t.size && hi.w <= t.size)
}

/// The world after `fill_region`.
pub open spec fn filled(t: Terrain, lo: Index4, hi: Index4, id: VoxelId) -> Terrain {
    if empty_region(lo, hi) || !fillable(t, lo, hi, id) {
        t
    } else {
        Terrain {
            cells: Map::new(
                |c: (int, int, int, int)| in_hypercube(t.size as int, c.0, c.1, c.2, c.3),
                |c: (int, int, int, int)|
                    if in_region(lo, hi, c.0, c.1, c.2, c.3) {
                        id
                    } else {
                        t.cells[c]
                    },
            ),
            changed: true,
            ..t
        }
    }
}

/// Whether `bytes` is the row-major serialization of the world in its shell.
pub open spec fn serializes(t: Terrain, bytes: Seq<u8>) -> bool {
    &&& bytes.len() == hypercube(t.size as int + 2)
    &&& forall|x: int, y: int, z: int, w: int|
        in_hypercube(t.size as int + 2, x, y, z, w) ==> bytes[flat4(t.size as int + 2, x, y, z, w)]
            == #[trigger] padded_byte(t, x, y, z, w)
}

/// Whether `table` is the palette laid out for upload: one slot for every
/// voxel id, black where the palette has no entry.
pub open spec fn tabulates(t: Terrain, table: Seq<VoxelType>) -> bool {
    &&& table.len() == 256
    &&& forall|i: int| 0 <= i < 256 ==> #[trigger] table[i] == table_slot(t, i)
}

/// What the renderer needs after a change of the world.
#[derive(Clone, Debug, PartialEq, Eq)]
pub struct WorldUpload {
    /// Side length of the serialized array: the world's side and its shell.
    pub side: u32,
    /// The ids of all cells, shell included, in row-major order.
    pub voxels: Vec<u8>,
    /// The palette, one slot for every voxel id.
    pub palette: Vec<VoxelType>,
}

impl WorldError {
    /// A short description of the error.
    pub fn message(&self) -> (text: &'static str)
        ensures
            text@ == match *self {
                WorldError::CapacityExceeded => "Palette is full"@,
                WorldError::OutOfBounds => "Out of bounds"@,
            },
    {
        match self {
            WorldError::CapacityExceeded => "Palette is full",
            WorldError::OutOfBounds => "Out of bounds",
        }
    }
}

impl View for World {
    type V = Terrain;

    closed spec fn view(&self) -> Terrain {
        Terrain {
            size: (grid4_side(self.voxels) - 2) as nat,
            cells: Map::new(
                |c: (int, int, int, int)|
                    in_hypercube(grid4_side(self.voxels) - 2, c.0, c.1, c.2, c.3),
                |c: (int, int, int, int)|
                    VoxelId(grid4_cells(self.voxels)[(c.0 + 1, c.1 + 1, c.2 + 1, c.3 + 1)]),
            ),
            palette: table_entries(self.types).map_values(|e: (u8, u8, u8)| material(e)),
            changed: self.changed,
        }
    }
}

impl World {
    /// The array is the world inside its shell: the boundary id fills the
    /// shell and occurs nowhere else, and the palette has its two reserved
    /// entries.
    pub closed spec fn wf(&self) -> bool {
        let side = grid4_side(self.voxels) as int;
        &&& 2 <= side <= u32::MAX as int + 2
        &&& hypercube_fits(side)
        &&& forall|x: int, y: int, z: int, w: int|
            grid4_cells(self.voxels).dom().contains((x, y, z, w)) <==> in_hypercube(side, x, y, z, w)
        &&& forall|x: int, y: int, z: int, w: int|
            in_hypercube(side, x, y, z, w) ==> (#[trigger] grid4_cells(self.voxels)[(x, y, z, w)]
                == SOLID_AIR <==> on_shell(side, x, y, z, w))
        &&& 2 <= table_entries(self.types).len() <= 256
    }

    /// Whether a world of the given side, with its shell, can be held in
    /// memory.
    pub fn fits(size: u32) -> (ok: bool)
        ensures
            ok == hypercube_fits(size + 2),
    {
        let n: u128 = size as u128 + 2;
        if n > 65536 {
            assert(hypercube(n as int) > 0xffff_ffff_ffff_ffff) by (nonlinear_arith)
                requires
                    n > 65536,
            ;
            false
        } else {
            assert(n * n <= 65536 * 65536 && n * n * n <= 65536 * 65536 * 65536 && n * n * n * n
                == hypercube(n as int) && n * n * n * n <= 65536 * 65536 * 65536 * 65536)
                by (nonlinear_arith)
                requires
                    0 <= n <= 65536,
            ;
            n * n * n * n <= isize::MAX as u128
        }
    }

    /// The id of empty space.
    pub fn air() -> (id: VoxelId)
        ensures
            id == VoxelId(AIR),
    {
        VoxelId(AIR)
    }

    /// The id of the cells that surround the world.
    pub fn solid_air() -> (id: VoxelId)
        ensures
            id == VoxelId(SOLID_AIR),
    {
        VoxelId(SOLID_AIR)
    }

    /// Side length of the world, without its shell.
    pub fn size(&self) -> (n: u32)
        requires
            self.wf(),
        ensures
            n == self@.size,
    {
        (grid4_axis_len(&self.voxels) - 2) as u32
    }

    /// An empty world of the given side: every cell holds air, and the
    /// palette holds the two reserved entries, for air and for the boundary.
    pub fn new(size: u32) -> (world: World)
        requires
            hypercube_fits(size + 2),
        ensures
            world.wf(),
            world@.size == size,
            world@.changed,
            world@.palette == seq![blank(), blank()],
            forall|x: int, y: int, z: int, w: int|
                in_hypercube(size as int, x, y, z, w) ==> #[trigger] world@.cells[(x, y, z, w)]
                    == VoxelId(AIR),
    {
        proof {
            lemma_side_bound(size + 2);
        }
        let side: usize = size as usize + 2;
        let end: usize = side - 1;
        let mut voxels = grid4_filled(side, SOLID_AIR);
        let mut x: usize = 1;
        while x < end
            invariant
                side == size + 2,
                end == side - 1,
                1 <= x <= end,
                grid4_side(voxels) == side,
                carved(voxels, side as int, x as int, 1, 1, 1),
            decreases end - x,
        {
            let mut y: usize = 1;
            while y < end
                invariant
                    side == size + 2,
                    end == side - 1,
                    1 <= x < end,
                    1 <= y <= end,
                    grid4_side(voxels) == side,
                    carved(voxels, side as int, x as int, y as int, 1, 1),
                decreases end - y,
            {
                let mut z: usize = 1;
                while z < end
                    invariant
                        side == size + 2,
                        end == side - 1,
                        1 <= x < end,
                        1 <= y < end,
                        1 <= z <= end,
                        grid4_side(voxels) == side,
                        carved(voxels, side as int, x as int, y as int, z as int, 1),
                    decreases end - z,
                {
                    let mut w: usize = 1;
                    while w < end
                        invariant
                            side == size + 2,
                            end == side - 1,
                            1 <= x < end,
                            1 <= y < end,
                            1 <= z < end,
                            1 <= w <= end,
                            grid4_side(voxels) == side,
                            carved(voxels, side as int, x as int, y as int, z as int, w as int),
                        decreases end - w,
                    {
                        let ghost prev = voxels;
                        grid4_set(&mut voxels, x, y, z, w, AIR);
                        proof {
                            lemma_carve_step(
                                prev,
                                voxels,
                                side as int,
                                x as int,
                                y as int,
                                z as int,
                                w as int,
                            );
                        }
                        w = w + 1;
                    }
                    proof {
                        lemma_carve_wrap(
                            voxels,
                            side as int,
                            x as int,
                            y as int,
                            z as int,
                            end as int,
                            x as int,
                            y as int,
                            z + 1,
                            1,
                        );
                    }
                    z = z + 1;
                }
                proof {
                    lemma_carve_wrap(
                        voxels,
                        side as int,
                        x as int,
                        y as int,
                        end as int,
                        1,
                        x as int,
                        y + 1,
                        1,
                        1,
                    );
                }
                y = y + 1;
            }
            proof {
                lemma_carve_wrap(voxels, side as int, x as int, end as int, 1, 1, x + 1, 1, 1, 1);
            }
            x = x + 1;
        }
        let mut types = table_new();
        table_push(&mut types, (0, 0, 0));
        table_push(&mut types, (0, 0, 0));
        let world = World { voxels, types, changed: true };
        proof {
            assert forall|x: int, y: int, z: int, w: int|
                in_hypercube(side as int, x, y, z, w) implies (#[trigger] grid4_cells(world.voxels)[(
                x,
                y,
                z,
                w,
            )] == SOLID_AIR <==> on_shell(side as int, x, y, z, w)) by {
                assert(carved_cell(world.voxels, side as int, end as int, 1, 1, 1, x, y, z, w));
            }
            assert forall|x: int, y: int, z: int, w: int|
                grid4_cells(world.voxels).dom().contains((x, y, z, w)) <==> in_hypercube(
                    side as int,
                    x,
                    y,
                    z,
                    w,
                ) by {
                assert(carved_cell(world.voxels, side as int, end as int, 1, 1, 1, x, y, z, w));
            }
            assert(world@.palette =~= seq![blank(), blank()]);
            assert forall|x: int, y: int, z: int, w: int|
                in_hypercube(size as int, x, y, z, w) implies #[trigger] world@.cells[(x, y, z, w)]
                == VoxelId(AIR) by {
                assert(carved_cell(
                    world.voxels,
                    side as int,
                    end as int,
                    1,
                    1,
                    1,
                    x + 1,
                    y + 1,
                    z + 1,
                    w + 1,
                ));
            }
        }
        world
    }

    /// Appends a material to the palette and returns its id. A full palette
    /// turns the material down and stays as it is.
    pub fn insert_type(&mut self, ty: VoxelType) -> (r: Result<VoxelId, WorldError>)
        requires
            old(self).wf(),
        ensures
            final(self).wf(),
            r == insertion(old(self)@, ty),
            final(self)@ == inserted(old(self)@, ty),
    {
        let id: usize = table_len(&self.types);
        if id >= 256 {
            return Err(WorldError::CapacityExceeded);
        }
        table_push(&mut self.types, (ty.color.red, ty.color.green, ty.color.blue));
        self.changed = true;
        proof {
            assert(self@.palette =~= old(self)@.palette.push(ty));
            assert(self@.cells =~= old(self)@.cells);
        }
        Ok(VoxelId(id as u8))
    }

    /// The material that an id stands for, if the palette has one for it.
    pub fn type_of(&self, id: VoxelId) -> (ty: Option<VoxelType>)
        requires
            self.wf(),
        ensures
            ty == resolve(self@, id),
    {
        if (id.0 as usize) < table_len(&self.types) {
            let entry = table_get(&self.types, id.0 as usize);
            Some(VoxelType { color: Srgb8 { red: entry.0, green: entry.1, blue: entry.2 } })
        } else {
            None
        }
    }

    /// The id in the cell at `index`. Coordinates outside the world are
    /// turned down. The boundary id is never handed out.
    pub fn get(&self, index: Index4) -> (r: Result<VoxelId, WorldError>)
        requires
            self.wf(),
        ensures
            r == read(self@, index),
            r != Ok::<VoxelId, WorldError>(VoxelId(SOLID_AIR)),
    {
        let side: usize = grid4_axis_len(&self.voxels);
        let x: usize = index.x as usize;
        let y: usize = index.y as usize;
        let z: usize = index.z as usize;
        let w: usize = index.w as usize;
        if x >= side - 1 || y >= side - 1 || z >= side - 1 || w >= side - 1 {
            return Err(WorldError::OutOfBounds);
        }
        let id: u8 = grid4_get(&self.voxels, x + 1, y + 1, z + 1, w + 1);
        if id == SOLID_AIR {
            return Err(WorldError::OutOfBounds);
        }
        Ok(VoxelId(id))
    }

    /// Stores `id` in the cell at `index`. Coordinates outside the world and
    /// the boundary's own id are turned down, and the world stays as it is.
    pub fn set(&mut self, index: Index4, id: VoxelId) -> (r: Result<(), WorldError>)
        requires
            old(self).wf(),
        ensures
            final(self).wf(),
            r is Ok <==> writable(old(self)@, index, id),
            r matches Err(e) ==> e == WorldError::OutOfBounds,
            final(self)@ == written(old(self)@, index, id),
    {
        let side: usize = grid4_axis_len(&self.voxels);
        let x: usize = index.x as usize;
        let y: usize = index.y as usize;
        let z: usize = index.z as usize;
        let w: usize = index.w as usize;
        if x >= side - 1 || y >= side - 1 || z >= side - 1 || w >= side - 1 {
            return Err(WorldError::OutOfBounds);
        }
        let held: u8 = grid4_get(&self.voxels, x + 1, y + 1, z + 1, w + 1);
        if held == SOLID_AIR || id.0 == SOLID_AIR {
            return Err(WorldError::OutOfBounds);
        }
        grid4_set(&mut self.voxels, x + 1, y + 1, z + 1, w + 1, id.0);
        self.changed = true;
        proof {
            let target = old(self)@.cells.insert(
                (index.x as int, index.y as int, index.z as int, index.w as int),
                id,
            );
            assert forall|c: (int, int, int, int)| self@.cells.dom().contains(c) implies self@.cells[c]
                == target[c] by {
                if c != (index.x as int, index.y as int, index.z as int, index.w as int) {
                    assert((c.0 + 1, c.1 + 1, c.2 + 1, c.3 + 1) != (x + 1, y + 1, z + 1, w + 1));
                }
            }
            assert(self@.cells =~= target);
            assert forall|cx: int, cy: int, cz: int, cw: int|
                in_hypercube(side as int, cx, cy, cz, cw) implies (#[trigger] grid4_cells(
                self.voxels,
            )[(cx, cy, cz, cw)] == SOLID_AIR <==> on_shell(side as int, cx, cy, cz, cw)) by {
                if (cx, cy, cz, cw) != (x + 1, y + 1, z + 1, w + 1) {
                    assert(grid4_cells(self.voxels)[(cx, cy, cz, cw)] == grid4_cells(
                        old(self).voxels,
                    )[(cx, cy, cz, cw)]);
                }
            }
        }
        Ok(())
    }

    /// Stores `id` in every cell of the box from `lo` (included) to `hi`
    /// (excluded). A box that reaches outside the world, and the boundary's
    /// own id, are turned down, and the world stays as it is. An empty box is
    /// accepted and changes nothing.
    pub fn fill_region(&mut self, lo: Index4, hi: Index4, id: VoxelId) -> (r: Result<(), WorldError>)
        requires
            old(self).wf(),
        ensures
            final(self).wf(),
            r is Ok <==> fillable(old(self)@, lo, hi, id),
            r matches Err(e) ==> e == WorldError::OutOfBounds,
            final(self)@ == filled(old(self)@, lo, hi, id),
    {
        if lo.x >= hi.x || lo.y >= hi.y || lo.z >= hi.z || lo.w >= hi.w {
            return Ok(());
        }
        let size: u32 = self.size();
        if id.0 == SOLID_AIR || hi.x > size || hi.y > size || hi.z > size || hi.w > size {
            return Err(WorldError::OutOfBounds);
        }
        let ghost start = self@;
        let mut x: u32 = lo.x;
        while x < hi.x
            invariant
                self.wf(),
                lo.x <= x <= hi.x,
                !empty_region(lo, hi),
                fillable(start, lo, hi, id),
                filled_to(start, self@, lo, hi, id, x as int, lo.y as int, lo.z as int, lo.w as int),
            decreases hi.x - x,
        {
            let mut y: u32 = lo.y;
            while y < hi.y
                invariant
                    self.wf(),
                    lo.x <= x < hi.x,
                    lo.y <= y <= hi.y,
                    !empty_region(lo, hi),
                    fillable(start, lo, hi, id),
                    filled_to(start, self@, lo, hi, id, x as int, y as int, lo.z as int, lo.w as int),
                decreases hi.y - y,
            {
                let mut z: u32 = lo.z;
                while z < hi.z
                    invariant
                        self.wf(),
                        lo.x <= x < hi.x,
                        lo.y <= y < hi.y,
                        lo.z <= z <= hi.z,
                        !empty_region(lo, hi),
                        fillable(start, lo, hi, id),
                        filled_to(start, self@, lo, hi, id, x as int, y as int, z as int, lo.w as int),
                    decreases hi.z - z,
                {
                    let mut w: u32 = lo.w;
                    while w < hi.w
                        invariant
                            self.wf(),
                            lo.x <= x < hi.x,
                            lo.y <= y < hi.y,
                            lo.z <= z < hi.z,
                            lo.w <= w <= hi.w,
                            !empty_region(lo, hi),
                            fillable(start, lo, hi, id),
                            filled_to(start, self@, lo, hi, id, x as int, y as int, z as int, w as int),
                        decreases hi.w - w,
                    {
                        let ghost prev = self@;
                        let _ = self.set(Index4 { x, y, z, w }, id);
                        proof {
                            lemma_fill_step(
                                start,
                                prev,
                                self@,
                                lo,
                                hi,
                                id,
                                x as int,
                                y as int,
                                z as int,
                                w as int,
                            );
                        }
                        w = w + 1;
                    }
                    proof {
                        lemma_fill_wrap(
                            start,
                            self@,
                            lo,
                            hi,
                            id,
                            x as int,
                            y as int,
                            z as int,
                            hi.w as int,
                            x as int,
                            y as int,
                            z + 1,
                            lo.w as int,
                        );
                    }
                    z = z + 1;
                }
                proof {
                    lemma_fill_wrap(
                        start,
                        self@,
                        lo,
                        hi,
                        id,
                        x as int,
                        y as int,
                        hi.z as int,
                        lo.w as int,
                        x as int,
                        y + 1,
                        lo.z as int,
                        lo.w as int,
                    );
                }
                y = y + 1;
            }
            proof {
                lemma_fill_wrap(
                    start,
                    self@,
                    lo,
                    hi,
                    id,
                    x as int,
                    hi.y as int,
                    lo.z as int,
                    lo.w as int,
                    x + 1,
                    lo.y as int,
                    lo.z as int,
                    lo.w as int,
                );
            }
            x = x + 1;
        }
        proof {
            let target = filled(start, lo, hi, id);
            assert forall|c: (int, int, int, int)| self@.cells.dom().contains(c) implies self@.cells[c]
                == target.cells[c] by {
                assert(filled_cell(
                    start,
                    self@,
                    lo,
                    hi,
                    id,
                    hi.x as int,
                    lo.y as int,
                    lo.z as int,
                    lo.w as int,
                    c.0,
                    c.1,
                    c.2,
                    c.3,
                ));
                assert(c == (c.0, c.1, c.2, c.3));
            }
            assert(self@.cells =~= target.cells);
        }
        Ok(())
    }

    /// Side length of the array that `voxel_bytes` serializes: the world's side
    /// and its shell.
    pub fn padded_size(&self) -> (n: u32)
        requires
            self.wf(),
        ensures
            n == self@.size + 2,
    {
        proof {
            lemma_side_bound(grid4_side(self.voxels) as int);
        }
        grid4_axis_len(&self.voxels) as u32
    }

    /// Extent of the three-dimensional texture that holds the serialized
    /// world: the padded side as width and as height, its square as depth.
    pub fn texture_extent(&self) -> (extent: (u32, u32, u32))
        requires
            self.wf(),
        ensures
            extent.0 == self@.size + 2,
            extent.1 == self@.size + 2,
            extent.2 == (self@.size + 2) * (self@.size + 2),
    {
        proof {
            lemma_side_bound(grid4_side(self.voxels) as int);
        }
        let side: u32 = grid4_axis_len(&self.voxels) as u32;
        (side, side, side * side)
    }

    /// The ids of all cells, shell included, in row-major order.
    pub fn voxel_bytes(&self) -> (bytes: Vec<u8>)
        requires
            self.wf(),
        ensures
            serializes(self@, bytes@),
    {
        let bytes = grid4_to_vec(&self.voxels);
        proof {
            let side = grid4_side(self.voxels) as int;
            assert forall|x: int, y: int, z: int, w: int|
                in_hypercube(side, x, y, z, w) implies bytes@[flat4(side, x, y, z, w)]
                == #[trigger] padded_byte(self@, x, y, z, w) by {
                assert(bytes@[flat4(side, x, y, z, w)] == grid4_cells(self.voxels)[(x, y, z, w)]);
            }
        }
        bytes
    }

    /// The palette laid out for upload: one slot for every voxel id, black
    /// where the palette has no entry.
    pub fn palette_table(&self) -> (table: Vec<VoxelType>)
        requires
            self.wf(),
        ensures
            tabulates(self@, table@),
    {
        let held: usize = table_len(&self.types);
        let mut table: Vec<VoxelType> = Vec::new();
        let mut i: usize = 0;
        while i < 256
            invariant
                self.wf(),
                held == self@.palette.len(),
                i <= 256,
                table@.len() == i,
                forall|j: int| 0 <= j < i ==> #[trigger] table@[j] == table_slot(self@, j),
            decreases 256 - i,
        {
            if i < held {
                let entry = table_get(&self.types, i);
                table.push(VoxelType { color: Srgb8 { red: entry.0, green: entry.1, blue: entry.2 } });
            } else {
                table.push(VoxelType::default());
            }
            i = i + 1;
        }
        table
    }

    /// What the renderer has to load again: the serialized cells and the
    /// palette table if the world was changed since this was last asked,
    /// nothing otherwise. Asking forgets the change.
    pub fn take_upload(&mut self) -> (upload: Option<WorldUpload>)
        requires
            old(self).wf(),
        ensures
            final(self).wf(),
            final(self)@ == (Terrain { changed: false, ..old(self)@ }),
            upload is Some <==> old(self)@.changed,
            upload matches Some(u) ==> u.side == old(self)@.size + 2 && serializes(
                old(self)@,
                u.voxels@,
            ) && tabulates(old(self)@, u.palette@),
    {
        if !self.changed {
            return None;
        }
        let upload = WorldUpload {
            side: self.padded_size(),
            voxels: self.voxel_bytes(),
            palette: self.palette_table(),
        };
        self.changed = false;
        Some(upload)
    }

    /// Whether the world was changed since this was last asked, which it
    /// then forgets.
    pub fn take_changed(&mut self) -> (changed: bool)
        requires
            old(self).wf(),
        ensures
            final(self).wf(),
            changed == old(self)@.changed,
            final(self)@ == (Terrain { changed: false, ..old(self)@ }),
    {
        let changed = self.changed;
        self.changed = false;
        changed
    }
}

/// Whether cell `(cx, cy, cz, cw)` comes before `(x, y, z, w)` in row-major
/// order.
spec fn before4(x: int, y: int, z: int, w: int, cx: int, cy: int, cz: int, cw: int) -> bool {
    cx < x || (cx == x && (cy < y || (cy == y && (cz < z || (cz == z && cw < w)))))
}

/// What one cell of the array holds while the inside of the shell is being
/// emptied up to `(x, y, z, w)`.
spec fn carved_cell(
    g: Grid4,
    side: int,
    x: int,
    y: int,
    z: int,
    w: int,
    cx: int,
    cy: int,
    cz: int,
    cw: int,
) -> bool {
    &&& grid4_cells(g).dom().contains((cx, cy, cz, cw)) <==> in_hypercube(side, cx, cy, cz, cw)
    &&& in_hypercube(side, cx, cy, cz, cw) ==> grid4_cells(g)[(cx, cy, cz, cw)] == if !on_shell(
        side,
        cx,
        cy,
        cz,
        cw,
    ) && before4(x, y, z, w, cx, cy, cz, cw) {
        AIR
    } else {
        SOLID_AIR
    }
}

/// The inside of the shell is empty up to `(x, y, z, w)`, and the rest of the
/// array still holds the boundary id.
spec fn carved(g: Grid4, side: int, x: int, y: int, z: int, w: int) -> bool {
    forall|cx: int, cy: int, cz: int, cw: int|
        #[trigger] carved_cell(g, side, x, y, z, w, cx, cy, cz, cw)
}

proof fn lemma_carve_step(prev: Grid4, next: Grid4, side: int, x: int, y: int, z: int, w: int)
    requires
        carved(prev, side, x, y, z, w),
        in_hypercube(side, x, y, z, w),
        !on_shell(side, x, y, z, w),
        grid4_cells(next) == grid4_cells(prev).insert((x, y, z, w), AIR),
    ensures
        carved(next, side, x, y, z, w + 1),
{
    assert forall|cx: int, cy: int, cz: int, cw: int| #[trigger]
        carved_cell(next, side, x, y, z, w + 1, cx, cy, cz, cw) by {
        assert(carved_cell(prev, side, x, y, z, w, cx, cy, cz, cw));
        if (cx, cy, cz, cw) == (x, y, z, w) {
        } else {
            assert(grid4_cells(next)[(cx, cy, cz, cw)] == grid4_cells(prev)[(cx, cy, cz, cw)]);
        }
    }
}

proof fn lemma_carve_wrap(
    g: Grid4,
    side: int,
    x: int,
    y: int,
    z: int,
    w: int,
    x2: int,
    y2: int,
    z2: int,
    w2: int,
)
    requires
        carved(g, side, x, y, z, w),
        forall|cx: int, cy: int, cz: int, cw: int|
            in_hypercube(side, cx, cy, cz, cw) && !on_shell(side, cx, cy, cz, cw) ==> (before4(
                x,
                y,
                z,
                w,
                cx,
                cy,
                cz,
                cw,
            ) <==> before4(x2, y2, z2, w2, cx, cy, cz, cw)),
    ensures
        carved(g, side, x2, y2, z2, w2),
{
    assert forall|cx: int, cy: int, cz: int, cw: int| #[trigger]
        carved_cell(g, side, x2, y2, z2, w2, cx, cy, cz, cw) by {
        assert(carved_cell(g, side, x, y, z, w, cx, cy, cz, cw));
    }
}

/// What one cell of the world holds while the box from `lo` to `hi` is being
/// filled up to `(x, y, z, w)`.
spec fn filled_cell(
    start: Terrain,
    now: Terrain,
    lo: Index4,
    hi: Index4,
    id: VoxelId,
    x: int,
    y: int,
    z: int,
    w: int,
    cx: int,
    cy: int,
    cz: int,
    cw: int,
) -> bool {
    &&& now.cells.dom().contains((cx, cy, cz, cw)) <==> in_hypercube(start.size as int, cx, cy, cz, cw)
    &&& in_hypercube(start.size as int, cx, cy, cz, cw) ==> now.cells[(cx, cy, cz, cw)]
        == if in_region(lo, hi, cx, cy, cz, cw) && before4(x, y, z, w, cx, cy, cz, cw) {
        id
    } else {
        start.cells[(cx, cy, cz, cw)]
    }
}

/// The box from `lo` to `hi` is filled up to `(x, y, z, w)`, and nothing else
/// has changed but the mark of change, which is set with the first cell.
spec fn filled_to(
    start: Terrain,
    now: Terrain,
    lo: Index4,
    hi: Index4,
    id: VoxelId,
    x: int,
    y: int,
    z: int,
    w: int,
) -> bool {
    &&& now.size == start.size
    &&& now.palette == start.palette
    &&& now.changed == (start.changed || before4(
        x,
        y,
        z,
        w,
        lo.x as int,
        lo.y as int,
        lo.z as int,
        lo.w as int,
    ))
    &&& forall|cx: int, cy: int, cz: int, cw: int|
        #[trigger] filled_cell(start, now, lo, hi, id, x, y, z, w, cx, cy, cz, cw)
}

proof fn lemma_fill_step(
    start: Terrain,
    prev: Terrain,
    next: Terrain,
    lo: Index4,
    hi: Index4,
    id: VoxelId,
    x: int,
    y: int,
    z: int,
    w: int,
)
    requires
        filled_to(start, prev, lo, hi, id, x, y, z, w),
        in_region(lo, hi, x, y, z, w),
        in_hypercube(start.size as int, x, y, z, w),
        next == (Terrain { cells: prev.cells.insert((x, y, z, w), id), changed: true, ..prev }),
    ensures
        filled_to(start, next, lo, hi, id, x, y, z, w + 1),
{
    assert forall|cx: int, cy: int, cz: int, cw: int| #[trigger]
        filled_cell(start, next, lo, hi, id, x, y, z, w + 1, cx, cy, cz, cw) by {
        assert(filled_cell(start, prev, lo, hi, id, x, y, z, w, cx, cy, cz, cw));
        if (cx, cy, cz, cw) == (x, y, z, w) {
        } else {
            assert(next.cells[(cx, cy, cz, cw)] == prev.cells[(cx, cy, cz, cw)]);
        }
    }
}

proof fn lemma_fill_wrap(
    start: Terrain,
    now: Terrain,
    lo: Index4,
    hi: Index4,
    id: VoxelId,
    x: int,
    y: int,
    z: int,
    w: int,
    x2: int,
    y2: int,
    z2: int,
    w2: int,
)
    requires
        filled_to(start, now, lo, hi, id, x, y, z, w),
        !empty_region(lo, hi),
        forall|cx: int, cy: int, cz: int, cw: int|
            in_region(lo, hi, cx, cy, cz, cw) ==> (before4(x, y, z, w, cx, cy, cz, cw) <==> before4(
                x2,
                y2,
                z2,
                w2,
                cx,
                cy,
                cz,
                cw,
            )),
    ensures
        filled_to(start, now, lo, hi, id, x2, y2, z2, w2),
{
    assert(in_region(lo, hi, lo.x as int, lo.y as int, lo.z as int, lo.w as int));
    assert forall|cx: int, cy: int, cz: int, cw: int| #[trigger]
        filled_cell(start, now, lo, hi, id, x2, y2, z2, w2, cx, cy, cz, cw) by {
        assert(filled_cell(start, now, lo, hi, id, x, y, z, w, cx, cy, cz, cw));
    }
}

/// A side whose hypercube fits in memory is small.
proof fn lemma_side_bound(side: int)
    requires
        hypercube_fits(side),
    ensures
        side <= 65536,
        side * side <= 0xffff_ffff,
        side <= hypercube(side) || side == 0,
{
    assert(side <= 65536 && side * side <= 0xffff_ffff && (side <= side * side * side * side || side == 0))
        by (nonlinear_arith)
        requires
            0 <= side,
            side * side * side * side <= 0x7fff_ffff_ffff_ffff,
    ;
}

/// The palette is bounded and append-only. While it holds fewer than 256
/// materials an insertion succeeds, hands out the next id, and that id and
/// every id handed out before resolve: the new one to the new material, the
/// old ones as before. At 256 materials an insertion fails with
/// `CapacityExceeded` and leaves the world as it is.
pub proof fn lemma_palette_capacity(t: Terrain, ty: VoxelType, id: VoxelId)
    requires
        t.palette.len() <= 256,
    ensures
        t.palette.len() < 256 ==> insertion(t, ty) == Ok::<VoxelId, WorldError>(
            VoxelId(t.palette.len() as u8),
        ) && inserted(t, ty).palette.len() == t.palette.len() + 1 && inserted(t, ty).cells == t.cells,
        t.palette.len() < 256 && id.0 == t.palette.len() ==> resolve(inserted(t, ty), id) == Some(ty),
        id.0 < t.palette.len() ==> resolve(inserted(t, ty), id) == resolve(t, id),
        t.palette.len() == 256 ==> insertion(t, ty) == Err::<VoxelId, WorldError>(
            WorldError::CapacityExceeded,
        ) && inserted(t, ty) == t && resolve(t, id) is Some,
{
}

/// A write is read back: after an accepted write the cell holds the id that
/// was written, and every other cell reads as before.
pub proof fn lemma_write_then_read(t: Terrain, index: Index4, id: VoxelId, other: Index4)
    requires
        writable(t, index, id),
    ensures
        read(written(t, index, id), index) == Ok::<VoxelId, WorldError>(id),
        other != index ==> read(written(t, index, id), other) == read(t, other),
{
}

/// Filling the whole world with an id other than the boundary's makes every
/// cell read as that id.
pub proof fn lemma_fill_then_read(t: Terrain, id: VoxelId, index: Index4)
    requires
        t.size <= u32::MAX,
        id != VoxelId(SOLID_AIR),
        inside(t, index),
    ensures
        ({
            let lo = Index4 { x: 0, y: 0, z: 0, w: 0 };
            let hi = Index4 {
                x: t.size as u32,
                y: t.size as u32,
                z: t.size as u32,
                w: t.size as u32,
            };
            fillable(t, lo, hi, id) && read(filled(t, lo, hi, id), index) == Ok::<
                VoxelId,
                WorldError,
            >(id)
        }),
{
}

/// The shell is out of reach: coordinates outside the world are refused with
/// `OutOfBounds` by reads and by writes alike, and a refused write leaves the
/// world as it is. So does the write of the boundary's own id anywhere.
pub proof fn lemma_outside_refused(t: Terrain, index: Index4, id: VoxelId)
    requires
        !inside(t, index) || id == VoxelId(SOLID_AIR),
    ensures
        !inside(t, index) ==> read(t, index) == Err::<VoxelId, WorldError>(WorldError::OutOfBounds),
        !writable(t, index, id),
        written(t, index, id) == t,
{
}

} // verus!
