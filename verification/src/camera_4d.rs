//! The four-dimensional camera: a rotation that is, at rest, one of the
//! signed permutations of the four axes, and quarter turns between them that
//! take a fixed time.
//!
//! The rotation at rest is exact integer data. While a turn is under way the
//! camera reports which turn it is and how far it has come; the caller
//! interpolates. Times are counted in microseconds of the caller's clock.

use crate::world::WorldSize;
use vstd::prelude::*;

verus! {

/// Four integer components: a row of a rotation at rest.
#[derive(Copy, Clone, Debug, PartialEq, Eq, Structural)]
pub struct Axis4 {
    pub x: i8,
    pub y: i8,
    pub z: i8,
    pub w: i8,
}

/// A four by four integer matrix, by rows.
#[derive(Copy, Clone, Debug, PartialEq, Eq, Structural)]
pub struct Rotation4 {
    pub x: Axis4,
    pub y: Axis4,
    pub z: Axis4,
    pub w: Axis4,
}

/// The two quarter turns that a camera can make.
#[derive(Copy, Clone, Debug, PartialEq, Eq, Structural)]
pub enum Generator {
    /// The turn in the plane of the first and second axes.
    First,
    /// The turn in the plane of the second and third axes.
    Second,
}

/// A turn under way.
#[derive(Copy, Clone, Debug, PartialEq, Eq, Structural)]
pub struct Rotating {
    /// The rotation at rest from which the turn started.
    pub last_rotation: Rotation4,
    pub generator: Generator,
    /// Whether the turn goes backward.
    pub inverse: bool,
    /// When the turn started.
    pub start_time: u64,
    /// How long the turn takes.
    pub duration: u64,
}

/// What a camera shows at some moment.
#[derive(Copy, Clone, Debug, PartialEq, Eq, Structural)]
pub enum Pose {
    /// The camera is at rest in this rotation.
    Resting(Rotation4),
    /// The camera has come `elapsed` out of `duration` of the way from `base`
    /// through the given quarter turn.
    Turning { base: Rotation4, generator: Generator, inverse: bool, elapsed: u64, duration: u64 },
}

/// Four fixed-point components.
#[derive(Copy, Clone, Debug, PartialEq, Eq, Structural)]
pub struct Vec4 {
    pub x: i64,
    pub y: i64,
    pub z: i64,
    pub w: i64,
}

/// What the renderer is given of a camera at rest.
#[derive(Copy, Clone, Debug, PartialEq, Eq, Structural)]
pub struct CameraInternal {
    /// Where the camera stands, in fixed-point cells of the padded world.
    pub position: Vec4,
    /// The inverse of the camera's rotation.
    pub rotation: Rotation4,
    /// Edge length of a voxel, in fixed point.
    pub voxel_size: i64,
}

/// The four-dimensional camera.
#[derive(Copy, Clone, Debug, PartialEq, Eq, Structural)]
pub struct Camera {
    rotate_time: u64,
    rotating: Option<Rotating>,
    rotation: Rotation4,
    changed: bool,
}

/// What a `Camera` holds.
pub ghost struct Gimbal {
    /// How long the next turn will take.
    pub rotate_time: u64,
    /// The turn under way, if any.
    pub rotating: Option<Rotating>,
    /// The rotation in which the camera last rested.
    pub rotation: Rotation4,
    /// Whether the pose was changed since `take_changed` last ran.
    pub changed: bool,
}

/// Whether a component is -1, 0 or 1.
pub open spec fn unit(a: i8) -> bool {
    -1 <= a <= 1
}

/// One for a component that is not zero, zero for one that is.
pub open spec fn weight(a: i8) -> int {
    if a == 0 {
        0
    } else {
        1
    }
}

/// Whether exactly one of four components is 1 or -1 and the others are 0.
pub open spec fn one_hot(a: i8, b: i8, c: i8, d: i8) -> bool {
    unit(a) && unit(b) && unit(c) && unit(d) && weight(a) + weight(b) + weight(c) + weight(d) == 1
}

/// Whether a matrix is a signed permutation of the axes: every row and every
/// column holds a single 1 or -1 and zeros. Such a matrix is orthonormal.
pub open spec fn signed_permutation(m: Rotation4) -> bool {
    &&& one_hot(m.x.x, m.x.y, m.x.z, m.x.w)
    &&& one_hot(m.y.x, m.y.y, m.y.z, m.y.w)
    &&& one_hot(m.z.x, m.z.y, m.z.z, m.z.w)
    &&& one_hot(m.w.x, m.w.y, m.w.z, m.w.w)
    &&& one_hot(m.x.x, m.y.x, m.z.x, m.w.x)
    &&& one_hot(m.x.y, m.y.y, m.z.y, m.w.y)
    &&& one_hot(m.x.z, m.y.z, m.z.z, m.w.z)
    &&& one_hot(m.x.w, m.y.w, m.z.w, m.w.w)
}

/// The identity.
pub open spec fn identity() -> Rotation4 {
    Rotation4 {
        x: Axis4 { x: 1, y: 0, z: 0, w: 0 },
        y: Axis4 { x: 0, y: 1, z: 0, w: 0 },
        z: Axis4 { x: 0, y: 0, z: 1, w: 0 },
        w: Axis4 { x: 0, y: 0, z: 0, w: 1 },
    }
}

/// The rotation in which a new camera rests.
pub open spec fn initial_rotation() -> Rotation4 {
    Rotation4 {
        x: Axis4 { x: 0, y: 1, z: 0, w: 0 },
        y: Axis4 { x: 0, y: 0, z: 0, w: 1 },
        z: Axis4 { x: 1, y: 0, z: 0, w: 0 },
        w: Axis4 { x: 0, y: 0, z: 1, w: 0 },
    }
}

/// The matrix of a whole quarter turn. A backward turn is the transpose of
/// the forward one.
pub open spec fn endpoint(generator: Generator, inverse: bool) -> Rotation4 {
    match (generator, inverse) {
        (Generator::First, false) => Rotation4 {
            x: Axis4 { x: 0, y: -1i8, z: 0, w: 0 },
            y: Axis4 { x: 1, y: 0, z: 0, w: 0 },
            z: Axis4 { x: 0, y: 0, z: 1, w: 0 },
            w: Axis4 { x: 0, y: 0, z: 0, w: 1 },
        },
        (Generator::First, true) => Rotation4 {
            x: Axis4 { x: 0, y: 1, z: 0, w: 0 },
            y: Axis4 { x: -1i8, y: 0, z: 0, w: 0 },
            z: Axis4 { x: 0, y: 0, z: 1, w: 0 },
            w: Axis4 { x: 0, y: 0, z: 0, w: 1 },
        },
        (Generator::Second, false) => Rotation4 {
            x: Axis4 { x: 1, y: 0, z: 0, w: 0 },
            y: Axis4 { x: 0, y: 0, z: 1, w: 0 },
            z: Axis4 { x: 0, y: -1i8, z: 0, w: 0 },
            w: Axis4 { x: 0, y: 0, z: 0, w: 1 },
        },
        (Generator::Second, true) => Rotation4 {
            x: Axis4 { x: 1, y: 0, z: 0, w: 0 },
            y: Axis4 { x: 0, y: 0, z: -1i8, w: 0 },
            z: Axis4 { x: 0, y: 1, z: 0, w: 0 },
            w: Axis4 { x: 0, y: 0, z: 0, w: 1 },
        },
    }
}

/// One row of a matrix product: the row `a` times the matrix `b`.
pub open spec fn row_product(a: Axis4, b: Rotation4) -> Axis4 {
    Axis4 {
        x: (a.x * b.x.x + a.y * b.y.x + a.z * b.z.x + a.w * b.w.x) as i8,
        y: (a.x * b.x.y + a.y * b.y.y + a.z * b.z.y + a.w * b.w.y) as i8,
        z: (a.x * b.x.z + a.y * b.y.z + a.z * b.z.z + a.w * b.w.z) as i8,
        w: (a.x * b.x.w + a.y * b.y.w + a.z * b.z.w + a.w * b.w.w) as i8,
    }
}

/// The matrix product `a * b`: the rotation `b` followed by `a`.
pub open spec fn product(a: Rotation4, b: Rotation4) -> Rotation4 {
    Rotation4 {
        x: row_product(a.x, b),
        y: row_product(a.y, b),
        z: row_product(a.z, b),
        w: row_product(a.w, b),
    }
}

/// The transpose of a matrix, which inverts a signed permutation.
pub open spec fn transposed(m: Rotation4) -> Rotation4 {
    Rotation4 {
        x: Axis4 { x: m.x.x, y: m.y.x, z: m.z.x, w: m.w.x },
        y: Axis4 { x: m.x.y, y: m.y.y, z: m.z.y, w: m.w.y },
        z: Axis4 { x: m.x.z, y: m.y.z, z: m.z.z, w: m.w.z },
        w: Axis4 { x: m.x.w, y: m.y.w, z: m.z.w, w: m.w.w },
    }
}

/// A row with every component negated.
pub open spec fn negated(a: Axis4) -> Axis4 {
    Axis4 { x: (-a.x) as i8, y: (-a.y) as i8, z: (-a.z) as i8, w: (-a.w) as i8 }
}

/// The rotation in which a camera rests after a quarter turn from `base`:
/// the matrix of the turn times `base`, which swaps two rows of `base` and
/// negates one of them.
pub open spec fn turned(base: Rotation4, generator: Generator, inverse: bool) -> Rotation4 {
    match (generator, inverse) {
        (Generator::First, false) => Rotation4 { x: negated(base.y), y: base.x, ..base },
        (Generator::First, true) => Rotation4 { x: base.y, y: negated(base.x), ..base },
        (Generator::Second, false) => Rotation4 { y: base.z, z: negated(base.y), ..base },
        (Generator::Second, true) => Rotation4 { y: negated(base.z), z: base.y, ..base },
    }
}

/// The time that a turn has been under way at `now`, never more than the
/// turn takes. A clock that runs backward counts as standing still.
pub open spec fn elapsed(turn: Rotating, now: u64) -> u64 {
    if now <= turn.start_time {
        0
    } else if now - turn.start_time >= turn.duration {
        turn.duration
    } else {
        (now - turn.start_time) as u64
    }
}

/// Whether a turn is over at `now`.
pub open spec fn complete(turn: Rotating, now: u64) -> bool {
    elapsed(turn, now) == turn.duration
}

/// The camera after a command to turn. The command is taken only at rest.
pub open spec fn started(c: Gimbal, generator: Generator, inverse: bool, now: u64) -> Gimbal {
    if c.rotating is Some {
        c
    } else {
        Gimbal {
            rotating: Some(
                Rotating {
                    last_rotation: c.rotation,
                    generator,
                    inverse,
                    start_time: now,
                    duration: c.rotate_time,
                },
            ),
            changed: true,
            ..c
        }
    }
}

/// The camera after a tick of the clock. A turn that is over leaves the
/// camera at rest in exactly the rotation that the turn leads to.
pub open spec fn ticked(c: Gimbal, now: u64) -> Gimbal {
    match c.rotating {
        None => c,
        Some(turn) => if complete(turn, now) {
            Gimbal {
                rotating: None,
                rotation: turned(turn.last_rotation, turn.generator, turn.inverse),
                changed: true,
                ..c
            }
        } else {
            Gimbal { changed: true, ..c }
        },
    }
}

/// What the camera shows at `now`.
pub open spec fn pose_at(c: Gimbal, now: u64) -> Pose {
    match c.rotating {
        None => Pose::Resting(c.rotation),
        Some(turn) => Pose::Turning {
            base: turn.last_rotation,
            generator: turn.generator,
            inverse: turn.inverse,
            elapsed: elapsed(turn, now),
            duration: turn.duration,
        },
    }
}

/// Which turn the keys ask for: the first generator on its key, else the
/// second on its key, either one backward while the modifier is held.
pub open spec fn commanded(first_key: bool, second_key: bool, modifier: bool) -> Option<
    (Generator, bool),
> {
    if first_key {
        Some((Generator::First, modifier))
    } else if second_key {
        Some((Generator::Second, modifier))
    } else {
        None
    }
}

/// Where a camera at rest stands in a world of the given side: at the middle
/// of the padded world, moved back by twice the side along the axis that the
/// inverse rotation turns into the fourth.
pub open spec fn snapshot(rotation: Rotation4, size: u32) -> CameraInternal {
    let centre = size * 32768 + 65536;
    let back = size * 131072;
    CameraInternal {
        position: Vec4 {
            x: (centre - rotation.w.x * back) as i64,
            y: (centre - rotation.w.y * back) as i64,
            z: (centre - rotation.w.z * back) as i64,
            w: (centre - rotation.w.w * back) as i64,
        },
        rotation: transposed(rotation),
        voxel_size: 65536,
    }
}

/// The matrix of a whole quarter turn.
pub fn quarter_turn(generator: Generator, inverse: bool) -> (m: Rotation4)
    ensures
        m == endpoint(generator, inverse),
        signed_permutation(m),
{
    let s: i8 = if inverse { -1 } else { 1 };
    match generator {
        Generator::First => Rotation4 {
            x: Axis4 { x: 0, y: -s, z: 0, w: 0 },
            y: Axis4 { x: s, y: 0, z: 0, w: 0 },
            z: Axis4 { x: 0, y: 0, z: 1, w: 0 },
            w: Axis4 { x: 0, y: 0, z: 0, w: 1 },
        },
        Generator::Second => Rotation4 {
            x: Axis4 { x: 1, y: 0, z: 0, w: 0 },
            y: Axis4 { x: 0, y: 0, z: s, w: 0 },
            z: Axis4 { x: 0, y: -s, z: 0, w: 0 },
            w: Axis4 { x: 0, y: 0, z: 0, w: 1 },
        },
    }
}

fn negate(a: Axis4) -> (r: Axis4)
    requires
        unit(a.x) && unit(a.y) && unit(a.z) && unit(a.w),
    ensures
        r == negated(a),
{
    Axis4 { x: -a.x, y: -a.y, z: -a.z, w: -a.w }
}

/// The rotation in which a camera rests after a quarter turn from `base`.
pub fn turn(base: Rotation4, generator: Generator, inverse: bool) -> (m: Rotation4)
    requires
        signed_permutation(base),
    ensures
        m == turned(base, generator, inverse),
        signed_permutation(m),
{
    match (generator, inverse) {
        (Generator::First, false) => Rotation4 {
            x: negate(base.y),
            y: base.x,
            z: base.z,
            w: base.w,
        },
        (Generator::First, true) => Rotation4 {
            x: base.y,
            y: negate(base.x),
            z: base.z,
            w: base.w,
        },
        (Generator::Second, false) => Rotation4 {
            x: base.x,
            y: base.z,
            z: negate(base.y),
            w: base.w,
        },
        (Generator::Second, true) => Rotation4 {
            x: base.x,
            y: negate(base.z),
            z: base.y,
            w: base.w,
        },
    }
}

/// `centre - c * back` for a component `c` of a rotation at rest.
fn set_back(c: i8, centre: i64, back: i64) -> (r: i64)
    requires
        unit(c),
        0 <= back <= 0x2_0000_0000_0000,
        0 <= centre <= 0x2_0000_0000_0000,
    ensures
        r == centre - c * back,
{
    if c == 1 {
        assert(c * back == back) by (nonlinear_arith)
            requires
                c == 1,
        ;
        centre - back
    } else if c == 0 {
        assert(c * back == 0) by (nonlinear_arith)
            requires
                c == 0,
        ;
        centre
    } else {
        assert(c * back == -back) by (nonlinear_arith)
            requires
                c == -1,
        ;
        centre + back
    }
}

/// Which turn the keys ask for.
pub fn rotate_command(first_key: bool, second_key: bool, modifier: bool) -> (command: Option<
    (Generator, bool),
>)
    ensures
        command == commanded(first_key, second_key, modifier),
{
    if first_key {
        Some((Generator::First, modifier))
    } else if second_key {
        Some((Generator::Second, modifier))
    } else {
        None
    }
}

impl View for Camera {
    type V = Gimbal;

    closed spec fn view(&self) -> Gimbal {
        Gimbal {
            rotate_time: self.rotate_time,
            rotating: self.rotating,
            rotation: self.rotation,
            changed: self.changed,
        }
    }
}

/// Whether a camera is in order: it rests in a signed permutation, and so
/// did it when the turn under way began.
pub open spec fn orderly(c: Gimbal) -> bool {
    &&& signed_permutation(c.rotation)
    &&& c.rotating matches Some(turn) ==> turn.last_rotation == c.rotation
}

impl Camera {
    /// Whether the camera is in order.
    pub open spec fn wf(&self) -> bool {
        orderly(self@)
    }

    /// A camera at rest in the initial rotation, whose turns take one second.
    pub fn new() -> (camera: Camera)
        ensures
            camera.wf(),
            camera@ == (Gimbal {
                rotate_time: 1_000_000,
                rotating: None,
                rotation: initial_rotation(),
                changed: true,
            }),
    {
        Camera {
            rotate_time: 1_000_000,
            rotating: None,
            rotation: Rotation4 {
                x: Axis4 { x: 0, y: 1, z: 0, w: 0 },
                y: Axis4 { x: 0, y: 0, z: 0, w: 1 },
                z: Axis4 { x: 1, y: 0, z: 0, w: 0 },
                w: Axis4 { x: 0, y: 0, z: 1, w: 0 },
            },
            changed: true,
        }
    }

    /// How long the next turn will take.
    pub fn rotate_time(&self) -> (t: u64)
        ensures
            t == self@.rotate_time,
    {
        self.rotate_time
    }

    /// Sets how long the turns that start from now on take. A turn under way
    /// keeps the duration it started with.
    pub fn set_rotate_time(&mut self, rotate_time: u64)
        ensures
            final(self)@ == (Gimbal { rotate_time, ..old(self)@ }),
    {
        self.rotate_time = rotate_time;
    }

    /// The turn under way, if any.
    pub fn rotating(&self) -> (turn: Option<Rotating>)
        ensures
            turn == self@.rotating,
    {
        self.rotating
    }

    /// The rotation in which the camera last rested.
    pub fn rotation(&self) -> (m: Rotation4)
        ensures
            m == self@.rotation,
    {
        self.rotation
    }

    /// Starts a quarter turn at `now`, unless one is under way: then the
    /// command is dropped and the camera stays as it is. Says whether the
    /// turn was started.
    pub fn rotate(&mut self, generator: Generator, inverse: bool, now: u64) -> (accepted: bool)
        requires
            old(self).wf(),
        ensures
            final(self).wf(),
            accepted == (old(self)@.rotating is None),
            final(self)@ == started(old(self)@, generator, inverse, now),
    {
        if self.rotating.is_some() {
            return false;
        }
        self.rotating = Some(
            Rotating {
                last_rotation: self.rotation,
                generator,
                inverse,
                start_time: now,
                duration: self.rotate_time,
            },
        );
        self.changed = true;
        true
    }

    /// What the camera shows at `now`.
    pub fn pose(&self, now: u64) -> (pose: Pose)
        ensures
            pose == pose_at(self@, now),
    {
        match self.rotating {
            None => Pose::Resting(self.rotation),
            Some(turn) => Pose::Turning {
                base: turn.last_rotation,
                generator: turn.generator,
                inverse: turn.inverse,
                elapsed: time_into(turn, now),
                duration: turn.duration,
            },
        }
    }

    /// Moves the clock to `now` and returns what the camera shows then. A
    /// turn that is over ends in exactly the rotation it leads to.
    pub fn tick(&mut self, now: u64) -> (pose: Pose)
        requires
            old(self).wf(),
        ensures
            final(self).wf(),
            final(self)@ == ticked(old(self)@, now),
            pose == pose_at(final(self)@, now),
    {
        match self.rotating {
            None => {},
            Some(under_way) => {
                if time_into(under_way, now) == under_way.duration {
                    self.rotation =
                    turn(under_way.last_rotation, under_way.generator, under_way.inverse);
                    self.rotating = None;
                }
                self.changed = true;
            },
        }
        self.pose(now)
    }

    /// What the renderer is given of the camera at rest, in a world of the
    /// given side.
    pub fn to_internal(&self, world_size: WorldSize) -> (internal: CameraInternal)
        requires
            self.wf(),
        ensures
            internal == snapshot(self@.rotation, world_size.0),
    {
        let size: i64 = world_size.0 as i64;
        let centre: i64 = size * 32768 + 65536;
        let back: i64 = size * 131072;
        let r = self.rotation;
        CameraInternal {
            position: Vec4 {
                x: set_back(r.w.x, centre, back),
                y: set_back(r.w.y, centre, back),
                z: set_back(r.w.z, centre, back),
                w: set_back(r.w.w, centre, back),
            },
            rotation: Rotation4 {
                x: Axis4 { x: r.x.x, y: r.y.x, z: r.z.x, w: r.w.x },
                y: Axis4 { x: r.x.y, y: r.y.y, z: r.z.y, w: r.w.y },
                z: Axis4 { x: r.x.z, y: r.y.z, z: r.z.z, w: r.w.z },
                w: Axis4 { x: r.x.w, y: r.y.w, z: r.z.w, w: r.w.w },
            },
            voxel_size: 65536,
        }
    }

    /// Whether the pose was changed since this was last asked, which the
    /// camera then forgets.
    pub fn take_changed(&mut self) -> (changed: bool)
        ensures
            changed == old(self)@.changed,
            final(self)@ == (Gimbal { changed: false, ..old(self)@ }),
    {
        let changed = self.changed;
        self.changed = false;
        changed
    }
}

fn time_into(turn: Rotating, now: u64) -> (t: u64)
    ensures
        t == elapsed(turn, now),
{
    if now <= turn.start_time {
        0
    } else if now - turn.start_time >= turn.duration {
        turn.duration
    } else {
        now - turn.start_time
    }
}

spec fn scaled(c: i8, v: i8) -> int {
    if c == 1 {
        v as int
    } else if c == -1 {
        -v
    } else {
        0
    }
}

proof fn lemma_scaled(c: i8, v: i8)
    requires
        unit(c),
    ensures
        c * v == scaled(c, v),
{
    assert(c * v == scaled(c, v)) by (nonlinear_arith)
        requires
            c == 1 || c == 0 || c == -1,
            scaled(c, v) == if c == 1 {
                v as int
            } else if c == -1 {
                -v
            } else {
                0
            },
    ;
}

proof fn lemma_row_product(a: Axis4, b: Rotation4)
    requires
        unit(a.x) && unit(a.y) && unit(a.z) && unit(a.w),
    ensures
        row_product(a, b) == (Axis4 {
            x: (scaled(a.x, b.x.x) + scaled(a.y, b.y.x) + scaled(a.z, b.z.x) + scaled(a.w, b.w.x)) as i8,
            y: (scaled(a.x, b.x.y) + scaled(a.y, b.y.y) + scaled(a.z, b.z.y) + scaled(a.w, b.w.y)) as i8,
            z: (scaled(a.x, b.x.z) + scaled(a.y, b.y.z) + scaled(a.z, b.z.z) + scaled(a.w, b.w.z)) as i8,
            w: (scaled(a.x, b.x.w) + scaled(a.y, b.y.w) + scaled(a.z, b.z.w) + scaled(a.w, b.w.w)) as i8,
        }),
{
    lemma_scaled(a.x, b.x.x);
    lemma_scaled(a.y, b.y.x);
    lemma_scaled(a.z, b.z.x);
    lemma_scaled(a.w, b.w.x);
    lemma_scaled(a.x, b.x.y);
    lemma_scaled(a.y, b.y.y);
    lemma_scaled(a.z, b.z.y);
    lemma_scaled(a.w, b.w.y);
    lemma_scaled(a.x, b.x.z);
    lemma_scaled(a.y, b.y.z);
    lemma_scaled(a.z, b.z.z);
    lemma_scaled(a.w, b.w.z);
    lemma_scaled(a.x, b.x.w);
    lemma_scaled(a.y, b.y.w);
    lemma_scaled(a.z, b.z.w);
    lemma_scaled(a.w, b.w.w);
}

/// A quarter turn of a signed permutation is a signed permutation again, and
/// it is the matrix of the turn times the rotation it starts from.
pub proof fn lemma_turn_is_rotation(base: Rotation4, generator: Generator, inverse: bool)
    requires
        signed_permutation(base),
    ensures
        signed_permutation(endpoint(generator, inverse)),
        signed_permutation(turned(base, generator, inverse)),
        turned(base, generator, inverse) == product(endpoint(generator, inverse), base),
        endpoint(generator, !inverse) == transposed(endpoint(generator, inverse)),
{
    let e = endpoint(generator, inverse);
    lemma_row_product(e.x, base);
    lemma_row_product(e.y, base);
    lemma_row_product(e.z, base);
    lemma_row_product(e.w, base);
}

/// No drift: four quarter turns of the same kind bring a camera back to
/// exactly the rotation it started in, and so does a quarter turn followed by
/// its opposite.
pub proof fn lemma_full_turn(base: Rotation4, generator: Generator, inverse: bool)
    requires
        signed_permutation(base),
    ensures
        turned(
            turned(turned(turned(base, generator, inverse), generator, inverse), generator, inverse),
            generator,
            inverse,
        ) == base,
        turned(turned(base, generator, inverse), generator, !inverse) == base,
{
}

/// Every turn that is started at rest and run to its end leaves the camera at
/// rest in exactly the closed-form target, whatever ticks came in between.
pub proof fn lemma_turn_completes(c: Gimbal, generator: Generator, inverse: bool, now: u64, then: u64)
    requires
        orderly(c),
        c.rotating is None,
        then >= now,
        then - now >= c.rotate_time,
    ensures
        ticked(started(c, generator, inverse, now), then).rotating is None,
        ticked(started(c, generator, inverse, now), then).rotation == turned(
            c.rotation,
            generator,
            inverse,
        ),
        orderly(ticked(started(c, generator, inverse, now), then)),
{
    lemma_turn_is_rotation(c.rotation, generator, inverse);
}

/// A turn under way cannot be disturbed: a command to turn leaves the camera
/// as it is, and no tick before the end changes the turn or ends it.
pub proof fn lemma_turn_undisturbed(c: Gimbal, generator: Generator, inverse: bool, now: u64)
    requires
        c.rotating is Some,
    ensures
        started(c, generator, inverse, now) == c,
        !complete(c.rotating->Some_0, now) ==> ticked(c, now).rotating == c.rotating && ticked(
            c,
            now,
        ).rotation == c.rotation,
{
}

} // verus!
