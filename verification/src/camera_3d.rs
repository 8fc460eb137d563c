//! The first-person camera: a position, a yaw about the vertical axis and a
//! pitch that is kept strictly between the poles.
//!
//! Angles, lengths and times are fixed-point numbers (see `fixed`). The
//! vertical axis is `z`; at yaw zero the camera looks along `+x` and its left
//! is `+y`. The camera does no trigonometry of its own: where a yaw has to be
//! applied, the caller hands in its cosine and sine.

use crate::fixed::{diff, minus, plus, product, sum, times, vec3_sum, Vec3};
use vstd::prelude::*;

verus! {

/// The half turn, in fixed-point radians, rounded down.
pub const PI: i64 = 205887;

/// `1 / sqrt(2)` in fixed point: the length of each component of a unit
/// vector along a diagonal of a square.
pub const DIAGONAL_2: i64 = 46341;

/// `1 / sqrt(3)` in fixed point: the length of each component of a unit
/// vector along a diagonal of a cube.
pub const DIAGONAL_3: i64 = 37837;

/// The open interval of pitches that a camera may take.
#[derive(Copy, Clone, Debug, PartialEq, Eq, Structural)]
pub struct PitchRange {
    /// The pitch that is just too low.
    pub low: i64,
    /// The pitch that is just too high.
    pub high: i64,
}

/// The movement controls that are held down.
#[derive(Copy, Clone, Debug, PartialEq, Eq, Structural)]
pub struct MoveKeys {
    pub forward: bool,
    pub back: bool,
    pub left: bool,
    pub right: bool,
    pub up: bool,
    pub down: bool,
}

/// Cosine and sine of an angle, in fixed point.
#[derive(Copy, Clone, Debug, PartialEq, Eq, Structural)]
pub struct Heading {
    pub cos: i64,
    pub sin: i64,
}

/// The first-person camera.
#[derive(Copy, Clone, Debug, PartialEq, Eq, Structural)]
pub struct Camera {
    x: i64,
    y: i64,
    pitch_range: PitchRange,
    position: Vec3,
    fov: i64,
    sensitivity: i64,
    speed: i64,
    active: bool,
    changed: bool,
}

/// What a `Camera` holds.
pub ghost struct Eye {
    /// The yaw.
    pub x: i64,
    /// The pitch.
    pub y: i64,
    pub pitch_range: PitchRange,
    pub position: Vec3,
    /// The field of view.
    pub fov: i64,
    /// How far the camera turns for a unit of pointer motion per second.
    pub sensitivity: i64,
    /// How far the camera moves in a second.
    pub speed: i64,
    /// Whether the camera takes input.
    pub active: bool,
    /// Whether the pose was changed since `take_changed` last ran.
    pub changed: bool,
}

/// Whether a range leaves room for a pitch and keeps it off the poles at 0
/// and `PI`.
pub open spec fn proper(range: PitchRange) -> bool {
    0 <= range.low && range.low + 2 <= range.high && range.high <= PI
}

/// Whether a camera is in order: its pitch lies strictly inside its proper
/// range.
pub open spec fn orderly(e: Eye) -> bool {
    proper(e.pitch_range) && e.pitch_range.low < e.y < e.pitch_range.high
}

/// The pitch nearest to `pitch` that lies strictly inside the range.
pub open spec fn clamped(pitch: i64, range: PitchRange) -> i64 {
    if pitch <= range.low {
        (range.low + 1) as i64
    } else if pitch >= range.high {
        (range.high - 1) as i64
    } else {
        pitch
    }
}

/// The camera after pointer motion `(dx, dy)` during `dt`: the yaw falls by
/// `dx * sensitivity * dt`, the pitch rises by `dy * sensitivity * dt` and is
/// then clamped. A camera that is not active stays as it is.
pub open spec fn looked(e: Eye, dx: i64, dy: i64, dt: i64) -> Eye {
    if !e.active {
        e
    } else {
        Eye {
            x: diff(e.x, product(product(dx, e.sensitivity), dt)),
            y: clamped(sum(e.y, product(product(dy, e.sensitivity), dt)), e.pitch_range),
            changed: true,
            ..e
        }
    }
}

/// One for a held control, zero for a released one.
pub open spec fn held(key: bool) -> int {
    if key {
        1
    } else {
        0
    }
}

/// The sum of the unit directions of the held controls, in the camera's own
/// frame: forward minus back, left minus right, up minus down.
pub open spec fn direction(keys: MoveKeys) -> (int, int, int) {
    (
        held(keys.forward) - held(keys.back),
        held(keys.left) - held(keys.right),
        held(keys.up) - held(keys.down),
    )
}

/// The length of each non-zero component of the unit vector along a
/// direction whose components are -1, 0 or 1.
pub open spec fn unit_component(d: (int, int, int)) -> i64 {
    let n = d.0 * d.0 + d.1 * d.1 + d.2 * d.2;
    if n == 1 {
        65536
    } else if n == 2 {
        DIAGONAL_2
    } else {
        DIAGONAL_3
    }
}

/// `length` with the sign of `d`.
pub open spec fn along(d: int, length: i64) -> i64 {
    if d > 0 {
        length
    } else if d < 0 {
        diff(0, length)
    } else {
        0
    }
}

/// The step in the camera's own frame: the unit vector of the direction,
/// scaled by `speed * dt`.
pub open spec fn local_step(e: Eye, keys: MoveKeys, dt: i64) -> Vec3 {
    let d = direction(keys);
    let length = product(unit_component(d), product(dt, e.speed));
    Vec3 { x: along(d.0, length), y: along(d.1, length), z: along(d.2, length) }
}

/// A vector turned about the vertical axis by the angle of `heading`.
pub open spec fn turned(v: Vec3, heading: Heading) -> Vec3 {
    Vec3 {
        x: diff(product(heading.cos, v.x), product(heading.sin, v.y)),
        y: sum(product(heading.sin, v.x), product(heading.cos, v.y)),
        z: v.z,
    }
}

/// The camera after `dt` with the given controls held, where `heading` is
/// the cosine and sine of its yaw. A camera that is not active, and one whose
/// controls cancel, stays as it is.
pub open spec fn moved(e: Eye, keys: MoveKeys, dt: i64, heading: Heading) -> Eye {
    if !e.active || direction(keys) == (0int, 0int, 0int) {
        e
    } else {
        Eye {
            position: vec3_sum(e.position, turned(local_step(e, keys, dt), heading)),
            changed: true,
            ..e
        }
    }
}

/// The camera after the grab inputs of a frame: a click makes it active,
/// the escape key makes it inactive, and the key wins over the click.
pub open spec fn grabbed(e: Eye, click: bool, escape: bool) -> Eye {
    Eye { active: if escape { false } else if click { true } else { e.active }, ..e }
}

/// What the windowing layer has to do with the pointer after the grab inputs
/// of a frame: lock and hide it (`Some(true)`), free and show it
/// (`Some(false)`), or leave it (`None`).
pub open spec fn pointer_lock(click: bool, escape: bool) -> Option<bool> {
    if escape {
        Some(false)
    } else if click {
        Some(true)
    } else {
        None
    }
}

impl View for Camera {
    type V = Eye;

    closed spec fn view(&self) -> Eye {
        Eye {
            x: self.x,
            y: self.y,
            pitch_range: self.pitch_range,
            position: self.position,
            fov: self.fov,
            sensitivity: self.sensitivity,
            speed: self.speed,
            active: self.active,
            changed: self.changed,
        }
    }
}

impl Camera {
    /// Whether the camera is in order.
    pub open spec fn wf(&self) -> bool {
        orderly(self@)
    }

    /// An inactive camera at `position` with yaw `x`, level pitch, and the
    /// usual range, field of view, sensitivity and speed.
    pub fn new(position: Vec3, x: i64) -> (camera: Camera)
        ensures
            camera.wf(),
            camera@ == (Eye {
                x,
                y: 102943,
                pitch_range: PitchRange { low: 655, high: 205232 },
                position,
                fov: 65536,
                sensitivity: 65536,
                speed: 327680,
                active: false,
                changed: true,
            }),
    {
        let pitch_range = PitchRange { low: 655, high: PI - 655 };
        Camera {
            x,
            y: (pitch_range.low + pitch_range.high) / 2,
            pitch_range,
            position,
            fov: 65536,
            sensitivity: 65536,
            speed: 327680,
            active: false,
            changed: true,
        }
    }

    /// The yaw.
    pub fn yaw(&self) -> (a: i64)
        ensures
            a == self@.x,
    {
        self.x
    }

    /// The pitch.
    pub fn pitch(&self) -> (a: i64)
        ensures
            a == self@.y,
    {
        self.y
    }

    /// The range of the pitch.
    pub fn pitch_range(&self) -> (r: PitchRange)
        ensures
            r == self@.pitch_range,
    {
        self.pitch_range
    }

    /// Where the camera stands.
    pub fn position(&self) -> (p: Vec3)
        ensures
            p == self@.position,
    {
        self.position
    }

    /// The field of view.
    pub fn fov(&self) -> (a: i64)
        ensures
            a == self@.fov,
    {
        self.fov
    }

    /// How far the camera turns for a unit of pointer motion per second.
    pub fn sensitivity(&self) -> (s: i64)
        ensures
            s == self@.sensitivity,
    {
        self.sensitivity
    }

    /// How far the camera moves in a second.
    pub fn speed(&self) -> (s: i64)
        ensures
            s == self@.speed,
    {
        self.speed
    }

    /// Whether the camera takes input.
    pub fn is_active(&self) -> (b: bool)
        ensures
            b == self@.active,
    {
        self.active
    }

    /// Gives the camera another range for its pitch and clamps the pitch into
    /// it. A range that is not proper is turned down and changes nothing.
    pub fn set_pitch_range(&mut self, range: PitchRange) -> (accepted: bool)
        requires
            old(self).wf(),
        ensures
            final(self).wf(),
            accepted == proper(range),
            final(self)@ == if proper(range) {
                Eye {
                    pitch_range: range,
                    y: clamped(old(self)@.y, range),
                    changed: true,
                    ..old(self)@
                }
            } else {
                old(self)@
            },
    {
        if range.low < 0 || range.high > PI || range.high < 2 || range.low > range.high - 2 {
            return false;
        }
        self.pitch_range = range;
        self.y = clamp_pitch(self.y, range);
        self.changed = true;
        true
    }

    /// Puts the camera at `position`.
    pub fn set_position(&mut self, position: Vec3)
        ensures
            final(self)@ == (Eye { position, changed: true, ..old(self)@ }),
    {
        self.position = position;
        self.changed = true;
    }

    /// Makes the camera take input or ignore it.
    pub fn set_active(&mut self, active: bool)
        ensures
            final(self)@ == (Eye { active, ..old(self)@ }),
    {
        self.active = active;
    }

    /// Applies the grab inputs of a frame and says what to do with the
    /// pointer.
    pub fn grab(&mut self, click: bool, escape: bool) -> (lock: Option<bool>)
        ensures
            final(self)@ == grabbed(old(self)@, click, escape),
            lock == pointer_lock(click, escape),
    {
        if click {
            self.active = true;
        }
        if escape {
            self.active = false;
        }
        if escape {
            Some(false)
        } else if click {
            Some(true)
        } else {
            None
        }
    }

    /// Turns the camera by the pointer motion `(dx, dy)` that took `dt`.
    pub fn apply_look_delta(&mut self, dx: i64, dy: i64, dt: i64)
        requires
            old(self).wf(),
        ensures
            final(self).wf(),
            final(self)@ == looked(old(self)@, dx, dy, dt),
    {
        if !self.active {
            return ;
        }
        self.x = minus(self.x, times(times(dx, self.sensitivity), dt));
        self.y = clamp_pitch(plus(self.y, times(times(dy, self.sensitivity), dt)), self.pitch_range);
        self.changed = true;
    }

    /// Moves the camera for `dt` with the given controls held. `heading` is
    /// the cosine and sine of the camera's yaw.
    pub fn apply_move_input(&mut self, keys: MoveKeys, dt: i64, heading: Heading)
        ensures
            final(self)@ == moved(old(self)@, keys, dt, heading),
    {
        if !self.active {
            return ;
        }
        let dx: i8 = axis_of(keys.forward, keys.back);
        let dy: i8 = axis_of(keys.left, keys.right);
        let dz: i8 = axis_of(keys.up, keys.down);
        if dx == 0 && dy == 0 && dz == 0 {
            return ;
        }
        let axes: u8 = (if dx != 0 { 1u8 } else { 0u8 }) + (if dy != 0 { 1u8 } else { 0u8 }) + (if dz
            != 0 { 1u8 } else { 0u8 });
        let component: i64 = if axes == 1 {
            65536
        } else if axes == 2 {
            DIAGONAL_2
        } else {
            DIAGONAL_3
        };
        proof {
            let d = direction(keys);
            assert(d.0 * d.0 + d.1 * d.1 + d.2 * d.2 == axes) by (nonlinear_arith)
                requires
                    d.0 == dx,
                    d.1 == dy,
                    d.2 == dz,
                    -1 <= dx <= 1,
                    -1 <= dy <= 1,
                    -1 <= dz <= 1,
                    axes == (if dx != 0 { 1int } else { 0int }) + (if dy != 0 { 1int } else { 0int })
                        + (if dz != 0 { 1int } else { 0int }),
            ;
        }
        let length: i64 = times(component, times(dt, self.speed));
        let local = Vec3 { x: signed(dx, length), y: signed(dy, length), z: signed(dz, length) };
        let step = Vec3 {
            x: minus(times(heading.cos, local.x), times(heading.sin, local.y)),
            y: plus(times(heading.sin, local.x), times(heading.cos, local.y)),
            z: local.z,
        };
        self.position = self.position.plus(step);
        self.changed = true;
    }

    /// Whether the pose was changed since this was last asked, which the
    /// camera then forgets.
    pub fn take_changed(&mut self) -> (changed: bool)
        ensures
            changed == old(self)@.changed,
            final(self)@ == (Eye { changed: false, ..old(self)@ }),
    {
        let changed = self.changed;
        self.changed = false;
        changed
    }
}

fn clamp_pitch(pitch: i64, range: PitchRange) -> (p: i64)
    requires
        proper(range),
    ensures
        p == clamped(pitch, range),
        range.low < p < range.high,
{
    if pitch <= range.low {
        range.low + 1
    } else if pitch >= range.high {
        range.high - 1
    } else {
        pitch
    }
}

fn axis_of(plus_key: bool, minus_key: bool) -> (d: i8)
    ensures
        d == held(plus_key) - held(minus_key),
{
    if plus_key && !minus_key {
        1
    } else if minus_key && !plus_key {
        -1
    } else {
        0
    }
}

fn signed(d: i8, length: i64) -> (r: i64)
    ensures
        r == along(d as int, length),
{
    if d > 0 {
        length
    } else if d < 0 {
        minus(0, length)
    } else {
        0
    }
}

/// The pitch never reaches a pole: whatever the pointer does, the pitch of a
/// camera in order stays strictly inside its range, and so strictly between
/// 0 and `PI`.
pub proof fn lemma_pitch_off_the_poles(e: Eye, dx: i64, dy: i64, dt: i64)
    requires
        orderly(e),
    ensures
        orderly(looked(e, dx, dy, dt)),
        e.pitch_range.low < looked(e, dx, dy, dt).y < e.pitch_range.high,
        0 < looked(e, dx, dy, dt).y < PI,
{
}

/// Without a direction there is no motion: with no control held, or with
/// controls that cancel, the camera stays where it is, however long the
/// frame and whatever the heading.
pub proof fn lemma_still_without_keys(e: Eye, keys: MoveKeys, dt: i64, heading: Heading)
    requires
        keys.forward == keys.back,
        keys.left == keys.right,
        keys.up == keys.down,
    ensures
        moved(e, keys, dt, heading) == e,
{
}

/// A camera that is not active ignores pointer and controls alike.
pub proof fn lemma_inactive_ignores_input(
    e: Eye,
    dx: i64,
    dy: i64,
    keys: MoveKeys,
    dt: i64,
    heading: Heading,
)
    requires
        !e.active,
    ensures
        looked(e, dx, dy, dt) == e,
        moved(e, keys, dt, heading) == e,
{
}

} // verus!
