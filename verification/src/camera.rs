//! The camera controller: a mode flag and a look direction, a free-fly mode
//! steered by mouse and keys, and a follow mode that eases toward the player.

use vstd::prelude::*;
use crate::numeric::clamp;
use crate::numeric::clamp_to;
use crate::numeric::ease;
use crate::numeric::ease_step;
use crate::numeric::ease_toward;
use crate::numeric::is_sqrt_floor;
use crate::numeric::isqrt;
use crate::numeric::lemma_part_at_most_root;
use crate::numeric::lemma_sqrt_floor_exists;
use crate::numeric::lemma_sqrt_floor_is;
use crate::numeric::sqrt_floor;
use crate::numeric::lemma_ease_step_bounds;
use crate::units::CAMERA_DISTANCE;
use crate::units::CAMERA_HEIGHT;
use crate::units::CAMERA_LIMIT;
use crate::units::CAMERA_SPEED;
use crate::units::FOLLOW_RATE;
use crate::units::LOOK_MIN_SQ;
use crate::units::MOUSE_SENSITIVITY;
use crate::units::PITCH_LIMIT;
use crate::units::RESTING_HEIGHT;
use crate::units::UNIT;
use crate::vector::lemma_move_no_longer_than_travel;
use crate::vector::FixedVec3;

verus! {

/// The camera's mode and look direction. Angles are in millionths of a
/// radian: `yaw` about the world's up axis, `pitch` about the camera's right
/// axis, positive upward.
#[derive(Clone, Copy, Debug, PartialEq, Eq, Structural)]
pub struct CameraState {
    /// `true` while the camera follows the player, `false` while it flies.
    pub locked: bool,
    pub pitch: i64,
    pub yaw: i64,
}

/// What can switch the camera's mode in one frame.
#[derive(Clone, Copy, Debug, PartialEq, Eq, Structural)]
pub struct LockInput {
    /// A primary window exists.
    pub window_present: bool,
    /// The right mouse button went down in this frame.
    pub right_mouse: bool,
    /// The left Alt key went down in this frame.
    pub alt_left: bool,
    /// The right Alt key went down in this frame.
    pub alt_right: bool,
}

/// The keys that move the free-flying camera, as held in this frame.
#[derive(Clone, Copy, Debug, PartialEq, Eq, Structural)]
pub struct FlyKeys {
    pub w: bool,
    pub a: bool,
    pub s: bool,
    pub d: bool,
    pub e: bool,
    pub q: bool,
    pub space: bool,
    pub shift_left: bool,
}

/// How far the keys push along each of the camera's axes: -1, 0 or 1 along
/// its forward axis, its right axis and the world's up axis.
#[derive(Clone, Copy, Debug, PartialEq, Eq, Structural)]
pub struct FlyAxes {
    pub forward: i8,
    pub right: i8,
    pub up: i8,
}

/// The camera's own forward and right axes, each a direction of length
/// `UNIT`, as they are once its orientation is set.
#[derive(Clone, Copy, Debug, PartialEq, Eq, Structural)]
pub struct CameraAxes {
    pub forward: FixedVec3,
    pub right: FixedVec3,
}

/// One mouse-motion event: how far the mouse went to the right and downward,
/// in thousandths of a pixel.
#[derive(Clone, Copy, Debug, PartialEq, Eq, Structural)]
pub struct MouseTravel {
    pub dx: i32,
    pub dy: i32,
}

/// One frame's input to the camera, besides the mouse-motion events.
#[derive(Clone, Copy, Debug, PartialEq, Eq, Structural)]
pub struct CameraInput {
    /// Time since the last frame, in microseconds.
    pub dt_micros: u32,
    pub keys: FlyKeys,
}

/// What the host does to the camera's pose in this frame.
#[derive(Clone, Copy, Debug, PartialEq, Eq)]
pub enum CameraAction {
    /// Leave the pose as it is.
    Stay,
    /// Put the camera at `position`. Where `look` is a direction, turn the
    /// camera toward it by the part `factor / UNIT` of the angle between.
    /// Then read yaw and pitch off the resulting orientation and hand them
    /// to `CameraState::store_orientation`.
    Follow { position: FixedVec3, look: Option<FixedVec3>, factor: u32 },
    /// Set the orientation to `yaw` about the world's up axis followed by
    /// `pitch` about the camera's right axis. Then hand the camera's own
    /// axes to `fly_step`, and put the camera where it says.
    Fly { yaw: i64, pitch: i64 },
}

/// 1 where only `plus` holds, -1 where only `minus` holds, else 0.
pub open spec fn axis(plus: bool, minus: bool) -> int {
    (if plus { 1int } else { 0int }) - (if minus { 1int } else { 0int })
}

/// The blend factor of the following camera after `dt` microseconds:
/// twice the time in seconds, and at most 1.
pub open spec fn follow_factor(dt: int) -> int {
    if FOLLOW_RATE * dt < UNIT {
        FOLLOW_RATE * dt
    } else {
        UNIT as int
    }
}

/// `v` held to the camera's extent.
pub open spec fn clamp_to_camera_extent(v: int) -> int {
    clamp(v, -(CAMERA_LIMIT as int), CAMERA_LIMIT as int)
}

/// The point lies in the camera's extent.
pub open spec fn in_camera_extent(v: FixedVec3) -> bool {
    v.within(CAMERA_LIMIT as int)
}

/// Where the following camera wants to be: above and behind the player, by
/// the camera's height and distance.
pub open spec fn follow_target(player: FixedVec3) -> FixedVec3 {
    FixedVec3 {
        x: player.x,
        y: (player.y + CAMERA_HEIGHT) as i64,
        z: (player.z + CAMERA_DISTANCE) as i64,
    }
}

/// Where the following camera is after a frame of `dt` microseconds.
pub open spec fn follow_position(camera: FixedVec3, player: FixedVec3, dt: int) -> FixedVec3 {
    let target = follow_target(player);
    let f = follow_factor(dt);
    FixedVec3 {
        x: ease(camera.x as int, target.x as int, f) as i64,
        y: ease(camera.y as int, target.y as int, f) as i64,
        z: ease(camera.z as int, target.z as int, f) as i64,
    }
}

/// The direction from the camera at `position` to the player's centre at
/// resting height.
pub open spec fn look_direction(position: FixedVec3, player: FixedVec3) -> FixedVec3 {
    FixedVec3 {
        x: (player.x - position.x) as i64,
        y: (RESTING_HEIGHT - position.y) as i64,
        z: (player.z - position.z) as i64,
    }
}

/// The direction toward which the following camera turns, if it is long
/// enough to give one.
pub open spec fn follow_look(position: FixedVec3, player: FixedVec3) -> Option<FixedVec3> {
    let dir = look_direction(position, player);
    if dir.length_squared() > LOOK_MIN_SQ {
        Some(dir)
    } else {
        None
    }
}

/// The mouse travel to the right, summed over the events of a frame.
pub open spec fn total_dx(motion: Seq<MouseTravel>) -> int
    decreases motion.len(),
{
    if motion.len() == 0 {
        0
    } else {
        total_dx(motion.drop_last()) + motion.last().dx
    }
}

/// The mouse travel downward, summed over the events of a frame.
pub open spec fn total_dy(motion: Seq<MouseTravel>) -> int
    decreases motion.len(),
{
    if motion.len() == 0 {
        0
    } else {
        total_dy(motion.drop_last()) + motion.last().dy
    }
}

/// What a frame does to a camera whose state, before the frame, is `state`.
pub open spec fn camera_action(
    state: CameraState,
    camera: Option<FixedVec3>,
    player: Option<FixedVec3>,
    motion: Seq<MouseTravel>,
    input: CameraInput,
) -> CameraAction {
    if camera is None {
        CameraAction::Stay
    } else if state.locked {
        if player is None {
            CameraAction::Stay
        } else {
            let position = follow_position(camera->0, player->0, input.dt_micros as int);
            CameraAction::Follow {
                position,
                look: follow_look(position, player->0),
                factor: follow_factor(input.dt_micros as int) as u32,
            }
        }
    } else {
        let next = state.looked(total_dx(motion), total_dy(motion));
        CameraAction::Fly { yaw: next.yaw, pitch: next.pitch }
    }
}

/// `v` where `weight` is 1, its opposite where `weight` is -1, and nothing
/// where it is 0.
pub open spec fn weighted(weight: int, v: int) -> int {
    if weight > 0 {
        v
    } else if weight < 0 {
        -v
    } else {
        0
    }
}

/// The direction in which the keys push the camera, not yet of unit
/// length: the sum of the camera's forward axis, its right axis and the
/// world's up axis, each weighted as the keys say.
pub open spec fn fly_push(axes: FlyAxes, frame: CameraAxes) -> FixedVec3 {
    FixedVec3 {
        x: (weighted(axes.forward as int, frame.forward.x as int) + weighted(
            axes.right as int,
            frame.right.x as int,
        )) as i64,
        y: (weighted(axes.forward as int, frame.forward.y as int) + weighted(
            axes.right as int,
            frame.right.y as int,
        ) + weighted(axes.up as int, UNIT as int)) as i64,
        z: (weighted(axes.forward as int, frame.forward.z as int) + weighted(
            axes.right as int,
            frame.right.z as int,
        )) as i64,
    }
}

/// How far the free-flying camera travels in `dt` microseconds.
pub open spec fn fly_travel(dt: int) -> int {
    CAMERA_SPEED * dt
}

/// The move of a camera that is pushed along `push` and travels `travel`
/// far: along `push` scaled to unit length, so that a push along two axes at
/// once is no faster than one along a single axis; no move where nothing
/// pushes.
pub open spec fn fly_move(push: FixedVec3, travel: int) -> FixedVec3 {
    let len = sqrt_floor(push.length_squared());
    if len == 0 {
        FixedVec3 { x: 0, y: 0, z: 0 }
    } else {
        push.to_unit_length(len).stretched(travel)
    }
}

/// Where the free-flying camera is after a frame of `dt` microseconds in
/// which `keys` were held: moved as the keys push, and held to the camera's
/// extent.
pub open spec fn fly_position(camera: FixedVec3, frame: CameraAxes, keys: FlyKeys, dt: int)
    -> FixedVec3 {
    let by = fly_move(fly_push(keys.axes(), frame), fly_travel(dt));
    FixedVec3 {
        x: clamp_to_camera_extent(camera.x + by.x) as i64,
        y: clamp_to_camera_extent(camera.y + by.y) as i64,
        z: clamp_to_camera_extent(camera.z + by.z) as i64,
    }
}

impl LockInput {
    /// How many triggers fired in the frame: the right mouse button and each
    /// of the Alt keys count one where they went down.
    pub open spec fn trigger_count(&self) -> int {
        (if self.right_mouse { 1int } else { 0int }) + (if self.alt_left { 1int } else { 0int })
            + (if self.alt_right { 1int } else { 0int })
    }

    /// The frame leaves the camera in the other mode: there is a window, and
    /// an odd number of triggers fired. Each trigger switches the mode, so
    /// two in one frame cancel.
    pub open spec fn flips(&self) -> bool {
        self.window_present && self.trigger_count() % 2 == 1
    }
}

impl CameraAxes {
    /// Neither axis has a coordinate larger in magnitude than `UNIT`.
    pub open spec fn wf(&self) -> bool {
        self.forward.within(UNIT as int) && self.right.within(UNIT as int)
    }

    /// The axes nearest to the given ones that are well formed: each
    /// coordinate is held to the interval from `-UNIT` to `UNIT`.
    pub fn clamped(forward: FixedVec3, right: FixedVec3) -> (r: CameraAxes)
        ensures
            r.wf(),
            forward.within(UNIT as int) && right.within(UNIT as int) ==> r == (CameraAxes {
                forward,
                right,
            }),
            r.forward.x == clamp(forward.x as int, -(UNIT as int), UNIT as int),
            r.forward.y == clamp(forward.y as int, -(UNIT as int), UNIT as int),
            r.forward.z == clamp(forward.z as int, -(UNIT as int), UNIT as int),
            r.right.x == clamp(right.x as int, -(UNIT as int), UNIT as int),
            r.right.y == clamp(right.y as int, -(UNIT as int), UNIT as int),
            r.right.z == clamp(right.z as int, -(UNIT as int), UNIT as int),
    {
        CameraAxes {
            forward: FixedVec3 {
                x: clamp_to(forward.x as i128, -UNIT, UNIT),
                y: clamp_to(forward.y as i128, -UNIT, UNIT),
                z: clamp_to(forward.z as i128, -UNIT, UNIT),
            },
            right: FixedVec3 {
                x: clamp_to(right.x as i128, -UNIT, UNIT),
                y: clamp_to(right.y as i128, -UNIT, UNIT),
                z: clamp_to(right.z as i128, -UNIT, UNIT),
            },
        }
    }
}

impl FlyKeys {
    /// W against S along the forward axis, D against A along the right axis,
    /// E or Space against Q or left Shift along the up axis.
    pub open spec fn axes(&self) -> FlyAxes {
        FlyAxes {
            forward: axis(self.w, self.s) as i8,
            right: axis(self.d, self.a) as i8,
            up: axis(self.e || self.space, self.q || self.shift_left) as i8,
        }
    }

    /// Computes the push of the keys along each axis.
    pub fn fly_axes(&self) -> (r: FlyAxes)
        ensures
            r == self.axes(),
    {
        FlyAxes {
            forward: key_axis(self.w, self.s),
            right: key_axis(self.d, self.a),
            up: key_axis(self.e || self.space, self.q || self.shift_left),
        }
    }
}

/// Computes `v`, its opposite or nothing, as `weight` says.
fn weigh(weight: i8, v: i64) -> (r: i64)
    requires
        -UNIT <= v <= UNIT,
    ensures
        r as int == weighted(weight as int, v as int),
{
    if weight > 0 {
        v
    } else if weight < 0 {
        -v
    } else {
        0
    }
}

/// Computes 1 where only `plus` holds, -1 where only `minus` holds, else 0.
fn key_axis(plus: bool, minus: bool) -> (r: i8)
    ensures
        r as int == axis(plus, minus),
{
    let up: i8 = if plus { 1 } else { 0 };
    let down: i8 = if minus { 1 } else { 0 };
    up - down
}

impl CameraState {
    /// The pitch keeps a hundredth of a radian away from straight up and
    /// straight down.
    pub open spec fn wf(&self) -> bool {
        -PITCH_LIMIT <= self.pitch <= PITCH_LIMIT
    }

    /// The state with the other mode and the same look direction.
    pub open spec fn toggled(self) -> CameraState {
        CameraState { locked: !self.locked, pitch: self.pitch, yaw: self.yaw }
    }

    /// The state after a frame with the given lock input: the mode is
    /// switched once for each trigger that fired, where there is a window.
    pub open spec fn after_lock_input(self, input: LockInput) -> CameraState {
        if input.flips() {
            self.toggled()
        } else {
            self
        }
    }

    /// The state after the mouse has travelled `dx` to the right and `dy`
    /// downward, in thousandths of a pixel: yaw and pitch each go down by
    /// the travel times the sensitivity, the pitch is held to its limits,
    /// and the yaw to what the machine can hold.
    pub open spec fn looked(self, dx: int, dy: int) -> CameraState {
        CameraState {
            locked: self.locked,
            pitch: clamp(
                self.pitch - MOUSE_SENSITIVITY * dy,
                -(PITCH_LIMIT as int),
                PITCH_LIMIT as int,
            ) as i64,
            yaw: clamp(self.yaw - MOUSE_SENSITIVITY * dx, i64::MIN as int, i64::MAX as int) as i64,
        }
    }

    /// The state with the given look direction, the pitch held to its limits.
    pub open spec fn with_orientation(self, yaw: i64, pitch: i64) -> CameraState {
        CameraState {
            locked: self.locked,
            pitch: clamp(pitch as int, -(PITCH_LIMIT as int), PITCH_LIMIT as int) as i64,
            yaw,
        }
    }

    /// The state after a frame's camera update, before the host reports an
    /// orientation back: only a flying camera with a camera entity to steer
    /// takes the mouse travel; any other discards it.
    pub open spec fn after_update(self, camera: Option<FixedVec3>, motion: Seq<MouseTravel>)
        -> CameraState {
        if camera is Some && !self.locked {
            self.looked(total_dx(motion), total_dy(motion))
        } else {
            self
        }
    }

    /// A flying camera that looks along the world's forward axis.
    pub fn new() -> (r: CameraState)
        ensures
            r == (CameraState { locked: false, pitch: 0, yaw: 0 }),
            r.wf(),
    {
        CameraState { locked: false, pitch: 0, yaw: 0 }
    }

    /// Takes the mouse travel of one frame into the look direction.
    pub fn look(&mut self, dx: i64, dy: i64)
        ensures
            *final(self) == old(self).looked(dx as int, dy as int),
            final(self).wf(),
    {
        self.turn_by(dx as i128, dy as i128);
    }

    /// Takes a mouse travel into the look direction.
    fn turn_by(&mut self, dx: i128, dy: i128)
        requires
            -0x1_0000_0000_0000_0000_0000_0000 <= dx <= 0x1_0000_0000_0000_0000_0000_0000,
            -0x1_0000_0000_0000_0000_0000_0000 <= dy <= 0x1_0000_0000_0000_0000_0000_0000,
        ensures
            *final(self) == old(self).looked(dx as int, dy as int),
            final(self).wf(),
    {
        let sensitivity: i128 = MOUSE_SENSITIVITY as i128;
        assert(sensitivity == 2);
        let yaw: i128 = self.yaw as i128 - sensitivity * dx;
        let pitch: i128 = self.pitch as i128 - sensitivity * dy;
        self.yaw = clamp_to(yaw, i64::MIN, i64::MAX);
        self.pitch = clamp_to(pitch, -PITCH_LIMIT, PITCH_LIMIT);
    }

    /// Records the look direction that the host read off the camera's
    /// orientation after a follow step, so that a camera released into free
    /// flight goes on from where it looked.
    pub fn store_orientation(&mut self, yaw: i64, pitch: i64)
        ensures
            *final(self) == old(self).with_orientation(yaw, pitch),
            final(self).wf(),
    {
        self.yaw = yaw;
        self.pitch = clamp_to(pitch as i128, -PITCH_LIMIT, PITCH_LIMIT);
    }
}

impl Default for CameraState {
    fn default() -> (r: CameraState)
        ensures
            r == (CameraState { locked: false, pitch: 0, yaw: 0 }),
    {
        CameraState::new()
    }
}

/// Switches the camera between following and flying, once for each trigger
/// that fired in the frame, and tells whether the frame left it in the other
/// mode. Without a window nothing is switched. The look direction is never
/// touched.
pub fn toggle_camera_lock(cam_state: &mut CameraState, input: &LockInput) -> (toggled: bool)
    ensures
        toggled == input.flips(),
        toggled == (final(cam_state).locked != old(cam_state).locked),
        *final(cam_state) == old(cam_state).after_lock_input(*input),
        final(cam_state).yaw == old(cam_state).yaw,
        final(cam_state).pitch == old(cam_state).pitch,
        final(cam_state).wf() == old(cam_state).wf(),
{
    if !input.window_present {
        return false;
    }
    let before = cam_state.locked;
    if input.right_mouse {
        cam_state.locked = !cam_state.locked;
    }
    if input.alt_left {
        cam_state.locked = !cam_state.locked;
    }
    if input.alt_right {
        cam_state.locked = !cam_state.locked;
    }
    cam_state.locked != before
}

/// Computes the blend factor of the following camera.
pub fn compute_follow_factor(dt_micros: u32) -> (f: u32)
    ensures
        f as int == follow_factor(dt_micros as int),
        f <= UNIT,
{
    let scaled: u64 = FOLLOW_RATE * (dt_micros as u64);
    if scaled < UNIT as u64 {
        scaled as u32
    } else {
        UNIT as u32
    }
}

/// Eases the camera toward its place above and behind the player.
pub fn follow_step(camera: &FixedVec3, player: &FixedVec3, dt_micros: u32) -> (position: FixedVec3)
    requires
        in_camera_extent(*camera),
        player.in_world(),
    ensures
        position == follow_position(*camera, *player, dt_micros as int),
        in_camera_extent(position),
{
    let factor: u32 = compute_follow_factor(dt_micros);
    let target = FixedVec3 {
        x: player.x,
        y: player.y + CAMERA_HEIGHT,
        z: player.z + CAMERA_DISTANCE,
    };
    proof {
        lemma_ease_step_bounds(target.x - camera.x, factor as int);
        lemma_ease_step_bounds(target.y - camera.y, factor as int);
        lemma_ease_step_bounds(target.z - camera.z, factor as int);
    }
    FixedVec3 {
        x: ease_toward(camera.x, target.x, factor),
        y: ease_toward(camera.y, target.y, factor),
        z: ease_toward(camera.z, target.z, factor),
    }
}

/// Computes the direction toward which a following camera at `position`
/// turns, if it is long enough to give one.
pub fn look_toward(position: &FixedVec3, player: &FixedVec3) -> (look: Option<FixedVec3>)
    requires
        in_camera_extent(*position),
        player.in_world(),
    ensures
        look == follow_look(*position, *player),
{
    let dx: i64 = player.x - position.x;
    let dy: i64 = RESTING_HEIGHT - position.y;
    let dz: i64 = player.z - position.z;
    assert(dx * dx <= 3_000_000_000_000int * 3_000_000_000_000int) by (nonlinear_arith)
        requires
            -3_000_000_000_000int <= dx <= 3_000_000_000_000int,
    ;
    assert(dy * dy <= 3_000_000_000_000int * 3_000_000_000_000int) by (nonlinear_arith)
        requires
            -3_000_000_000_000int <= dy <= 3_000_000_000_000int,
    ;
    assert(dz * dz <= 3_000_000_000_000int * 3_000_000_000_000int) by (nonlinear_arith)
        requires
            -3_000_000_000_000int <= dz <= 3_000_000_000_000int,
    ;
    assert(dx * dx >= 0 && dy * dy >= 0 && dz * dz >= 0) by (nonlinear_arith);
    let length_squared: i128 = (dx as i128) * (dx as i128) + (dy as i128) * (dy as i128) + (
    dz as i128) * (dz as i128);
    if length_squared > LOOK_MIN_SQ as i128 {
        Some(FixedVec3 { x: dx, y: dy, z: dz })
    } else {
        None
    }
}

/// Sums the mouse travel over the events of a frame.
pub fn sum_travel(motion: &Vec<MouseTravel>) -> (total: (i128, i128))
    ensures
        total.0 == total_dx(motion@),
        total.1 == total_dy(motion@),
        -0x8000_0000_0000_0000_0000_0000 <= total.0 <= 0x8000_0000_0000_0000_0000_0000,
        -0x8000_0000_0000_0000_0000_0000 <= total.1 <= 0x8000_0000_0000_0000_0000_0000,
{
    let mut dx: i128 = 0;
    let mut dy: i128 = 0;
    let mut i: usize = 0;
    while i < motion.len()
        invariant
            i <= motion@.len(),
            dx == total_dx(motion@.take(i as int)),
            dy == total_dy(motion@.take(i as int)),
            -0x8000_0000 * i <= dx <= 0x8000_0000 * i,
            -0x8000_0000 * i <= dy <= 0x8000_0000 * i,
        decreases motion@.len() - i,
    {
        proof {
            assert(motion@.take(i + 1).drop_last() =~= motion@.take(i as int));
        }
        dx = dx + motion[i].dx as i128;
        dy = dy + motion[i].dy as i128;
        i = i + 1;
    }
    proof {
        assert(motion@.take(i as int) =~= motion@);
    }
    (dx, dy)
}

/// One frame of the camera controller. `motion` holds the mouse-motion
/// events that came in since the last frame: the host hands over all of
/// them in every frame, whatever the mode, and keeps none for a later one.
///
/// Without a camera entity the frame does nothing. A locked camera with a
/// player to follow eases toward its place above and behind the player and
/// turns toward the player; without a player it stays. A flying camera takes
/// the summed mouse travel into its look direction; where it then moves is
/// for `fly_step` to say, once the host has set the orientation.
pub fn update_camera(
    cam_state: &mut CameraState,
    camera: Option<FixedVec3>,
    player: Option<FixedVec3>,
    motion: &Vec<MouseTravel>,
    input: &CameraInput,
) -> (action: CameraAction)
    requires
        camera matches Some(c) ==> in_camera_extent(c),
        player matches Some(p) ==> p.in_world(),
    ensures
        action == camera_action(*old(cam_state), camera, player, motion@, *input),
        *final(cam_state) == old(cam_state).after_update(camera, motion@),
        !old(cam_state).locked && camera is Some ==> final(cam_state).wf(),
        old(cam_state).wf() ==> final(cam_state).wf(),
        action matches CameraAction::Follow { position, .. } ==> in_camera_extent(position),
{
    let cam = match camera {
        Some(cam) => cam,
        None => {
            return CameraAction::Stay;
        },
    };
    if cam_state.locked {
        match player {
            None => CameraAction::Stay,
            Some(p) => {
                let position = follow_step(&cam, &p, input.dt_micros);
                let look = look_toward(&position, &p);
                let factor: u32 = compute_follow_factor(input.dt_micros);
                CameraAction::Follow { position, look, factor }
            },
        }
    } else {
        let travel = sum_travel(motion);
        cam_state.turn_by(travel.0, travel.1);
        CameraAction::Fly { yaw: cam_state.yaw, pitch: cam_state.pitch }
    }
}

/// The free-flying camera's move in one frame: along its own forward and
/// right axes and the world's up axis as the keys say, scaled to unit
/// length, at the camera's speed. `frame` holds the camera's axes as they
/// are after its orientation was set to what `update_camera` said.
pub fn fly_step(camera: &FixedVec3, frame: &CameraAxes, input: &CameraInput) -> (position:
    FixedVec3)
    requires
        in_camera_extent(*camera),
        frame.wf(),
    ensures
        position == fly_position(*camera, *frame, input.keys, input.dt_micros as int),
        in_camera_extent(position),
{
    let axes = input.keys.fly_axes();
    let push = FixedVec3 {
        x: weigh(axes.forward, frame.forward.x) + weigh(axes.right, frame.right.x),
        y: weigh(axes.forward, frame.forward.y) + weigh(axes.right, frame.right.y) + weigh(
            axes.up,
            UNIT,
        ),
        z: weigh(axes.forward, frame.forward.z) + weigh(axes.right, frame.right.z),
    };
    assert(0 <= push.x * push.x <= 3_000_000int * 3_000_000int) by (nonlinear_arith)
        requires
            -3_000_000int <= push.x <= 3_000_000int,
    ;
    assert(0 <= push.y * push.y <= 3_000_000int * 3_000_000int) by (nonlinear_arith)
        requires
            -3_000_000int <= push.y <= 3_000_000int,
    ;
    assert(0 <= push.z * push.z <= 3_000_000int * 3_000_000int) by (nonlinear_arith)
        requires
            -3_000_000int <= push.z <= 3_000_000int,
    ;
    let length_squared: u64 = (push.x * push.x + push.y * push.y + push.z * push.z) as u64;
    let len: u64 = isqrt(length_squared as u128);
    if len == 0 {
        return *camera;
    }
    proof {
        lemma_part_at_most_root(push.x as int, push.y * push.y + push.z * push.z, len as int);
        lemma_part_at_most_root(push.y as int, push.x * push.x + push.z * push.z, len as int);
        lemma_part_at_most_root(push.z as int, push.x * push.x + push.y * push.y, len as int);
    }
    let by = push.scale_to_unit(len).stretch(CAMERA_SPEED * (input.dt_micros as u64));
    FixedVec3::clamped_to(camera.x + by.x, camera.y + by.y, camera.z + by.z, CAMERA_LIMIT)
}

/// The look direction after a run of free-fly frames whose mouse travel was
/// `moves`, one pair of `dx` and `dy` per frame.
pub open spec fn looked_all(state: CameraState, moves: Seq<(int, int)>) -> CameraState
    decreases moves.len(),
{
    if moves.len() == 0 {
        state
    } else {
        looked_all(state, moves.drop_last()).looked(moves.last().0, moves.last().1)
    }
}

/// However far the mouse travels in however many free-fly frames, the pitch
/// ends within its limits: after at least one frame from any state, and
/// after none from a state that was within them.
pub proof fn lemma_pitch_stays_within_limits(state: CameraState, moves: Seq<(int, int)>)
    requires
        state.wf() || moves.len() > 0,
    ensures
        looked_all(state, moves).wf(),
        looked_all(state, moves).locked == state.locked,
    decreases moves.len(),
{
    if moves.len() > 0 {
        if moves.len() > 1 {
            lemma_pitch_stays_within_limits(state, moves.drop_last());
        } else {
            assert(looked_all(state, moves.drop_last()) == state);
        }
    }
}

/// A free-fly frame in which the mouse did not move keeps the look
/// direction of a well-formed state.
pub proof fn lemma_still_mouse_keeps_look(state: CameraState)
    requires
        state.wf(),
    ensures
        state.looked(0, 0) == state,
{
}

/// Two triggers in one frame cancel: a frame in which just two of the right
/// mouse button and the Alt keys went down leaves the camera in the mode it
/// was in, with the look direction it had. So does any frame without a
/// window, and one in which nothing went down.
pub proof fn lemma_two_triggers_in_one_frame_cancel(state: CameraState, input: LockInput)
    requires
        input.trigger_count() == 2 || input.trigger_count() == 0 || !input.window_present,
    ensures
        !input.flips(),
        state.after_lock_input(input) == state,
        state.after_lock_input(input).locked == state.locked,
        state.after_lock_input(input).yaw == state.yaw,
        state.after_lock_input(input).pitch == state.pitch,
{
}

/// One trigger in a frame with a window, or all three, leave the camera in
/// the other mode, with the look direction it had.
pub proof fn lemma_odd_triggers_flip(state: CameraState, input: LockInput)
    requires
        input.window_present,
        input.trigger_count() == 1 || input.trigger_count() == 3,
    ensures
        input.flips(),
        state.after_lock_input(input).locked != state.locked,
        state.after_lock_input(input).yaw == state.yaw,
        state.after_lock_input(input).pitch == state.pitch,
{
}

/// Two frames that each switch the mode bring the camera back to the mode
/// it was in, with the look direction it had.
pub proof fn lemma_double_toggle_restores(state: CameraState, first: LockInput, second: LockInput)
    requires
        first.flips(),
        second.flips(),
    ensures
        state.after_lock_input(first).locked != state.locked,
        state.after_lock_input(first).yaw == state.yaw,
        state.after_lock_input(first).pitch == state.pitch,
        state.after_lock_input(first).after_lock_input(second) == state,
{
}

/// Releasing a locked camera into free flight keeps the look direction that
/// was stored last: the first free-fly frame starts from it.
pub proof fn lemma_unlock_keeps_stored_look(
    state: CameraState,
    yaw: i64,
    pitch: i64,
    release: LockInput,
)
    requires
        state.locked,
        release.flips(),
    ensures
        ({
            let released = state.with_orientation(yaw, pitch).after_lock_input(release);
            &&& !released.locked
            &&& released.yaw == yaw
            &&& released.pitch == clamp(pitch as int, -(PITCH_LIMIT as int), PITCH_LIMIT as int)
            &&& released.looked(0, 0) == released
        }),
{
}

/// `v` lies between `a` and `b`, whichever of them is larger.
pub open spec fn between(a: int, v: int, b: int) -> bool {
    (a <= v <= b) || (b <= v <= a)
}

/// The distance between two coordinates.
pub open spec fn gap(a: int, b: int) -> int {
    if a <= b {
        b - a
    } else {
        a - b
    }
}

/// An eased coordinate lies between where it was and its goal, is nearer to
/// the goal wherever the factor is positive and the goal not yet reached,
/// and is on the goal at factor 1. The distance to the goal shrinks by the
/// factor: what is left is the part `(UNIT - factor) / UNIT` of what was,
/// rounded down to a whole millionth.
pub proof fn lemma_ease_approaches(from: int, to: int, factor: int)
    requires
        0 <= factor <= UNIT,
    ensures
        between(from, ease(from, to, factor), to),
        gap(ease(from, to, factor), to) <= gap(from, to),
        factor > 0 && from != to ==> gap(ease(from, to, factor), to) < gap(from, to),
        factor == UNIT ==> ease(from, to, factor) == to,
        factor == 0 ==> ease(from, to, factor) == from,
        gap(ease(from, to, factor), to) * UNIT <= gap(from, to) * (UNIT - factor),
        gap(from, to) * (UNIT - factor) < gap(ease(from, to, factor), to) * UNIT + UNIT,
{
    let diff = to - from;
    let step = ease_step(diff, factor);
    lemma_ease_step_bounds(diff, factor);
    assert(gap(from, to) * (UNIT - factor) == gap(from, to) * UNIT - gap(from, to) * factor
        && (gap(from, to) - gap(ease(from, to, factor), to)) * UNIT == gap(from, to) * UNIT - gap(
        ease(from, to, factor),
        to,
    ) * UNIT && (-diff) * factor == -(diff * factor) && (-step) * UNIT == -(step * UNIT))
        by (nonlinear_arith);
}

/// The part of a distance that is left after a follow step with the blend
/// factor `factor`, per `UNIT`.
pub open spec fn left_over(factor: int) -> int {
    UNIT - factor
}

/// One follow step never carries the camera past its place above and behind
/// the player, which is the player's position plus the camera's height and
/// distance: on every axis the new position lies between the old one and
/// that place, and is strictly nearer to it wherever time has passed and
/// the place is not reached. The distance to that place shrinks by the blend
/// factor, on every axis and as a whole. After half a second or more the
/// camera is on its place.
pub proof fn lemma_follow_approaches(camera: FixedVec3, player: FixedVec3, dt: int)
    requires
        in_camera_extent(camera),
        player.in_world(),
        0 <= dt,
    ensures
        ({
            let target = follow_target(player);
            let next = follow_position(camera, player, dt);
            let rest = left_over(follow_factor(dt));
            &&& target.x == player.x
            &&& target.y == player.y + CAMERA_HEIGHT
            &&& target.z == player.z + CAMERA_DISTANCE
            &&& in_camera_extent(target)
            &&& in_camera_extent(next)
            &&& between(camera.x as int, next.x as int, target.x as int)
            &&& between(camera.y as int, next.y as int, target.y as int)
            &&& between(camera.z as int, next.z as int, target.z as int)
            &&& dt > 0 && camera.x != target.x ==> gap(next.x as int, target.x as int) < gap(
                camera.x as int,
                target.x as int,
            )
            &&& dt > 0 && camera.y != target.y ==> gap(next.y as int, target.y as int) < gap(
                camera.y as int,
                target.y as int,
            )
            &&& dt > 0 && camera.z != target.z ==> gap(next.z as int, target.z as int) < gap(
                camera.z as int,
                target.z as int,
            )
            &&& 0 <= rest <= UNIT
            &&& gap(next.x as int, target.x as int) * UNIT <= gap(camera.x as int, target.x as int)
                * rest
            &&& gap(next.y as int, target.y as int) * UNIT <= gap(camera.y as int, target.y as int)
                * rest
            &&& gap(next.z as int, target.z as int) * UNIT <= gap(camera.z as int, target.z as int)
                * rest
            &&& next.distance_squared(target) * (UNIT * UNIT) <= camera.distance_squared(target)
                * (rest * rest)
            &&& next.distance_squared(target) <= camera.distance_squared(target)
            &&& dt > 0 && camera != target ==> next.distance_squared(target)
                < camera.distance_squared(target)
            &&& FOLLOW_RATE * dt >= UNIT ==> next == target
            &&& dt == 0 ==> next == camera
        }),
{
    let target = follow_target(player);
    let next = follow_position(camera, player, dt);
    let f = follow_factor(dt);
    let rest = left_over(f);
    lemma_ease_approaches(camera.x as int, target.x as int, f);
    lemma_ease_approaches(camera.y as int, target.y as int, f);
    lemma_ease_approaches(camera.z as int, target.z as int, f);
    lemma_gap_squares(next.x as int, camera.x as int, target.x as int, rest);
    lemma_gap_squares(next.y as int, camera.y as int, target.y as int, rest);
    lemma_gap_squares(next.z as int, camera.z as int, target.z as int, rest);
    let (nx, ny, nz) = (
        (next.x - target.x) * (next.x - target.x),
        (next.y - target.y) * (next.y - target.y),
        (next.z - target.z) * (next.z - target.z),
    );
    let (cx, cy, cz) = (
        (camera.x - target.x) * (camera.x - target.x),
        (camera.y - target.y) * (camera.y - target.y),
        (camera.z - target.z) * (camera.z - target.z),
    );
    let uu = UNIT * UNIT;
    let rr = rest * rest;
    assert((nx + ny + nz) * uu == nx * uu + ny * uu + nz * uu) by (nonlinear_arith);
    assert((cx + cy + cz) * rr == cx * rr + cy * rr + cz * rr) by (nonlinear_arith);
}

/// Squares of the distances of two coordinates to a goal: where the nearer
/// one's distance is at most the part `rest / UNIT` of the farther one's,
/// the squares compare likewise, and the nearer one's is smaller wherever its
/// distance is.
pub proof fn lemma_gap_squares(near: int, far: int, goal: int, rest: int)
    by (nonlinear_arith)
    requires
        0 <= rest <= UNIT,
        gap(near, goal) * UNIT <= gap(far, goal) * rest,
        gap(near, goal) <= gap(far, goal),
    ensures
        ((near - goal) * (near - goal)) * (UNIT * UNIT) <= ((far - goal) * (far - goal)) * (rest
            * rest),
        (near - goal) * (near - goal) <= (far - goal) * (far - goal),
        gap(near, goal) < gap(far, goal) ==> (near - goal) * (near - goal) < (far - goal) * (far
            - goal),
{
    let n = gap(near, goal);
    let f = gap(far, goal);
    assert(n * n == (near - goal) * (near - goal));
    assert(f * f == (far - goal) * (far - goal));
    assert(0 <= n * UNIT <= f * rest);
    assert((n * UNIT) * (n * UNIT) <= (f * rest) * (f * rest));
    assert((n * UNIT) * (n * UNIT) == (n * n) * (UNIT * UNIT));
    assert((f * rest) * (f * rest) == (f * f) * (rest * rest));
    assert(n * n <= f * f);
    if n < f {
        assert(n * n < f * f);
    }
}

/// Where the camera is after the first `count` of the given frames, in each
/// of which it follows a player that stands at `player`.
pub open spec fn followed(camera: FixedVec3, player: FixedVec3, frames: Seq<u32>, count: int)
    -> FixedVec3
    decreases count,
{
    if count <= 0 {
        camera
    } else {
        follow_position(
            followed(camera, player, frames, count - 1),
            player,
            frames[count - 1] as int,
        )
    }
}

/// While the player stands, the following camera closes in on its place
/// above and behind the player without ever passing it: on every axis the
/// position after more frames lies between the position after fewer frames
/// and that place, so the distance to it never grows.
pub proof fn lemma_follow_converges_monotonically(
    camera: FixedVec3,
    player: FixedVec3,
    frames: Seq<u32>,
    earlier: int,
    later: int,
)
    requires
        in_camera_extent(camera),
        player.in_world(),
        0 <= earlier <= later <= frames.len(),
    ensures
        ({
            let target = follow_target(player);
            let a = followed(camera, player, frames, earlier);
            let b = followed(camera, player, frames, later);
            &&& in_camera_extent(a)
            &&& in_camera_extent(b)
            &&& between(a.x as int, b.x as int, target.x as int)
            &&& between(a.y as int, b.y as int, target.y as int)
            &&& between(a.z as int, b.z as int, target.z as int)
            &&& gap(b.x as int, target.x as int) <= gap(a.x as int, target.x as int)
            &&& gap(b.y as int, target.y as int) <= gap(a.y as int, target.y as int)
            &&& gap(b.z as int, target.z as int) <= gap(a.z as int, target.z as int)
        }),
    decreases later,
{
    if later == 0 {
    } else if earlier == later {
        lemma_follow_converges_monotonically(camera, player, frames, 0, later - 1);
        lemma_follow_approaches(
            followed(camera, player, frames, later - 1),
            player,
            frames[later - 1] as int,
        );
    } else {
        lemma_follow_converges_monotonically(camera, player, frames, earlier, later - 1);
        lemma_follow_approaches(
            followed(camera, player, frames, later - 1),
            player,
            frames[later - 1] as int,
        );
    }
}

/// One frame of a player in motion: where the player is, and how long the
/// frame lasted.
pub struct FollowFrame {
    pub player: FixedVec3,
    pub dt_micros: u32,
}

/// The coordinate of `v` on the axis `axis`: 0 for `x`, 1 for `y`, else `z`.
pub open spec fn coord(v: FixedVec3, axis: int) -> int {
    if axis == 0 {
        v.x as int
    } else if axis == 1 {
        v.y as int
    } else {
        v.z as int
    }
}

/// Where the camera is after the first `count` frames of `path`.
pub open spec fn followed_along(camera: FixedVec3, path: Seq<FollowFrame>, count: int)
    -> FixedVec3
    decreases count,
{
    if count <= 0 {
        camera
    } else {
        follow_position(
            followed_along(camera, path, count - 1),
            path[count - 1].player,
            path[count - 1].dt_micros as int,
        )
    }
}

/// From each frame of `path` to the next the player moves by `velocity`,
/// inside the world.
pub open spec fn moves_steadily(path: Seq<FollowFrame>, velocity: FixedVec3) -> bool {
    &&& forall|k: int| 0 <= k < path.len() ==> (#[trigger] path[k]).player.in_world()
    &&& forall|k: int|
        0 < k < path.len() ==> {
            &&& (#[trigger] path[k]).player.x == path[k - 1].player.x + velocity.x
            &&& path[k].player.y == path[k - 1].player.y + velocity.y
            &&& path[k].player.z == path[k - 1].player.z + velocity.z
        }
}

/// A camera that follows a player in steady motion never gets ahead of its
/// place above and behind the player: on an axis along which the player does
/// not move backward, a camera that starts at or behind that place stays at
/// or behind it, frame after frame; and likewise with forward and backward
/// exchanged.
pub proof fn lemma_follow_never_overshoots(
    camera: FixedVec3,
    path: Seq<FollowFrame>,
    velocity: FixedVec3,
    axis: int,
    count: int,
)
    requires
        in_camera_extent(camera),
        moves_steadily(path, velocity),
        1 <= count <= path.len(),
    ensures
        in_camera_extent(followed_along(camera, path, count)),
        coord(velocity, axis) >= 0 && coord(camera, axis) <= coord(
            follow_target(path[0].player),
            axis,
        ) ==> coord(followed_along(camera, path, count), axis) <= coord(
            follow_target(path[count - 1].player),
            axis,
        ),
        coord(velocity, axis) <= 0 && coord(camera, axis) >= coord(
            follow_target(path[0].player),
            axis,
        ) ==> coord(followed_along(camera, path, count), axis) >= coord(
            follow_target(path[count - 1].player),
            axis,
        ),
    decreases count,
{
    let frame = path[count - 1];
    assert(frame.player.in_world());
    if count == 1 {
        assert(followed_along(camera, path, 0) == camera);
        lemma_follow_approaches(camera, frame.player, frame.dt_micros as int);
    } else {
        lemma_follow_never_overshoots(camera, path, velocity, axis, count - 1);
        let before = followed_along(camera, path, count - 1);
        let previous = path[count - 2];
        assert(previous.player.in_world());
        assert(frame.player.x == previous.player.x + velocity.x);
        lemma_follow_approaches(before, frame.player, frame.dt_micros as int);
    }
}

/// The free-flying camera is no faster along two or three axes at once than
/// along one: where `len` is the integer part of the length of the push,
/// the move is at most the travel times the push's length over `len` long.
/// Without a push the camera stays, and it never leaves its extent.
pub proof fn lemma_fly_keeps_speed(camera: FixedVec3, frame: CameraAxes, keys: FlyKeys, dt: int)
    requires
        in_camera_extent(camera),
        frame.wf(),
        0 <= dt <= u32::MAX,
    ensures
        ({
            let push = fly_push(keys.axes(), frame);
            let len = sqrt_floor(push.length_squared());
            let by = fly_move(push, fly_travel(dt));
            let position = fly_position(camera, frame, keys, dt);
            &&& is_sqrt_floor(push.length_squared(), len)
            &&& by.length_squared() * (len * len) <= push.length_squared() * (fly_travel(dt)
                * fly_travel(dt))
            &&& by.within(fly_travel(dt))
            &&& in_camera_extent(position)
            &&& between(camera.x as int, position.x as int, camera.x + by.x)
            &&& between(camera.y as int, position.y as int, camera.y + by.y)
            &&& between(camera.z as int, position.z as int, camera.z + by.z)
            &&& keys.axes() == (FlyAxes { forward: 0, right: 0, up: 0 }) ==> position == camera
            &&& dt == 0 ==> position == camera
        }),
{
    let push = fly_push(keys.axes(), frame);
    let (x, y, z) = (push.x as int, push.y as int, push.z as int);
    assert(x * x >= 0 && y * y >= 0 && z * z >= 0) by (nonlinear_arith);
    lemma_sqrt_floor_exists(push.length_squared());
    let len = sqrt_floor(push.length_squared());
    let travel = fly_travel(dt);
    if len > 0 {
        lemma_part_at_most_root(x, y * y + z * z, len);
        lemma_part_at_most_root(y, x * x + z * z, len);
        lemma_part_at_most_root(z, x * x + y * y, len);
        lemma_move_no_longer_than_travel(push, len, travel);
        if dt == 0 {
            let d = push.to_unit_length(len);
            assert(d.stretched(0).within(0));
        }
    } else {
        assert(0 * (len * len) == 0) by (nonlinear_arith);
        assert(push.length_squared() * (travel * travel) >= 0) by (nonlinear_arith)
            requires
                push.length_squared() >= 0,
        ;
    }
    if keys.axes() == (FlyAxes { forward: 0, right: 0, up: 0 }) {
        assert(x == 0 && y == 0 && z == 0);
        assert(push.length_squared() == 0) by (nonlinear_arith)
            requires
                push.x == 0 && push.y == 0 && push.z == 0,
        ;
        assert(is_sqrt_floor(0, 0));
        lemma_sqrt_floor_is(0, 0);
    }
}

} // verus!
