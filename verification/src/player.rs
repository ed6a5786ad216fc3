//! The player: a position, and a walk toward a clicked ground point that is
//! accompanied by hops.

use vstd::prelude::*;
use crate::camera::CameraState;
use crate::numeric::is_sqrt_floor;
use crate::numeric::isqrt;
use crate::numeric::lemma_part_at_most_root;
use crate::numeric::lemma_sqrt_floor_exists;
use crate::numeric::lemma_root_at_least;
use crate::numeric::lemma_scale_toward_zero_within;
use crate::numeric::scale_toward_zero;
use crate::numeric::sqrt_floor;
use crate::timer::repeating_elapsed;
use crate::timer::tick_repeating;
use crate::units::FACING_MIN_SQ;
use crate::units::JUMP_HEIGHT;
use crate::units::JUMP_PERIOD;
use crate::units::PLAYER_SPEED;
use crate::units::RESTING_HEIGHT;
use crate::units::SNAP_DISTANCE;
use crate::units::TURN_RATE;
use crate::units::UNIT;
use crate::vector::lemma_move_no_longer_than_travel;
use crate::vector::lemma_scaled_coordinate;
use crate::vector::FixedVec3;

verus! {

/// The timer of the hops: how far the current hop has come, in microseconds,
/// and the height from which the hops rise.
#[derive(Clone, Copy, Debug, PartialEq, Eq, Structural)]
pub struct JumpState {
    pub elapsed: u32,
    pub start_y: i64,
}

/// Whether the player stands or walks. A walking player has a target and a
/// hop timer; a standing one has neither.
#[derive(Clone, Copy, Debug, PartialEq, Eq, Structural)]
pub enum MotionState {
    Idle,
    Walking { target: FixedVec3, jump: JumpState },
}

/// The player. `position` is where it stands on its walk: `y` is the height
/// of its centre without the rise of a hop.
#[derive(Clone, Copy, Debug, PartialEq, Eq, Structural)]
pub struct Player {
    pub position: FixedVec3,
    pub motion: MotionState,
}

/// Where the ray from the camera through the cursor meets the ground plane:
/// the distance along the ray, negative where the plane lies behind the
/// camera, and the point.
#[derive(Clone, Copy, Debug, PartialEq, Eq, Structural)]
pub struct GroundHit {
    pub distance: i64,
    pub point: FixedVec3,
}

/// One frame's input to the click router.
#[derive(Clone, Copy, Debug, PartialEq, Eq)]
pub struct ClickInput {
    /// A primary window exists.
    pub window_present: bool,
    /// A main camera exists.
    pub camera_present: bool,
    /// The left mouse button went down in this frame.
    pub left_mouse: bool,
    /// The ground point under the cursor, where there is a cursor position, a
    /// ray through it and a point where that ray meets the ground plane.
    pub hit: Option<GroundHit>,
}

/// The direction in which a walking player should face, and how fast it
/// turns there.
#[derive(Clone, Copy, Debug, PartialEq, Eq, Structural)]
pub struct Facing {
    /// The walking direction on the ground, of length `UNIT` up to rounding.
    /// The facing is the rotation about the up axis by the angle whose
    /// tangent is `x / z`.
    pub direction: FixedVec3,
    /// The part, in millionths, of the angle to that facing by which the
    /// player turns in this frame.
    pub turn: u64,
}

/// What one frame of walking did.
#[derive(Clone, Copy, Debug, PartialEq, Eq)]
pub enum MoveOutcome {
    /// The player has no target and did not move.
    NoTarget,
    /// The player was put on its target and stands.
    Arrived,
    /// The player went a step toward its target.
    Moving { facing: Option<Facing> },
}

/// Where a hop stands: `elapsed` of `period` microseconds have passed. The
/// height of the player's centre is `start_y` plus `height` times the sine of
/// the half turn scaled by `elapsed / period`.
#[derive(Clone, Copy, Debug, PartialEq, Eq, Structural)]
pub struct JumpPhase {
    pub elapsed: u32,
    pub period: u32,
    pub start_y: i64,
    pub height: i64,
}

/// The timer of a walk that has just begun.
pub open spec fn fresh_jump() -> JumpState {
    JumpState { elapsed: 0, start_y: RESTING_HEIGHT }
}

/// The squared distance on the ground between two points.
pub open spec fn planar_distance_sq(from: FixedVec3, to: FixedVec3) -> int {
    (to.x - from.x) * (to.x - from.x) + (to.z - from.z) * (to.z - from.z)
}

/// The length of a walking step in a frame of `dt` microseconds.
pub open spec fn walk_step(dt: int) -> int {
    PLAYER_SPEED * dt
}

/// The player at `from` reaches `target` in this frame: the target is nearer
/// than one step, or nearer than the snap distance.
pub open spec fn arrives(from: FixedVec3, target: FixedVec3, dt: int) -> bool {
    let d2 = planar_distance_sq(from, target);
    d2 < walk_step(dt) * walk_step(dt) || d2 < SNAP_DISTANCE * SNAP_DISTANCE
}

/// The way on the ground from `from` to `target`.
pub open spec fn planar_offset(from: FixedVec3, target: FixedVec3) -> FixedVec3 {
    FixedVec3 { x: (target.x - from.x) as i64, y: 0, z: (target.z - from.z) as i64 }
}

/// The direction on the ground from `from` to `target`: the way between
/// them, scaled to the length `UNIT` by the integer part of its length.
pub open spec fn walk_direction(from: FixedVec3, target: FixedVec3) -> FixedVec3 {
    planar_offset(from, target).to_unit_length(sqrt_floor(planar_distance_sq(from, target)))
}

/// `from` moved on the ground by `step` along the direction `dir`.
pub open spec fn advanced(from: FixedVec3, dir: FixedVec3, step: int) -> FixedVec3 {
    FixedVec3 {
        x: (from.x + dir.stretched(step).x) as i64,
        y: from.y,
        z: (from.z + dir.stretched(step).z) as i64,
    }
}

/// The facing that belongs to a walking direction: none where the direction
/// is too short to give one.
pub open spec fn facing_of(dir: FixedVec3, dt: int) -> Option<Facing> {
    if dir.x * dir.x + dir.z * dir.z > FACING_MIN_SQ {
        Some(Facing { direction: dir, turn: (TURN_RATE * dt) as u64 })
    } else {
        None
    }
}

/// One coordinate of a walking step: from `x` toward `tx`, where the target
/// is `d` away on the ground and the step is `step` long.
pub open spec fn advanced_coord(x: int, tx: int, d: int, step: int) -> int {
    x + scale_toward_zero(scale_toward_zero(tx - x, UNIT as int, d), step, UNIT as int)
}

/// A walking step that is no longer than the distance to the target leaves
/// each coordinate between where it was and the target's.
pub proof fn lemma_step_stays_between(x: int, tx: int, d: int, step: int)
    requires
        d > 0,
        0 <= step <= d,
    ensures
        x <= tx ==> x <= advanced_coord(x, tx, d, step) <= tx,
        tx <= x ==> tx <= advanced_coord(x, tx, d, step) <= x,
{
    let a = tx - x;
    let m = scale_toward_zero(scale_toward_zero(a, UNIT as int, d), step, UNIT as int);
    lemma_scaled_coordinate(a, d, step);
    if a >= 0 {
        assert(m <= a) by (nonlinear_arith)
            requires
                m * d <= a * step,
                0 <= step <= d,
                0 < d,
                0 <= a,
                0 <= m,
        {
            assert(a * step <= a * d);
            if m > a {
                assert(m * d >= (a + 1) * d);
            }
        }
    }
    if a <= 0 {
        assert(a <= m) by (nonlinear_arith)
            requires
                a * step <= m * d,
                0 <= step <= d,
                0 < d,
                a <= 0,
                m <= 0,
        {
            assert(a * d <= a * step);
            if m < a {
                assert(m * d <= (a - 1) * d);
            }
        }
    }
}

/// Computes the facing that belongs to a walking direction.
fn compute_facing(dir: &FixedVec3, dt_micros: u32) -> (facing: Option<Facing>)
    requires
        dir.within(UNIT as int),
    ensures
        facing == facing_of(*dir, dt_micros as int),
{
    assert(0 <= dir.x * dir.x <= 1_000_000int * 1_000_000int) by (nonlinear_arith)
        requires
            -1_000_000int <= dir.x <= 1_000_000int,
    ;
    assert(0 <= dir.z * dir.z <= 1_000_000int * 1_000_000int) by (nonlinear_arith)
        requires
            -1_000_000int <= dir.z <= 1_000_000int,
    ;
    let length_squared: i64 = dir.x * dir.x + dir.z * dir.z;
    if length_squared > FACING_MIN_SQ as i64 {
        Some(Facing { direction: *dir, turn: TURN_RATE * (dt_micros as u64) })
    } else {
        None
    }
}

impl ClickInput {
    /// The click gives a target: window and camera exist, the left button
    /// went down, and the ray met the ground in front of the camera, inside
    /// the world.
    pub open spec fn resolves(&self) -> bool {
        &&& self.window_present
        &&& self.camera_present
        &&& self.left_mouse
        &&& self.hit matches Some(h)
        &&& h.distance >= 0
        &&& h.point.in_world()
    }
}

impl JumpState {
    /// The state of the timer after `dt` more microseconds.
    pub open spec fn ticked(self, dt: int) -> JumpState {
        JumpState {
            elapsed: repeating_elapsed(JUMP_PERIOD as int, self.elapsed as int, dt) as u32,
            start_y: self.start_y,
        }
    }

    /// What the host needs to place the player's centre.
    pub open spec fn phase(self) -> JumpPhase {
        JumpPhase {
            elapsed: self.elapsed,
            period: JUMP_PERIOD,
            start_y: self.start_y,
            height: JUMP_HEIGHT,
        }
    }
}

impl Player {
    /// The position lies in the world, and so does the target of a walking
    /// player, whose hop has not run past its period.
    pub open spec fn wf(&self) -> bool {
        &&& self.position.in_world()
        &&& self.motion matches MotionState::Walking { target, jump } ==> target.in_world()
            && jump.elapsed < JUMP_PERIOD
    }

    /// The player after a frame in which the click router saw `input`, the
    /// camera being in the state `cam`: a click that resolves while the
    /// camera is locked sets the target and starts the hops anew; any other
    /// frame changes nothing.
    pub open spec fn after_click(self, cam: CameraState, input: ClickInput) -> Player {
        if cam.locked && input.resolves() {
            Player {
                position: self.position,
                motion: MotionState::Walking { target: input.hit->0.point, jump: fresh_jump() },
            }
        } else {
            self
        }
    }

    /// The player after a frame of walking that lasted `dt` microseconds.
    pub open spec fn moved(self, dt: int) -> Player {
        match self.motion {
            MotionState::Idle => self,
            MotionState::Walking { target, jump } => {
                if arrives(self.position, target, dt) {
                    Player {
                        position: FixedVec3 { x: target.x, y: RESTING_HEIGHT, z: target.z },
                        motion: MotionState::Idle,
                    }
                } else {
                    Player {
                        position: advanced(
                            self.position,
                            walk_direction(self.position, target),
                            walk_step(dt),
                        ),
                        motion: self.motion,
                    }
                }
            },
        }
    }

    /// What a frame of walking that lasted `dt` microseconds reports.
    pub open spec fn move_outcome(self, dt: int) -> MoveOutcome {
        match self.motion {
            MotionState::Idle => MoveOutcome::NoTarget,
            MotionState::Walking { target, jump } => {
                if arrives(self.position, target, dt) {
                    MoveOutcome::Arrived
                } else {
                    MoveOutcome::Moving {
                        facing: facing_of(walk_direction(self.position, target), dt),
                    }
                }
            },
        }
    }

    /// The player after one frame of `dt` microseconds without a click:
    /// first the walk, then the hops.
    pub open spec fn after_frame(self, dt: int) -> Player {
        self.moved(dt).jumped(dt)
    }

    /// The player after its hop timer has run `dt` more microseconds.
    pub open spec fn jumped(self, dt: int) -> Player {
        match self.motion {
            MotionState::Idle => self,
            MotionState::Walking { target, jump } => Player {
                position: self.position,
                motion: MotionState::Walking { target, jump: jump.ticked(dt) },
            },
        }
    }

    /// Where the hop stands, for a walking player.
    pub open spec fn jump_phase(self) -> Option<JumpPhase> {
        match self.motion {
            MotionState::Idle => None,
            MotionState::Walking { target, jump } => Some(jump.phase()),
        }
    }

    /// A player standing at `position`.
    pub fn new(position: FixedVec3) -> (r: Player)
        ensures
            r == (Player { position, motion: MotionState::Idle }),
            position.in_world() ==> r.wf(),
    {
        Player { position, motion: MotionState::Idle }
    }

    /// Tells whether the player is well formed.
    pub fn is_wf(&self) -> (r: bool)
        ensures
            r == self.wf(),
    {
        if !self.position.is_in_world() {
            return false;
        }
        match self.motion {
            MotionState::Idle => true,
            MotionState::Walking { target, jump } => target.is_in_world() && jump.elapsed
                < JUMP_PERIOD,
        }
    }

    /// The click router: on a click that resolves to a ground point while the
    /// camera is locked, sends the player there and starts its hops anew,
    /// whatever it was doing. Tells whether it did.
    pub fn handle_player_input(&mut self, cam_state: &CameraState, input: &ClickInput) -> (accepted:
        bool)
        ensures
            accepted == (cam_state.locked && input.resolves()),
            *final(self) == old(self).after_click(*cam_state, *input),
            !cam_state.locked ==> *final(self) == *old(self),
            accepted ==> final(self).motion == (MotionState::Walking {
                target: input.hit->0.point,
                jump: fresh_jump(),
            }),
            final(self).position == old(self).position,
            old(self).wf() ==> final(self).wf(),
    {
        if !cam_state.locked {
            return false;
        }
        if !input.window_present || !input.camera_present {
            return false;
        }
        if !input.left_mouse {
            return false;
        }
        match input.hit {
            None => false,
            Some(hit) => {
                if hit.distance >= 0 && hit.point.is_in_world() {
                    self.motion = MotionState::Walking {
                        target: hit.point,
                        jump: JumpState { elapsed: 0, start_y: RESTING_HEIGHT },
                    };
                    true
                } else {
                    false
                }
            },
        }
    }

    /// One frame of walking. A player without a target stays. A player whose
    /// target is nearer than one step, or nearer than the snap distance, is
    /// put on the target at resting height and stands from then on. Any
    /// other player goes one step toward its target and is told how to face.
    pub fn move_player(&mut self, dt_micros: u32) -> (outcome: MoveOutcome)
        requires
            old(self).wf(),
        ensures
            *final(self) == old(self).moved(dt_micros as int),
            outcome == old(self).move_outcome(dt_micros as int),
            final(self).wf(),
    {
        let target = match self.motion {
            MotionState::Idle => {
                return MoveOutcome::NoTarget;
            },
            MotionState::Walking { target, jump } => target,
        };
        let from = self.position;
        let dx: i64 = target.x - from.x;
        let dz: i64 = target.z - from.z;
        assert(0 <= dx * dx <= 2_000_000_000_000int * 2_000_000_000_000int) by (nonlinear_arith)
            requires
                -2_000_000_000_000int <= dx <= 2_000_000_000_000int,
        ;
        assert(0 <= dz * dz <= 2_000_000_000_000int * 2_000_000_000_000int) by (nonlinear_arith)
            requires
                -2_000_000_000_000int <= dz <= 2_000_000_000_000int,
        ;
        let d2: u128 = ((dx as i128) * (dx as i128) + (dz as i128) * (dz as i128)) as u128;
        let step: u64 = PLAYER_SPEED * (dt_micros as u64);
        assert(0 <= step * step <= 0x5_0000_0000int * 0x5_0000_0000int) by (nonlinear_arith)
            requires
                0 <= step <= 0x5_0000_0000int,
        ;
        let step_sq: u128 = (step as u128) * (step as u128);
        let snap_sq: u128 = (SNAP_DISTANCE as u128) * (SNAP_DISTANCE as u128);
        assert(d2 as int == planar_distance_sq(from, target));
        if d2 < step_sq || d2 < snap_sq {
            self.position = FixedVec3 { x: target.x, y: RESTING_HEIGHT, z: target.z };
            self.motion = MotionState::Idle;
            MoveOutcome::Arrived
        } else {
            let d: u64 = isqrt(d2);
            proof {
                lemma_part_at_most_root(dx as int, dz * dz, d as int);
                lemma_part_at_most_root(dz as int, dx * dx, d as int);
                lemma_root_at_least(d2 as int, d as int, step as int);
                lemma_root_at_least(d2 as int, d as int, SNAP_DISTANCE as int);
                lemma_step_stays_between(from.x as int, target.x as int, d as int, step as int);
                lemma_step_stays_between(from.z as int, target.z as int, d as int, step as int);
            }
            let offset = FixedVec3 { x: dx, y: 0, z: dz };
            let dir = offset.scale_to_unit(d);
            let stride = dir.stretch(step);
            self.position = FixedVec3 { x: from.x + stride.x, y: from.y, z: from.z + stride.z };
            MoveOutcome::Moving { facing: compute_facing(&dir, dt_micros) }
        }
    }

    /// One frame of the hops: a walking player's timer runs on by
    /// `dt_micros` and starts over whenever it reaches its period. Returns
    /// where the hop then stands; nothing for a standing player.
    pub fn animate_jump(&mut self, dt_micros: u32) -> (phase: Option<JumpPhase>)
        ensures
            *final(self) == old(self).jumped(dt_micros as int),
            phase == final(self).jump_phase(),
            old(self).wf() ==> final(self).wf(),
    {
        match self.motion {
            MotionState::Idle => None,
            MotionState::Walking { target, jump } => {
                let elapsed: u32 = tick_repeating(JUMP_PERIOD, jump.elapsed, dt_micros);
                let next = JumpState { elapsed, start_y: jump.start_y };
                self.motion = MotionState::Walking { target, jump: next };
                Some(
                    JumpPhase {
                        elapsed,
                        period: JUMP_PERIOD,
                        start_y: jump.start_y,
                        height: JUMP_HEIGHT,
                    },
                )
            },
        }
    }
}

/// A walking step of at least 5 millionths goes at least one millionth
/// along the longer of the two ground coordinates of the way to the target.
pub proof fn lemma_step_makes_progress(a: int, b: int, d: int, step: int)
    requires
        is_sqrt_floor(a * a + b * b, d),
        d > 0,
        5 <= step,
        b * b <= a * a,
    ensures
        a > 0 ==> scale_toward_zero(scale_toward_zero(a, UNIT as int, d), step, UNIT as int) >= 1,
        a < 0 ==> scale_toward_zero(scale_toward_zero(a, UNIT as int, d), step, UNIT as int)
            <= -1,
        a != 0,
{
    let u = UNIT as int;
    let dir = scale_toward_zero(a, u, d);
    lemma_longer_leg_dominates(a, b, d);
    assert(a != 0 && (a > 0 ==> dir >= 200_000) && (a < 0 ==> dir <= -200_000))
        by (nonlinear_arith)
        requires
            dir * dir >= 200_000int * 200_000int,
            dir == scale_toward_zero(a, u, d),
            d > 0,
            u == 1_000_000,
    {
        if a >= 0 {
            assert(a * u >= 0);
            assert((a * u) / d >= 0);
        } else {
            assert(-(a * u) > 0);
            assert((-(a * u)) / d >= 0);
        }
    }
    if a > 0 {
        assert((dir * step) / u >= 1) by (nonlinear_arith)
            requires
                dir >= 200_000,
                step >= 5,
                u == 1_000_000,
        ;
        assert(dir * step >= 0) by (nonlinear_arith)
            requires
                dir >= 0,
                step >= 0,
        ;
    } else {
        assert(dir * step < 0 && (-(dir * step)) / u >= 1) by (nonlinear_arith)
            requires
                dir <= -200_000,
                step >= 5,
                u == 1_000_000,
        ;
    }
}

/// A player on its way always has a facing: the walking direction of a
/// player that does not arrive in this frame is never too short to give one.
pub proof fn lemma_walk_gives_facing(player: Player, dt: int)
    requires
        player.wf(),
        player.motion is Walking,
        0 <= dt <= u32::MAX,
        !arrives(player.position, player.motion->target, dt),
    ensures
        player.move_outcome(dt) matches MoveOutcome::Moving { facing } && facing is Some,
{
    let from = player.position;
    let target = player.motion->target;
    let a = target.x - from.x;
    let b = target.z - from.z;
    let d2 = planar_distance_sq(from, target);
    assert(a * a >= 0 && b * b >= 0) by (nonlinear_arith);
    lemma_sqrt_floor_exists(d2);
    let d = sqrt_floor(d2);
    lemma_part_at_most_root(a, b * b, d);
    lemma_part_at_most_root(b, a * a, d);
    lemma_root_at_least(d2, d, SNAP_DISTANCE as int);
    lemma_scale_toward_zero_within(a, UNIT as int, d);
    lemma_scale_toward_zero_within(b, UNIT as int, d);
    let dir = walk_direction(from, target);
    let x = scale_toward_zero(a, UNIT as int, d);
    let z = scale_toward_zero(b, UNIT as int, d);
    assert(dir.x == x && dir.z == z);
    if b * b <= a * a {
        lemma_longer_leg_dominates(a, b, d);
    } else {
        assert(b * b + a * a == a * a + b * b);
        lemma_longer_leg_dominates(b, a, d);
    }
    assert(x * x + z * z > FACING_MIN_SQ) by (nonlinear_arith)
        requires
            x * x >= 200_000int * 200_000int || z * z >= 200_000int * 200_000int,
            FACING_MIN_SQ == 1_000_000_000,
    ;
}

/// Along the longer of its two ground coordinates, a direction scaled to the
/// length `UNIT` is at least a fifth of `UNIT` long.
pub proof fn lemma_longer_leg_dominates(a: int, b: int, d: int)
    by (nonlinear_arith)
    requires
        is_sqrt_floor(a * a + b * b, d),
        d > 0,
        b * b <= a * a,
    ensures
        scale_toward_zero(a, UNIT as int, d) * scale_toward_zero(a, UNIT as int, d)
            >= 200_000int * 200_000int,
{
    let u = UNIT as int;
    assert(d * d <= 2 * (a * a));
    if a == 0 {
        assert(d * d <= 0);
        assert(d * d > 0);
    }
    let m = if a > 0 { a } else { -a };
    assert(m * m == a * a);
    if 5 * m < d {
        assert((5 * m) * (5 * m) < d * d);
    }
    assert(5 * m >= d);
    assert(m * u >= 200_000 * d);
    let dir = (m * u) / d;
    assert(dir >= 200_000);
    assert(dir * dir >= 200_000 * 200_000);
    if a > 0 {
        assert(scale_toward_zero(a, u, d) == dir);
    } else {
        assert(-(a * u) == m * u);
        assert(a * u < 0);
        assert(scale_toward_zero(a, u, d) == -dir);
        assert((-dir) * (-dir) == dir * dir);
    }
}

/// The length of the way that is left to a walking player, summed over the
/// two ground coordinates; 0 for a standing player.
pub open spec fn way_left(player: Player) -> int {
    match player.motion {
        MotionState::Idle => 0,
        MotionState::Walking { target, jump } => (if target.x >= player.position.x {
            target.x - player.position.x
        } else {
            player.position.x - target.x
        }) + (if target.z >= player.position.z {
            target.z - player.position.z
        } else {
            player.position.z - target.z
        }),
    }
}

/// The player standing on the ground point that it walked to.
pub open spec fn arrived_at(target: FixedVec3) -> Player {
    Player {
        position: FixedVec3 { x: target.x, y: RESTING_HEIGHT, z: target.z },
        motion: MotionState::Idle,
    }
}

/// The player after `count` frames of `dt` microseconds each.
pub open spec fn walked(player: Player, dt: int, count: int) -> Player
    decreases count,
{
    if count <= 0 {
        player
    } else {
        walked(player.after_frame(dt), dt, count - 1)
    }
}

/// A frame leaves a well-formed player well formed. A frame in which a
/// walking player does not arrive keeps its target, takes it no farther from
/// the target on either ground coordinate and never past it, keeps its
/// height, and, where the frame lasted a microsecond or more, shortens the
/// way that is left.
pub proof fn lemma_frame_walks_toward_target(player: Player, dt: int)
    requires
        player.wf(),
        0 <= dt <= u32::MAX,
    ensures
        player.after_frame(dt).wf(),
        player.motion matches MotionState::Walking { target, jump } ==> {
            let next = player.after_frame(dt);
            if arrives(player.position, target, dt) {
                next == arrived_at(target)
            } else {
                &&& next.motion == MotionState::Walking { target, jump: jump.ticked(dt) }
                &&& next.position.y == player.position.y
                &&& player.position.x <= target.x ==> player.position.x <= next.position.x
                    <= target.x
                &&& player.position.x >= target.x ==> player.position.x >= next.position.x
                    >= target.x
                &&& player.position.z <= target.z ==> player.position.z <= next.position.z
                    <= target.z
                &&& player.position.z >= target.z ==> player.position.z >= next.position.z
                    >= target.z
                &&& dt >= 1 ==> way_left(next) < way_left(player)
            }
        },
        player.motion is Idle ==> player.after_frame(dt) == player,
{
    match player.motion {
        MotionState::Idle => {},
        MotionState::Walking { target, jump } => {
            if !arrives(player.position, target, dt) {
                let from = player.position;
                let a = target.x - from.x;
                let b = target.z - from.z;
                let d2 = planar_distance_sq(from, target);
                let step = walk_step(dt);
                assert(a * a >= 0 && b * b >= 0) by (nonlinear_arith);
                assert(d2 >= SNAP_DISTANCE * SNAP_DISTANCE);
                lemma_sqrt_floor_exists(d2);
                let d = sqrt_floor(d2);
                assert(is_sqrt_floor(d2, d));
                lemma_part_at_most_root(a, b * b, d);
                lemma_part_at_most_root(b, a * a, d);
                assert(step * step <= d2);
                lemma_root_at_least(d2, d, step);
                lemma_root_at_least(d2, d, SNAP_DISTANCE as int);
                lemma_step_stays_between(from.x as int, target.x as int, d, step);
                lemma_step_stays_between(from.z as int, target.z as int, d, step);
                lemma_scale_toward_zero_within(a, UNIT as int, d);
                lemma_scale_toward_zero_within(b, UNIT as int, d);
                let dir = walk_direction(from, target);
                assert(dir.x == scale_toward_zero(a, UNIT as int, d));
                assert(dir.z == scale_toward_zero(b, UNIT as int, d));
                let next = advanced(from, dir, step);
                assert(next.x == advanced_coord(from.x as int, target.x as int, d, step));
                assert(next.z == advanced_coord(from.z as int, target.z as int, d, step));
                if dt >= 1 {
                    if b * b <= a * a {
                        lemma_step_makes_progress(a, b, d, step);
                    } else {
                        assert(b * b + a * a == a * a + b * b);
                        lemma_step_makes_progress(b, a, d, step);
                    }
                }
            }
        },
    }
}

/// A walking player is no faster than its speed: where `d` is the integer
/// part of the distance to the target, the step that a frame takes on the
/// ground is at most the frame's walking step times the distance over `d`
/// long.
pub proof fn lemma_walk_keeps_speed(player: Player, dt: int)
    requires
        player.wf(),
        player.motion is Walking,
        0 <= dt <= u32::MAX,
        !arrives(player.position, player.motion->target, dt),
    ensures
        ({
            let target = player.motion->target;
            let d2 = planar_distance_sq(player.position, target);
            let d = sqrt_floor(d2);
            let next = player.moved(dt).position;
            &&& is_sqrt_floor(d2, d)
            &&& d >= SNAP_DISTANCE
            &&& planar_distance_sq(player.position, next) * (d * d) <= d2 * (walk_step(dt)
                * walk_step(dt))
        }),
{
    let from = player.position;
    let target = player.motion->target;
    let offset = planar_offset(from, target);
    let a = target.x - from.x;
    let b = target.z - from.z;
    let d2 = planar_distance_sq(from, target);
    assert(a * a >= 0 && b * b >= 0) by (nonlinear_arith);
    lemma_sqrt_floor_exists(d2);
    let d = sqrt_floor(d2);
    lemma_part_at_most_root(a, b * b, d);
    lemma_part_at_most_root(b, a * a, d);
    lemma_root_at_least(d2, d, SNAP_DISTANCE as int);
    lemma_move_no_longer_than_travel(offset, d, walk_step(dt));
    let stride = offset.to_unit_length(d).stretched(walk_step(dt));
    assert(stride.y == 0);
    assert(offset.length_squared() == d2) by (nonlinear_arith)
        requires
            offset.x == a,
            offset.y == 0,
            offset.z == b,
            d2 == a * a + b * b,
            offset.length_squared() == offset.x * offset.x + offset.y * offset.y + offset.z
                * offset.z,
    ;
    let next = player.moved(dt).position;
    assert(next.x - from.x == stride.x);
    assert(next.z - from.z == stride.z);
    assert(planar_distance_sq(from, next) == stride.length_squared()) by (nonlinear_arith)
        requires
            next.x - from.x == stride.x,
            next.z - from.z == stride.z,
            stride.y == 0,
            planar_distance_sq(from, next) == (next.x - from.x) * (next.x - from.x) + (next.z
                - from.z) * (next.z - from.z),
            stride.length_squared() == stride.x * stride.x + stride.y * stride.y + stride.z
                * stride.z,
    ;
}

/// A standing player stands still, however many frames pass.
pub proof fn lemma_idle_stays(player: Player, dt: int, count: int)
    requires
        player.motion is Idle,
    ensures
        walked(player, dt, count) == player,
    decreases count,
{
    if count > 0 {
        lemma_idle_stays(player, dt, count - 1);
    }
}

/// A walking player gets there: after more frames, of a microsecond or more
/// each, than the way that is left has millionths, the player stands on its
/// target's ground coordinates, at resting height, with neither a target nor
/// a hop timer.
pub proof fn lemma_walk_reaches_target(player: Player, dt: int, count: int)
    requires
        player.wf(),
        player.motion is Walking,
        1 <= dt <= u32::MAX,
        count > way_left(player),
    ensures
        walked(player, dt, count) == arrived_at(player.motion->target),
    decreases count,
{
    let target = player.motion->target;
    let next = player.after_frame(dt);
    lemma_frame_walks_toward_target(player, dt);
    if arrives(player.position, target, dt) {
        lemma_idle_stays(next, dt, count - 1);
    } else {
        lemma_walk_reaches_target(next, dt, count - 1);
    }
}

/// The hops repeat: the timer depends only on the time that has passed
/// since the walk began, taken modulo the period. Running it in two parts
/// is running it once for the sum, a whole period more changes nothing, and
/// a timer started anew stands, after any time, at the remainder of that
/// time by the period.
pub proof fn lemma_hops_repeat(jump: JumpState, first: int, second: int)
    requires
        jump.elapsed < JUMP_PERIOD,
        0 <= first,
        0 <= second,
    ensures
        jump.ticked(first).ticked(second) == jump.ticked(first + second),
        jump.ticked(first + JUMP_PERIOD) == jump.ticked(first),
        jump.ticked(0) == jump,
        fresh_jump().ticked(first).elapsed == first % (JUMP_PERIOD as int),
        jump.ticked(first).elapsed < JUMP_PERIOD,
{
}

/// A click while the camera flies freely changes nothing about the player.
pub proof fn lemma_click_ignored_while_unlocked(
    player: Player,
    cam_state: CameraState,
    input: ClickInput,
)
    requires
        !cam_state.locked,
    ensures
        player.after_click(cam_state, input) == player,
{
}

/// A click that resolves while the camera is locked replaces whatever
/// target the player had and starts the hop timer from zero, wherever the
/// old hop stood; the player's position is not touched.
pub proof fn lemma_click_replaces_target(player: Player, cam_state: CameraState, input: ClickInput)
    requires
        cam_state.locked,
        input.resolves(),
    ensures
        player.after_click(cam_state, input).motion == (MotionState::Walking {
            target: input.hit->0.point,
            jump: JumpState { elapsed: 0, start_y: RESTING_HEIGHT },
        }),
        player.after_click(cam_state, input).position == player.position,
        player.after_click(cam_state, input).jump_phase()->0.elapsed == 0,
        player.after_click(cam_state, input) == (Player {
            position: player.position,
            motion: MotionState::Idle,
        }).after_click(cam_state, input),
{
}

} // verus!
