//! Points and directions in space, in millionths of a world unit.

use vstd::prelude::*;
use crate::numeric::clamp;
use crate::numeric::clamp_to;
use crate::numeric::lemma_scale_toward_zero_within;
use crate::numeric::mul_div_toward_zero;
use crate::numeric::scale_toward_zero;
use crate::units::UNIT;
use crate::units::WORLD_LIMIT;

verus! {

/// A point or a direction: three coordinates in millionths of a world unit.
/// `y` points up; the ground is the plane `y == 0`.
#[derive(Clone, Copy, Debug, PartialEq, Eq, Structural)]
pub struct FixedVec3 {
    pub x: i64,
    pub y: i64,
    pub z: i64,
}

/// `v` lies between `-WORLD_LIMIT` and `WORLD_LIMIT`.
pub open spec fn coord_in_world(v: int) -> bool {
    -WORLD_LIMIT <= v <= WORLD_LIMIT
}

/// `v` held to the world's extent.
pub open spec fn clamp_to_world(v: int) -> int {
    clamp(v, -(WORLD_LIMIT as int), WORLD_LIMIT as int)
}

impl FixedVec3 {
    /// Every coordinate lies within the world's extent. The player's position
    /// and its targets must satisfy this.
    pub open spec fn in_world(&self) -> bool {
        coord_in_world(self.x as int) && coord_in_world(self.y as int) && coord_in_world(
            self.z as int,
        )
    }

    /// The point with the given coordinates, if it lies in the world.
    pub fn new(x: i64, y: i64, z: i64) -> (r: Option<FixedVec3>)
        ensures
            r is Some <==> coord_in_world(x as int) && coord_in_world(y as int) && coord_in_world(
                z as int,
            ),
            r matches Some(p) ==> p.x == x && p.y == y && p.z == z,
    {
        let p = FixedVec3 { x, y, z };
        if p.is_in_world() {
            Some(p)
        } else {
            None
        }
    }

    /// The point of the world nearest to the given coordinates, axis by axis.
    pub fn clamped(x: i64, y: i64, z: i64) -> (r: FixedVec3)
        ensures
            r.in_world(),
            r.x == clamp_to_world(x as int),
            r.y == clamp_to_world(y as int),
            r.z == clamp_to_world(z as int),
    {
        FixedVec3 {
            x: clamp_to(x as i128, -WORLD_LIMIT, WORLD_LIMIT),
            y: clamp_to(y as i128, -WORLD_LIMIT, WORLD_LIMIT),
            z: clamp_to(z as i128, -WORLD_LIMIT, WORLD_LIMIT),
        }
    }

    /// The point of the cube of half-width `bound` nearest to the given
    /// coordinates, axis by axis.
    pub fn clamped_to(x: i64, y: i64, z: i64, bound: i64) -> (r: FixedVec3)
        requires
            0 <= bound,
        ensures
            r.within(bound as int),
            r.x == clamp(x as int, -(bound as int), bound as int),
            r.y == clamp(y as int, -(bound as int), bound as int),
            r.z == clamp(z as int, -(bound as int), bound as int),
    {
        FixedVec3 {
            x: clamp_to(x as i128, -bound, bound),
            y: clamp_to(y as i128, -bound, bound),
            z: clamp_to(z as i128, -bound, bound),
        }
    }

    /// Tells whether every coordinate lies within the world's extent.
    pub fn is_in_world(&self) -> (r: bool)
        ensures
            r == self.in_world(),
    {
        -WORLD_LIMIT <= self.x && self.x <= WORLD_LIMIT && -WORLD_LIMIT <= self.y && self.y
            <= WORLD_LIMIT && -WORLD_LIMIT <= self.z && self.z <= WORLD_LIMIT
    }

    /// The squared length, in square millionths.
    pub open spec fn length_squared(&self) -> int {
        self.x * self.x + self.y * self.y + self.z * self.z
    }

    /// The squared distance to `other`, in square millionths.
    pub open spec fn distance_squared(&self, other: FixedVec3) -> int {
        (self.x - other.x) * (self.x - other.x) + (self.y - other.y) * (self.y - other.y) + (
        self.z - other.z) * (self.z - other.z)
    }

    /// No coordinate is larger in magnitude than `bound`.
    pub open spec fn within(&self, bound: int) -> bool {
        &&& -bound <= self.x <= bound
        &&& -bound <= self.y <= bound
        &&& -bound <= self.z <= bound
    }

    /// The vector, whose length is `len`, scaled to the length `UNIT`: a
    /// direction. Each coordinate is rounded toward zero.
    pub open spec fn to_unit_length(self, len: int) -> FixedVec3 {
        FixedVec3 {
            x: scale_toward_zero(self.x as int, UNIT as int, len) as i64,
            y: scale_toward_zero(self.y as int, UNIT as int, len) as i64,
            z: scale_toward_zero(self.z as int, UNIT as int, len) as i64,
        }
    }

    /// The direction, which has the length `UNIT`, scaled to the length
    /// `travel`. Each coordinate is rounded toward zero.
    pub open spec fn stretched(self, travel: int) -> FixedVec3 {
        FixedVec3 {
            x: scale_toward_zero(self.x as int, travel, UNIT as int) as i64,
            y: scale_toward_zero(self.y as int, travel, UNIT as int) as i64,
            z: scale_toward_zero(self.z as int, travel, UNIT as int) as i64,
        }
    }

    /// Scales the vector, whose length is `len`, to the length `UNIT`.
    pub fn scale_to_unit(&self, len: u64) -> (r: FixedVec3)
        requires
            len > 0,
            self.within(len as int),
        ensures
            r == self.to_unit_length(len as int),
            r.within(UNIT as int),
    {
        proof {
            lemma_scale_toward_zero_within(self.x as int, UNIT as int, len as int);
            lemma_scale_toward_zero_within(self.y as int, UNIT as int, len as int);
            lemma_scale_toward_zero_within(self.z as int, UNIT as int, len as int);
        }
        let x: i128 = mul_div_toward_zero(self.x, UNIT as u64, len);
        let y: i128 = mul_div_toward_zero(self.y, UNIT as u64, len);
        let z: i128 = mul_div_toward_zero(self.z, UNIT as u64, len);
        FixedVec3 { x: x as i64, y: y as i64, z: z as i64 }
    }

    /// Scales the direction, which has the length `UNIT`, to the length
    /// `travel`.
    pub fn stretch(&self, travel: u64) -> (r: FixedVec3)
        requires
            self.within(UNIT as int),
            travel <= i64::MAX,
        ensures
            r == self.stretched(travel as int),
            r.within(travel as int),
    {
        proof {
            lemma_scale_toward_zero_within(self.x as int, travel as int, UNIT as int);
            lemma_scale_toward_zero_within(self.y as int, travel as int, UNIT as int);
            lemma_scale_toward_zero_within(self.z as int, travel as int, UNIT as int);
        }
        let x: i128 = mul_div_toward_zero(self.x, travel, UNIT as u64);
        let y: i128 = mul_div_toward_zero(self.y, travel, UNIT as u64);
        let z: i128 = mul_div_toward_zero(self.z, travel, UNIT as u64);
        FixedVec3 { x: x as i64, y: y as i64, z: z as i64 }
    }
}

/// A coordinate `c` of a vector of length `len`, scaled to unit length and
/// then to the length `travel`, is no larger in magnitude than the exact
/// `c * travel / len`, and has the sign of `c`.
pub proof fn lemma_scaled_coordinate(c: int, len: int, travel: int)
    by (nonlinear_arith)
    requires
        len > 0,
        travel >= 0,
    ensures
        ({
            let m = scale_toward_zero(
                scale_toward_zero(c, UNIT as int, len),
                travel,
                UNIT as int,
            );
            &&& c >= 0 ==> 0 <= m && m * len <= c * travel
            &&& c <= 0 ==> m <= 0 && c * travel <= m * len
            &&& (m * len) * (m * len) <= (c * travel) * (c * travel)
        }),
{
    let u = UNIT as int;
    let a = if c >= 0 { c } else { -c };
    let dir = (a * u) / len;
    assert(a * u >= 0);
    assert(0 <= dir && dir * len <= a * u);
    let m = (dir * travel) / u;
    assert(dir * travel >= 0);
    assert(0 <= m && m * u <= dir * travel);
    assert(m * len <= a * travel) by {
        assert((m * u) * len <= (dir * travel) * len);
        assert((dir * travel) * len == (dir * len) * travel);
        assert((dir * len) * travel <= (a * u) * travel);
        assert((m * len) * u <= (a * travel) * u);
    }
    assert(m * len >= 0);
    assert(a * travel >= 0);
    assert((m * len) * (m * len) <= (a * travel) * (a * travel));
    if c >= 0 {
        assert(scale_toward_zero(c, u, len) == dir);
        assert(scale_toward_zero(dir, travel, u) == m);
    } else {
        assert(-(c * u) == a * u);
        if c * u == 0 {
            assert(false);
        }
        assert(scale_toward_zero(c, u, len) == -dir);
        assert(-((-dir) * travel) == dir * travel);
        if (-dir) * travel >= 0 {
            assert(dir * travel == 0);
            assert(m == 0);
            assert(scale_toward_zero(-dir, travel, u) == 0);
        } else {
            assert(scale_toward_zero(-dir, travel, u) == -m);
        }
        assert((-m) * len == -(m * len));
        assert(c * travel == -(a * travel));
        assert((c * travel) * (c * travel) == (a * travel) * (a * travel));
        assert(((-m) * len) * ((-m) * len) == (m * len) * (m * len));
    }
}

/// A move along a vector is no longer than it is meant to be: where `len` is
/// the integer part of the vector's length, the vector scaled to unit
/// length and then to the length `travel` is at most `travel` times the
/// vector's length over `len` long. Each coordinate of the move has the
/// sign of the vector's.
pub proof fn lemma_move_no_longer_than_travel(v: FixedVec3, len: int, travel: int)
    requires
        len > 0,
        v.within(len),
        0 <= travel <= i64::MAX,
    ensures
        ({
            let m = v.to_unit_length(len).stretched(travel);
            &&& m.length_squared() * (len * len) <= v.length_squared() * (travel * travel)
            &&& m.within(travel)
            &&& v.x >= 0 ==> m.x >= 0
            &&& v.x <= 0 ==> m.x <= 0
            &&& v.y >= 0 ==> m.y >= 0
            &&& v.y <= 0 ==> m.y <= 0
            &&& v.z >= 0 ==> m.z >= 0
            &&& v.z <= 0 ==> m.z <= 0
        }),
{
    let u = UNIT as int;
    lemma_scale_toward_zero_within(v.x as int, u, len);
    lemma_scale_toward_zero_within(v.y as int, u, len);
    lemma_scale_toward_zero_within(v.z as int, u, len);
    let d = v.to_unit_length(len);
    lemma_scale_toward_zero_within(d.x as int, travel, u);
    lemma_scale_toward_zero_within(d.y as int, travel, u);
    lemma_scale_toward_zero_within(d.z as int, travel, u);
    let m = d.stretched(travel);
    lemma_scaled_coordinate(v.x as int, len, travel);
    lemma_scaled_coordinate(v.y as int, len, travel);
    lemma_scaled_coordinate(v.z as int, len, travel);
    let (mx, my, mz) = (m.x as int, m.y as int, m.z as int);
    let (vx, vy, vz) = (v.x as int, v.y as int, v.z as int);
    assert((mx * len) * (mx * len) == (mx * mx) * (len * len)) by (nonlinear_arith);
    assert((my * len) * (my * len) == (my * my) * (len * len)) by (nonlinear_arith);
    assert((mz * len) * (mz * len) == (mz * mz) * (len * len)) by (nonlinear_arith);
    assert((vx * travel) * (vx * travel) == (vx * vx) * (travel * travel)) by (nonlinear_arith);
    assert((vy * travel) * (vy * travel) == (vy * vy) * (travel * travel)) by (nonlinear_arith);
    assert((vz * travel) * (vz * travel) == (vz * vz) * (travel * travel)) by (nonlinear_arith);
    assert((mx * mx + my * my + mz * mz) * (len * len) == (mx * mx) * (len * len) + (my * my) * (
    len * len) + (mz * mz) * (len * len)) by (nonlinear_arith);
    assert((vx * vx + vy * vy + vz * vz) * (travel * travel) == (vx * vx) * (travel * travel) + (vy
        * vy) * (travel * travel) + (vz * vz) * (travel * travel)) by (nonlinear_arith);
}

} // verus!
