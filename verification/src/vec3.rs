//! Points and offsets in space, in whole units.
//!
//! A unit is whatever the caller makes it: the library only asks that coordinates stay inside
//! the bounds below, so that its arithmetic cannot overflow.

use crate::scale::{
    aligned, lemma_component_fits, lemma_scaled_bound, lemma_scaled_lower, lemma_scaled_nonzero,
    lemma_scaled_skew, lemma_scaled_upper, lemma_step_component, lemma_successor_squares, len_sq,
    magnitude, scaled,
};
use crate::sqrt::{floor_sqrt, isqrt, lemma_floor_sqrt, lemma_floor_sqrt_monotonic};
use vstd::prelude::*;

verus! {

/// The largest size of a coordinate that the geometric operations accept.
pub const WORLD_MAX: i64 = 0x8000_0000;

/// The largest size of a coordinate of a joint or a goal.
pub const COORD_MAX: i64 = 0x4000_0000;

/// The largest size of a coordinate of a chain's root.
pub const ROOT_MAX: i64 = 0x2000_0000;

/// The largest length of a chain.
pub const REACH_MAX: u64 = 0x2000_0000;

/// The number of parts into which a unit is divided when a direction's length is measured, and
/// the largest length to which a direction can be scaled.
pub const FINE: u64 = 0x8000_0000;

/// A point in space, or the offset between two points.
#[derive(Clone, Copy, Debug, PartialEq, Eq, Structural)]
pub struct Vec3 {
    pub x: i64,
    pub y: i64,
    pub z: i64,
}

impl Vec3 {
    /// No coordinate is larger in size than `bound`.
    pub open spec fn within(self, bound: int) -> bool {
        &&& -bound <= self.x <= bound
        &&& -bound <= self.y <= bound
        &&& -bound <= self.z <= bound
    }

    /// No coordinate differs from that of `center` by more than `radius`.
    pub open spec fn near(self, center: Vec3, radius: int) -> bool {
        &&& -radius <= self.x - center.x <= radius
        &&& -radius <= self.y - center.y <= radius
        &&& -radius <= self.z - center.z <= radius
    }

    /// The squared distance to `other`.
    pub open spec fn dist_sq(self, other: Vec3) -> int {
        len_sq(other.x - self.x, other.y - self.y, other.z - self.z)
    }

    /// The distance to `other`, rounded down.
    pub open spec fn dist(self, other: Vec3) -> int {
        floor_sqrt(self.dist_sq(other))
    }

    /// The distance to `other` in parts of a unit, rounded down.
    pub open spec fn fine_dist(self, other: Vec3) -> int {
        floor_sqrt(self.dist_sq(other) * (FINE * FINE))
    }

    /// The point `len` away from `self` on the ray through `target`, each coordinate rounded
    /// toward `self`; `self` where the two coincide and there is no ray.
    pub open spec fn toward(self, target: Vec3, len: int) -> Vec3 {
        if self == target {
            self
        } else {
            let m = self.fine_dist(target);
            Vec3 {
                x: (self.x + scaled(target.x - self.x, len, FINE as int, m)) as i64,
                y: (self.y + scaled(target.y - self.y, len, FINE as int, m)) as i64,
                z: (self.z + scaled(target.z - self.z, len, FINE as int, m)) as i64,
            }
        }
    }

    /// The point with the given coordinates.
    pub fn new(x: i64, y: i64, z: i64) -> (v: Vec3)
        ensures
            v == (Vec3 { x, y, z }),
    {
        Vec3 { x, y, z }
    }

    /// Whether no coordinate is larger in size than `bound`.
    pub fn is_within(&self, bound: i64) -> (b: bool)
        requires
            0 <= bound,
        ensures
            b == self.within(bound as int),
    {
        -bound <= self.x && self.x <= bound && -bound <= self.y && self.y <= bound && -bound
            <= self.z && self.z <= bound
    }

    /// The squared distance to `other`.
    pub fn distance_squared(&self, other: &Vec3) -> (d: u128)
        requires
            self.within(WORLD_MAX as int),
            other.within(WORLD_MAX as int),
        ensures
            d == self.dist_sq(*other),
            d <= 3 * 0x1_0000_0000_0000_0000,
    {
        let ax = gap(self.x, other.x) as u128;
        let ay = gap(self.y, other.y) as u128;
        let az = gap(self.z, other.z) as u128;
        proof {
            lemma_gap_squares(self.x as int, other.x as int, ax as int);
            lemma_gap_squares(self.y as int, other.y as int, ay as int);
            lemma_gap_squares(self.z as int, other.z as int, az as int);
        }
        ax * ax + ay * ay + az * az
    }

    /// The distance to `other`, rounded down.
    pub fn distance(&self, other: &Vec3) -> (d: u64)
        requires
            self.within(WORLD_MAX as int),
            other.within(WORLD_MAX as int),
        ensures
            d == self.dist(*other),
            d < 0x2_0000_0000,
    {
        let d2 = self.distance_squared(other);
        let d = isqrt(d2);
        proof {
            assert(0x2_0000_0000int * 0x2_0000_0000int == 4 * 0x1_0000_0000_0000_0000int)
                by (nonlinear_arith);
            crate::sqrt::lemma_square_lt_rev(d as int, 0x2_0000_0000);
        }
        d
    }

    /// The point from which offsets are counted.
    pub open spec fn origin() -> Vec3 {
        Vec3 { x: 0, y: 0, z: 0 }
    }

    /// The point that the offset `by` leads to.
    pub open spec fn plus(self, by: Vec3) -> Vec3 {
        Vec3 { x: (self.x + by.x) as i64, y: (self.y + by.y) as i64, z: (self.z + by.z) as i64 }
    }

    /// The point `len` away from `self` in the direction `dir`; `self` where `dir` is zero.
    pub open spec fn along(self, dir: Vec3, len: int) -> Vec3 {
        self.plus(Vec3::origin().toward(dir, len))
    }

    /// The point `len` away in the direction `dir`: see [`Vec3::along`].
    pub fn move_along(&self, dir: &Vec3, len: u64) -> (p: Vec3)
        requires
            self.within(WORLD_MAX as int),
            dir.within(WORLD_MAX as int),
            len <= FINE,
        ensures
            p == self.along(*dir, len as int),
            p.near(*self, len as int),
            *dir != Vec3::origin() ==> len * len - 4 * len <= self.dist_sq(p) <= len * len + 2 * len,
    {
        let by = Vec3::new(0, 0, 0).move_toward(dir, len);
        Vec3 { x: self.x + by.x, y: self.y + by.y, z: self.z + by.z }
    }

    /// The point `len` away on the ray through `target`: see [`Vec3::toward`].
    pub fn move_toward(&self, target: &Vec3, len: u64) -> (p: Vec3)
        requires
            self.within(WORLD_MAX as int),
            target.within(WORLD_MAX as int),
            len <= FINE,
        ensures
            p == self.toward(*target, len as int),
            p.near(*self, len as int),
            *self != *target ==> len * len - 4 * len <= self.dist_sq(p) <= len * len + 2 * len,
    {
        if self.x == target.x && self.y == target.y && self.z == target.z {
            return *self;
        }
        let ax = gap(self.x, target.x) as u128;
        let ay = gap(self.y, target.y) as u128;
        let az = gap(self.z, target.z) as u128;
        proof {
            lemma_gap_squares(self.x as int, target.x as int, ax as int);
            lemma_gap_squares(self.y as int, target.y as int, ay as int);
            lemma_gap_squares(self.z as int, target.z as int, az as int);
            lemma_toward(*self, *target, len as int);
        }
        let n2: u128 = ax * ax + ay * ay + az * az;
        let ff: u128 = (FINE as u128) * (FINE as u128);
        assert(n2 * ff <= 3 * 0x1_0000_0000_0000_0000 * 0x4000_0000_0000_0000) by (nonlinear_arith)
            requires
                n2 <= 3 * 0x1_0000_0000_0000_0000,
                ff == 0x4000_0000_0000_0000,
        ;
        let m = isqrt(n2 * ff) as u128;
        let qx = scale_part(ax, len, m);
        let qy = scale_part(ay, len, m);
        let qz = scale_part(az, len, m);
        let x = if target.x >= self.x {
            self.x + qx
        } else {
            self.x - qx
        };
        let y = if target.y >= self.y {
            self.y + qy
        } else {
            self.y - qy
        };
        let z = if target.z >= self.z {
            self.z + qz
        } else {
            self.z - qz
        };
        let p = Vec3 { x, y, z };
        proof {
            let q = self.toward(*target, len as int);
            assert(p.x == q.x);
            assert(p.y == q.y);
            assert(p.z == q.z);
        }
        p
    }
}

/// The size of the difference of two coordinates.
pub fn gap(a: i64, b: i64) -> (g: u64)
    requires
        -WORLD_MAX <= a <= WORLD_MAX,
        -WORLD_MAX <= b <= WORLD_MAX,
    ensures
        g == magnitude(b - a),
        g <= 2 * WORLD_MAX,
{
    if b >= a {
        (b - a) as u64
    } else {
        (a - b) as u64
    }
}

/// A difference and its size have the same square, which is bounded with the difference.
pub proof fn lemma_gap_squares(a: int, b: int, g: int)
    requires
        g == magnitude(b - a),
        g <= 2 * WORLD_MAX,
    ensures
        g * g == (b - a) * (b - a),
        g * g <= 0x1_0000_0000_0000_0000,
{
    assert(g * g == (b - a) * (b - a)) by (nonlinear_arith)
        requires
            g == b - a || g == -(b - a),
    ;
    assert(g * g <= 0x1_0000_0000 * 0x1_0000_0000) by (nonlinear_arith)
        requires
            0 <= g <= 0x1_0000_0000,
    ;
}

/// One component of a direction, scaled to `len`: `a * len * FINE / m`, rounded down.
fn scale_part(a: u128, len: u64, m: u128) -> (q: i64)
    requires
        a <= 2 * WORLD_MAX,
        len <= FINE,
        0 < m,
        a * FINE <= m,
    ensures
        q == (a * len * FINE) / (m as int),
        0 <= q <= len,
{
    assert(a * len <= 0x1_0000_0000 * 0x8000_0000) by (nonlinear_arith)
        requires
            a <= 0x1_0000_0000,
            len <= 0x8000_0000,
    ;
    let al: u128 = a * (len as u128);
    assert(al * FINE <= 0x1_0000_0000 * 0x8000_0000 * 0x8000_0000) by (nonlinear_arith)
        requires
            al <= 0x1_0000_0000 * 0x8000_0000,
            FINE == 0x8000_0000,
    ;
    let t: u128 = al * (FINE as u128);
    proof {
        lemma_scaled_bound(a as int, len as int, FINE as int, m as int);
    }
    (t / m) as i64
}

/// Where `toward` puts a point: no further than `len` from the start in any coordinate, and at
/// a distance from it that is `len` but for the rounding.
pub proof fn lemma_toward(a: Vec3, b: Vec3, len: int)
    requires
        a.within(WORLD_MAX as int),
        b.within(WORLD_MAX as int),
        0 <= len <= FINE,
    ensures
        a.toward(b, len).near(a, len),
        a != b ==> len * len - 4 * len <= a.dist_sq(a.toward(b, len)) <= len * len + 2 * len,
        a != b && len >= 2 ==> 1 <= a.dist_sq(a.toward(b, len)),
        a != b ==> {
            let m = a.fine_dist(b);
            &&& FINE <= m < 0x1_0000_0000_0000_0000
            &&& m * m <= a.dist_sq(b) * (FINE * FINE) < (m + 1) * (m + 1)
            &&& magnitude(b.x - a.x) * FINE <= m
            &&& magnitude(b.y - a.y) * FINE <= m
            &&& magnitude(b.z - a.z) * FINE <= m
            &&& a.toward(b, len).x == a.x + scaled(b.x - a.x, len, FINE as int, m)
            &&& a.toward(b, len).y == a.y + scaled(b.y - a.y, len, FINE as int, m)
            &&& a.toward(b, len).z == a.z + scaled(b.z - a.z, len, FINE as int, m)
        },
{
    if a != b {
        let dx = b.x - a.x;
        let dy = b.y - a.y;
        let dz = b.z - a.z;
        let ax = magnitude(dx);
        let ay = magnitude(dy);
        let az = magnitude(dz);
        lemma_gap_squares(a.x as int, b.x as int, ax);
        lemma_gap_squares(a.y as int, b.y as int, ay);
        lemma_gap_squares(a.z as int, b.z as int, az);
        let n2 = a.dist_sq(b);
        assert(n2 == len_sq(ax, ay, az));
        assert(1 <= n2) by (nonlinear_arith)
            requires
                n2 == ax * ax + ay * ay + az * az,
                0 <= ax,
                0 <= ay,
                0 <= az,
                ax != 0 || ay != 0 || az != 0,
        ;
        let f = FINE as int;
        let n = n2 * (f * f);
        assert(f * f == 0x4000_0000_0000_0000) by (nonlinear_arith)
            requires
                f == 0x8000_0000,
        ;
        let m = a.fine_dist(b);
        lemma_floor_sqrt(n, f);
        lemma_floor_sqrt(f * f, f);
        lemma_floor_sqrt_monotonic(f * f, n);
        assert(0x1_0000_0000_0000_0000int * 0x1_0000_0000_0000_0000int > 3
            * 0x1_0000_0000_0000_0000 * 0x4000_0000_0000_0000) by (nonlinear_arith);
        crate::sqrt::lemma_square_lt_rev(m, 0x1_0000_0000_0000_0000);
        assert(ax * ax <= n2 && ay * ay <= n2 && az * az <= n2) by (nonlinear_arith)
            requires
                n2 == ax * ax + ay * ay + az * az,
        ;
        assert(n2 * f * f == n) by (nonlinear_arith)
            requires
                n == n2 * (f * f),
        ;
        lemma_component_fits(ax, n2, f, m);
        lemma_component_fits(ay, n2, f, m);
        lemma_component_fits(az, n2, f, m);
        lemma_scaled_bound(ax, len, f, m);
        lemma_scaled_bound(ay, len, f, m);
        lemma_scaled_bound(az, len, f, m);
        lemma_scaled_upper(ax, ay, az, len, f, m, n);
        lemma_scaled_lower(ax, ay, az, len, f, m, n);
        if len >= 2 {
            lemma_scaled_nonzero(ax, ay, az, len, f, m, n);
        }
        let qx = (ax * len * f) / m;
        let qy = (ay * len * f) / m;
        let qz = (az * len * f) / m;
        let p = a.toward(b, len);
        assert(scaled(dx, len, f, m) == qx || scaled(dx, len, f, m) == -qx);
        assert(scaled(dy, len, f, m) == qy || scaled(dy, len, f, m) == -qy);
        assert(scaled(dz, len, f, m) == qz || scaled(dz, len, f, m) == -qz);
        assert(p.x - a.x == scaled(dx, len, f, m));
        assert(p.y - a.y == scaled(dy, len, f, m));
        assert(p.z - a.z == scaled(dz, len, f, m));
        assert((p.x - a.x) * (p.x - a.x) == qx * qx) by (nonlinear_arith)
            requires
                p.x - a.x == qx || p.x - a.x == -qx,
        ;
        assert((p.y - a.y) * (p.y - a.y) == qy * qy) by (nonlinear_arith)
            requires
                p.y - a.y == qy || p.y - a.y == -qy,
        ;
        assert((p.z - a.z) * (p.z - a.z) == qz * qz) by (nonlinear_arith)
            requires
                p.z - a.z == qz || p.z - a.z == -qz,
        ;
    }
}

/// Two points of one ray, `cum` and `cum + len` from its start, are `len` apart but for the
/// rounding.
pub proof fn lemma_ray_step(a: Vec3, b: Vec3, cum: int, len: int)
    requires
        a.within(WORLD_MAX as int),
        b.within(WORLD_MAX as int),
        a != b,
        0 <= cum,
        0 <= len,
        cum + len <= FINE,
    ensures
        len * len - 4 * len <= a.toward(b, cum).dist_sq(a.toward(b, cum + len)) <= len * len + 6
            * len + 5,
        len >= 2 ==> 1 <= a.toward(b, cum).dist_sq(a.toward(b, cum + len)),
{
    let f = FINE as int;
    let m = a.fine_dist(b);
    lemma_toward(a, b, cum);
    lemma_toward(a, b, cum + len);
    lemma_toward(a, b, len);
    let p = a.toward(b, cum);
    let q = a.toward(b, cum + len);
    let w = a.toward(b, len);
    let ax = magnitude(b.x - a.x);
    let ay = magnitude(b.y - a.y);
    let az = magnitude(b.z - a.z);
    lemma_step_component(ax, cum, len, f, m);
    lemma_step_component(ay, cum, len, f, m);
    lemma_step_component(az, cum, len, f, m);
    lemma_scaled_bound(ax, len, f, m);
    lemma_scaled_bound(ay, len, f, m);
    lemma_scaled_bound(az, len, f, m);
    let qx = (ax * len * f) / m;
    let qy = (ay * len * f) / m;
    let qz = (az * len * f) / m;
    let vx = (ax * (cum + len) * f) / m - (ax * cum * f) / m;
    let vy = (ay * (cum + len) * f) / m - (ay * cum * f) / m;
    let vz = (az * (cum + len) * f) / m - (az * cum * f) / m;
    assert(q.x - p.x == vx || q.x - p.x == -vx);
    assert(q.y - p.y == vy || q.y - p.y == -vy);
    assert(q.z - p.z == vz || q.z - p.z == -vz);
    assert(w.x - a.x == qx || w.x - a.x == -qx);
    assert(w.y - a.y == qy || w.y - a.y == -qy);
    assert(w.z - a.z == qz || w.z - a.z == -qz);
    assert((w.x - a.x) * (w.x - a.x) == qx * qx) by (nonlinear_arith)
        requires
            w.x - a.x == qx || w.x - a.x == -qx,
    ;
    assert((w.y - a.y) * (w.y - a.y) == qy * qy) by (nonlinear_arith)
        requires
            w.y - a.y == qy || w.y - a.y == -qy,
    ;
    assert((w.z - a.z) * (w.z - a.z) == qz * qz) by (nonlinear_arith)
        requires
            w.z - a.z == qz || w.z - a.z == -qz,
    ;
    assert(len_sq(qx, qy, qz) == a.dist_sq(w));
    lemma_successor_squares(qx, qy, qz, vx, vy, vz, len);
    assert((q.x - p.x) * (q.x - p.x) == vx * vx) by (nonlinear_arith)
        requires
            q.x - p.x == vx || q.x - p.x == -vx,
    ;
    assert((q.y - p.y) * (q.y - p.y) == vy * vy) by (nonlinear_arith)
        requires
            q.y - p.y == vy || q.y - p.y == -vy,
    ;
    assert((q.z - p.z) * (q.z - p.z) == vz * vz) by (nonlinear_arith)
        requires
            q.z - p.z == vz || q.z - p.z == -vz,
    ;
}

/// Two points inside a bound are less than four times the bound apart.
pub proof fn lemma_dist_bound(a: Vec3, b: Vec3, bound: int)
    requires
        0 <= bound,
        a.within(bound),
        b.within(bound),
    ensures
        0 <= a.dist(b) < 4 * bound + 1,
{
    let n = a.dist_sq(b);
    let dx = b.x - a.x;
    let dy = b.y - a.y;
    let dz = b.z - a.z;
    let w = 2 * bound;
    assert(dx * dx <= w * w) by (nonlinear_arith)
        requires
            -w <= dx <= w,
    ;
    assert(dy * dy <= w * w) by (nonlinear_arith)
        requires
            -w <= dy <= w,
    ;
    assert(dz * dz <= w * w) by (nonlinear_arith)
        requires
            -w <= dz <= w,
    ;
    assert(0 <= dx * dx && 0 <= dy * dy && 0 <= dz * dz) by (nonlinear_arith);
    lemma_floor_sqrt(n, 0);
    assert((4 * bound + 1) * (4 * bound + 1) > 3 * (w * w)) by (nonlinear_arith)
        requires
            w == 2 * bound,
            0 <= bound,
    ;
    crate::sqrt::lemma_square_lt_rev(a.dist(b), 4 * bound + 1);
}

/// `p` lies on the ray from `a` through `b`, but for the rounding of its coordinates: no
/// coordinate of `p` lies on the other side of `a` than that of `b`, and the offsets of `p` and
/// of `b` from `a` are aligned.
pub open spec fn on_ray(a: Vec3, b: Vec3, p: Vec3) -> bool {
    &&& (p.x - a.x) * (b.x - a.x) >= 0
    &&& (p.y - a.y) * (b.y - a.y) >= 0
    &&& (p.z - a.z) * (b.z - a.z) >= 0
    &&& aligned(p.x - a.x, p.y - a.y, b.x - a.x, b.y - a.y)
    &&& aligned(p.y - a.y, p.z - a.z, b.y - a.y, b.z - a.z)
    &&& aligned(p.z - a.z, p.x - a.x, b.z - a.z, b.x - a.x)
}

/// `toward` puts its point on the ray.
pub proof fn lemma_toward_on_ray(a: Vec3, b: Vec3, len: int)
    requires
        a.within(WORLD_MAX as int),
        b.within(WORLD_MAX as int),
        0 <= len <= FINE,
    ensures
        on_ray(a, b, a.toward(b, len)),
{
    if a != b {
        lemma_toward(a, b, len);
        let m = a.fine_dist(b);
        let f = FINE as int;
        lemma_scaled_skew(b.x - a.x, b.y - a.y, len, f, m);
        lemma_scaled_skew(b.y - a.y, b.z - a.z, len, f, m);
        lemma_scaled_skew(b.z - a.z, b.x - a.x, len, f, m);
    } else {
        let z = a.x - a.x;
        assert(z * z == 0) by (nonlinear_arith)
            requires
                z == 0,
        ;
    }
}

} // verus!
