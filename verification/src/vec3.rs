//! Three-component vectors of 16.16 fixed-point scalars, used for positions,
//! directions and linear-RGB colors.

use vstd::prelude::*;
use crate::fixed::{
    abs_i, clamp_i, clamp64, div_floor, fdiv, fmul, isqrt_u64, lemma_div_abs_bound,
    lemma_div_scaled_bound, lemma_mul_abs_bound, max_i, max64, mix_i, mix_fixed, sqrt_i,
    COORD_LIMIT, DIR_LIMIT, LUM_LIMIT, SCALE, SD_LIMIT,
};

verus! {

#[derive(Clone, Copy, Debug, PartialEq, Eq, Structural)]
pub struct Vec3 {
    pub x: i64,
    pub y: i64,
    pub z: i64,
}

/// Builds a vector from spec-level integers; meaningful only when all three
/// fit in `i64`.
pub open spec fn vec3_i(x: int, y: int, z: int) -> Vec3 {
    Vec3 { x: x as i64, y: y as i64, z: z as i64 }
}

impl Vec3 {
    /// All components are within the coordinate range the geometry kernel
    /// accepts for query points and scene parameters.
    pub open spec fn in_range(self) -> bool {
        &&& -COORD_LIMIT <= self.x <= COORD_LIMIT
        &&& -COORD_LIMIT <= self.y <= COORD_LIMIT
        &&& -COORD_LIMIT <= self.z <= COORD_LIMIT
    }

    /// All components are within the direction range (at most 2.0 real),
    /// which holds of every normalized or reflected vector.
    pub open spec fn is_dir(self) -> bool {
        &&& -DIR_LIMIT <= self.x <= DIR_LIMIT
        &&& -DIR_LIMIT <= self.y <= DIR_LIMIT
        &&& -DIR_LIMIT <= self.z <= DIR_LIMIT
    }

    /// All components are within the radiance range.
    pub open spec fn in_lum_range(self) -> bool {
        &&& -LUM_LIMIT <= self.x <= LUM_LIMIT
        &&& -LUM_LIMIT <= self.y <= LUM_LIMIT
        &&& -LUM_LIMIT <= self.z <= LUM_LIMIT
    }

    pub open spec fn spec_add(self, o: Vec3) -> Vec3 {
        vec3_i(self.x + o.x, self.y + o.y, self.z + o.z)
    }

    pub open spec fn spec_sub(self, o: Vec3) -> Vec3 {
        vec3_i(self.x - o.x, self.y - o.y, self.z - o.z)
    }

    pub open spec fn spec_neg(self) -> Vec3 {
        vec3_i(-self.x, -self.y, -self.z)
    }

    pub open spec fn spec_abs(self) -> Vec3 {
        vec3_i(abs_i(self.x as int), abs_i(self.y as int), abs_i(self.z as int))
    }

    /// The fixed-point dot product `(x*ox + y*oy + z*oz) / SCALE`.
    pub open spec fn spec_dot(self, o: Vec3) -> int {
        fdiv(self.x * o.x + self.y * o.y + self.z * o.z, SCALE as int)
    }

    /// The fixed-point squared magnitude.
    pub open spec fn spec_mag_sq(self) -> int {
        fdiv(self.x * self.x + self.y * self.y + self.z * self.z, SCALE as int)
    }

    /// The fixed-point magnitude: the floor square root of `mag_sq * SCALE`.
    pub open spec fn spec_mag(self) -> int {
        sqrt_i(self.spec_mag_sq() * SCALE)
    }

    /// The unit vector along `self` (components saturated to the direction
    /// range), or the zero vector when the magnitude rounds to zero.
    pub open spec fn spec_normalized(self) -> Vec3 {
        let m = self.spec_mag();
        if m <= 0 {
            vec3_i(0, 0, 0)
        } else {
            vec3_i(
                clamp_i(fdiv(self.x * SCALE, m), DIR_LIMIT as int),
                clamp_i(fdiv(self.y * SCALE, m), DIR_LIMIT as int),
                clamp_i(fdiv(self.z * SCALE, m), DIR_LIMIT as int),
            )
        }
    }

    /// `self` reflected about the (unit) normal `n`:
    /// `self - 2 * dot(self, n) * n`, saturated to the direction range.
    pub open spec fn spec_reflected(self, n: Vec3) -> Vec3 {
        let d = self.spec_dot(n);
        vec3_i(
            clamp_i(self.x - fdiv(2 * d * n.x, SCALE as int), DIR_LIMIT as int),
            clamp_i(self.y - fdiv(2 * d * n.y, SCALE as int), DIR_LIMIT as int),
            clamp_i(self.z - fdiv(2 * d * n.z, SCALE as int), DIR_LIMIT as int),
        )
    }

    /// `self + dir * t / SCALE`, each component clamped to the coordinate
    /// range; the marching step.
    pub open spec fn spec_add_scaled(self, dir: Vec3, t: int) -> Vec3 {
        vec3_i(
            clamp_i(self.x + fmul(dir.x as int, t), COORD_LIMIT as int),
            clamp_i(self.y + fmul(dir.y as int, t), COORD_LIMIT as int),
            clamp_i(self.z + fmul(dir.z as int, t), COORD_LIMIT as int),
        )
    }

    pub open spec fn spec_max_by_component(self, o: Vec3) -> Vec3 {
        vec3_i(
            max_i(self.x as int, o.x as int),
            max_i(self.y as int, o.y as int),
            max_i(self.z as int, o.z as int),
        )
    }

    pub open spec fn spec_component_max(self) -> int {
        max_i(max_i(self.x as int, self.y as int), self.z as int)
    }

    /// Componentwise linear blend with fixed-point weight `w`.
    pub open spec fn spec_mix(self, o: Vec3, w: int) -> Vec3 {
        vec3_i(
            mix_i(self.x as int, o.x as int, w),
            mix_i(self.y as int, o.y as int, w),
            mix_i(self.z as int, o.z as int, w),
        )
    }

    /// Bounds of the squared magnitude and magnitude of an in-range vector.
    pub proof fn lemma_mag_bounds(self)
        requires
            self.in_range(),
        ensures
            0 <= self.spec_mag_sq() <= 0xC000_0000_0000,
            0 <= self.spec_mag() <= 0x1_0000_0000,
    {
        lemma_mul_abs_bound(self.x as int, self.x as int, COORD_LIMIT as int, COORD_LIMIT as int);
        lemma_mul_abs_bound(self.y as int, self.y as int, COORD_LIMIT as int, COORD_LIMIT as int);
        lemma_mul_abs_bound(self.z as int, self.z as int, COORD_LIMIT as int, COORD_LIMIT as int);
        assert(0 <= self.x * self.x) by (nonlinear_arith);
        assert(0 <= self.y * self.y) by (nonlinear_arith);
        assert(0 <= self.z * self.z) by (nonlinear_arith);
        crate::fixed::lemma_div_scaled_bound(
            self.x * self.x + self.y * self.y + self.z * self.z,
            SCALE as int,
            0xC000_0000_0000,
        );
        vstd::arithmetic::div_mod::lemma_div_pos_is_pos(
            self.x * self.x + self.y * self.y + self.z * self.z,
            SCALE as int,
        );
        crate::fixed::lemma_sqrt_le(self.spec_mag_sq() * SCALE, 0x1_0000_0000);
        crate::fixed::lemma_sqrt_i(self.spec_mag_sq() * SCALE);
    }

    /// Bound of the dot product of an in-range vector with a direction.
    pub proof fn lemma_dot_bound(self, o: Vec3)
        requires
            self.in_range(),
            o.is_dir(),
        ensures
            -0xC_0000_0000 <= self.spec_dot(o) <= 0xC_0000_0000,
    {
        lemma_mul_abs_bound(self.x as int, o.x as int, COORD_LIMIT as int, DIR_LIMIT as int);
        lemma_mul_abs_bound(self.y as int, o.y as int, COORD_LIMIT as int, DIR_LIMIT as int);
        lemma_mul_abs_bound(self.z as int, o.z as int, COORD_LIMIT as int, DIR_LIMIT as int);
        lemma_div_scaled_bound(
            self.x * o.x + self.y * o.y + self.z * o.z,
            SCALE as int,
            0xC_0000_0000,
        );
    }

    pub fn new(x: i64, y: i64, z: i64) -> (r: Vec3)
        ensures
            r == (Vec3 { x, y, z }),
    {
        Vec3 { x, y, z }
    }

    pub fn zero() -> (r: Vec3)
        ensures
            r == vec3_i(0, 0, 0),
    {
        Vec3 { x: 0, y: 0, z: 0 }
    }

    pub fn add(self, o: Vec3) -> (r: Vec3)
        requires
            abs_i(self.x + o.x) <= 0x4000_0000_0000_0000,
            abs_i(self.y + o.y) <= 0x4000_0000_0000_0000,
            abs_i(self.z + o.z) <= 0x4000_0000_0000_0000,
        ensures
            r == self.spec_add(o),
    {
        Vec3 { x: self.x + o.x, y: self.y + o.y, z: self.z + o.z }
    }

    pub fn sub(self, o: Vec3) -> (r: Vec3)
        requires
            abs_i(self.x - o.x) <= 0x4000_0000_0000_0000,
            abs_i(self.y - o.y) <= 0x4000_0000_0000_0000,
            abs_i(self.z - o.z) <= 0x4000_0000_0000_0000,
        ensures
            r == self.spec_sub(o),
    {
        Vec3 { x: self.x - o.x, y: self.y - o.y, z: self.z - o.z }
    }

    pub fn neg(self) -> (r: Vec3)
        requires
            abs_i(self.x as int) <= 0x4000_0000_0000_0000,
            abs_i(self.y as int) <= 0x4000_0000_0000_0000,
            abs_i(self.z as int) <= 0x4000_0000_0000_0000,
        ensures
            r == self.spec_neg(),
    {
        Vec3 { x: -self.x, y: -self.y, z: -self.z }
    }

    pub fn abs(self) -> (r: Vec3)
        requires
            abs_i(self.x as int) <= 0x4000_0000_0000_0000,
            abs_i(self.y as int) <= 0x4000_0000_0000_0000,
            abs_i(self.z as int) <= 0x4000_0000_0000_0000,
        ensures
            r == self.spec_abs(),
    {
        Vec3 {
            x: if self.x < 0 { -self.x } else { self.x },
            y: if self.y < 0 { -self.y } else { self.y },
            z: if self.z < 0 { -self.z } else { self.z },
        }
    }

    /// Dot product of an in-range vector with a direction-sized vector.
    pub fn dot(self, o: Vec3) -> (r: i64)
        requires
            self.in_range(),
            abs_i(o.x as int) <= 8 * DIR_LIMIT,
            abs_i(o.y as int) <= 8 * DIR_LIMIT,
            abs_i(o.z as int) <= 8 * DIR_LIMIT,
        ensures
            r == self.spec_dot(o),
            abs_i(r as int) <= 0x0400_0000_0000_0000,
    {
        proof {
            lemma_mul_abs_bound(
                self.x as int,
                o.x as int,
                COORD_LIMIT as int,
                8 * DIR_LIMIT as int,
            );
            lemma_mul_abs_bound(
                self.y as int,
                o.y as int,
                COORD_LIMIT as int,
                8 * DIR_LIMIT as int,
            );
            lemma_mul_abs_bound(
                self.z as int,
                o.z as int,
                COORD_LIMIT as int,
                8 * DIR_LIMIT as int,
            );
            lemma_div_abs_bound(
                self.x * o.x + self.y * o.y + self.z * o.z,
                SCALE as int,
                0x0400_0000_0000_0000,
            );
        }
        let p = self.x * o.x + self.y * o.y + self.z * o.z;
        div_floor(p, SCALE)
    }

    /// Squared magnitude of an in-range vector.
    pub fn mag_sq(self) -> (r: i64)
        requires
            self.in_range(),
        ensures
            r == self.spec_mag_sq(),
            0 <= r <= 0xC000_0000_0000,
    {
        proof {
            lemma_mul_abs_bound(self.x as int, self.x as int, COORD_LIMIT as int, COORD_LIMIT as int);
            lemma_mul_abs_bound(self.y as int, self.y as int, COORD_LIMIT as int, COORD_LIMIT as int);
            lemma_mul_abs_bound(self.z as int, self.z as int, COORD_LIMIT as int, COORD_LIMIT as int);
            assert(0 <= self.x * self.x) by (nonlinear_arith);
            assert(0 <= self.y * self.y) by (nonlinear_arith);
            assert(0 <= self.z * self.z) by (nonlinear_arith);
        }
        let xx = (self.x * self.x) as u64;
        let yy = (self.y * self.y) as u64;
        let zz = (self.z * self.z) as u64;
        let s = xx + yy + zz;
        (s / 65536) as i64
    }

    /// Magnitude (length) of an in-range vector.
    pub fn mag(self) -> (r: i64)
        requires
            self.in_range(),
        ensures
            r == self.spec_mag(),
            0 <= r <= 0x1_0000_0000,
    {
        let msq = self.mag_sq();
        let n = (msq as u64) * 65536;
        let r = isqrt_u64(n);
        r as i64
    }

    /// Unit vector along `self`, or zero when the magnitude rounds to zero.
    pub fn normalized(self) -> (r: Vec3)
        requires
            self.in_range(),
        ensures
            r == self.spec_normalized(),
            r.is_dir(),
    {
        let m = self.mag();
        if m == 0 {
            Vec3 { x: 0, y: 0, z: 0 }
        } else {
            let x = clamp64(div_floor(self.x * SCALE, m), DIR_LIMIT);
            let y = clamp64(div_floor(self.y * SCALE, m), DIR_LIMIT);
            let z = clamp64(div_floor(self.z * SCALE, m), DIR_LIMIT);
            Vec3 { x, y, z }
        }
    }

    /// Reflection of `self` about the unit normal `n`.
    pub fn reflected(self, n: Vec3) -> (r: Vec3)
        requires
            self.is_dir(),
            n.is_dir(),
        ensures
            r == self.spec_reflected(n),
            r.is_dir(),
    {
        let d = self.dot(n);
        proof {
            lemma_mul_abs_bound(self.x as int, n.x as int, DIR_LIMIT as int, DIR_LIMIT as int);
            lemma_mul_abs_bound(self.y as int, n.y as int, DIR_LIMIT as int, DIR_LIMIT as int);
            lemma_mul_abs_bound(self.z as int, n.z as int, DIR_LIMIT as int, DIR_LIMIT as int);
            lemma_div_scaled_bound(
                self.x * n.x + self.y * n.y + self.z * n.z,
                SCALE as int,
                786432,
            );
            lemma_mul_abs_bound(2 * d as int, n.x as int, 1572864, DIR_LIMIT as int);
            lemma_mul_abs_bound(2 * d as int, n.y as int, 1572864, DIR_LIMIT as int);
            lemma_mul_abs_bound(2 * d as int, n.z as int, 1572864, DIR_LIMIT as int);
            lemma_div_abs_bound(2 * d * n.x, SCALE as int, 0x0400_0000_0000_0000);
            lemma_div_abs_bound(2 * d * n.y, SCALE as int, 0x0400_0000_0000_0000);
            lemma_div_abs_bound(2 * d * n.z, SCALE as int, 0x0400_0000_0000_0000);
        }
        let x = clamp64(self.x - div_floor(2 * d * n.x, SCALE), DIR_LIMIT);
        let y = clamp64(self.y - div_floor(2 * d * n.y, SCALE), DIR_LIMIT);
        let z = clamp64(self.z - div_floor(2 * d * n.z, SCALE), DIR_LIMIT);
        Vec3 { x, y, z }
    }

    /// The marching step `self + dir * t / SCALE`, clamped to the coordinate
    /// range.
    pub fn add_scaled(self, dir: Vec3, t: i64) -> (r: Vec3)
        requires
            self.in_range(),
            abs_i(dir.x as int) <= 8 * DIR_LIMIT,
            abs_i(dir.y as int) <= 8 * DIR_LIMIT,
            abs_i(dir.z as int) <= 8 * DIR_LIMIT,
            abs_i(t as int) <= SD_LIMIT,
        ensures
            r == self.spec_add_scaled(dir, t as int),
            r.in_range(),
    {
        proof {
            lemma_mul_abs_bound(dir.x as int, t as int, 8 * DIR_LIMIT as int, SD_LIMIT as int);
            lemma_mul_abs_bound(dir.y as int, t as int, 8 * DIR_LIMIT as int, SD_LIMIT as int);
            lemma_mul_abs_bound(dir.z as int, t as int, 8 * DIR_LIMIT as int, SD_LIMIT as int);
            lemma_div_abs_bound(dir.x * t, SCALE as int, 0x0400_0000_0000_0000);
            lemma_div_abs_bound(dir.y * t, SCALE as int, 0x0400_0000_0000_0000);
            lemma_div_abs_bound(dir.z * t, SCALE as int, 0x0400_0000_0000_0000);
        }
        let x = clamp64(self.x + div_floor(dir.x * t, SCALE), COORD_LIMIT);
        let y = clamp64(self.y + div_floor(dir.y * t, SCALE), COORD_LIMIT);
        let z = clamp64(self.z + div_floor(dir.z * t, SCALE), COORD_LIMIT);
        Vec3 { x, y, z }
    }

    pub fn max_by_component(self, o: Vec3) -> (r: Vec3)
        ensures
            r == self.spec_max_by_component(o),
    {
        Vec3 {
            x: max64(self.x, o.x),
            y: max64(self.y, o.y),
            z: max64(self.z, o.z),
        }
    }

    pub fn component_max(self) -> (r: i64)
        ensures
            r == self.spec_component_max(),
    {
        max64(max64(self.x, self.y), self.z)
    }

    /// Componentwise blend `o * w + self * (1 - w)` with fixed weight `w`.
    pub fn mix(self, o: Vec3, w: i64) -> (r: Vec3)
        requires
            0 <= w <= SCALE,
            self.in_lum_range(),
            o.in_lum_range(),
        ensures
            r == self.spec_mix(o, w as int),
    {
        Vec3 {
            x: mix_fixed(self.x, o.x, w),
            y: mix_fixed(self.y, o.y, w),
            z: mix_fixed(self.z, o.z, w),
        }
    }
}

} // verus!
