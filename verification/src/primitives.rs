//! Leaf distance fields: sphere, cuboid, torus and plane, each carrying a
//! fixed material.
//!
//! Every `sd_spec` is an exact integer formula; the exec methods return
//! exactly that value.  A signed distance is negative inside the surface,
//! zero on it and positive outside.

use vstd::prelude::*;
use crate::fixed::{
    abs_i, clamp_i, clamp64, fdiv, lemma_div_scaled_bound, lemma_mul_abs_bound, lemma_sqrt_le,
    lemma_sqrt_i, min_i, min64, sqrt_i, sqrt_fixed, COORD_LIMIT, SCALE, SD_LIMIT,
};
use crate::material::Material;
use crate::vec3::{vec3_i, Vec3};

verus! {

/// A ball around the origin.
#[derive(Clone, Copy, Debug, PartialEq, Eq, Structural)]
pub struct Sphere {
    pub material: Material,
    pub radius: i64,
}

impl Sphere {
    pub open spec fn wf(self) -> bool {
        &&& self.material.wf()
        &&& 0 <= self.radius <= COORD_LIMIT
    }

    /// `|point| - radius`.
    pub open spec fn sd_spec(self, point: Vec3) -> int {
        point.spec_mag() - self.radius
    }

    pub proof fn lemma_sd_bound(self, point: Vec3)
        requires
            self.wf(),
            point.in_range(),
        ensures
            -SD_LIMIT <= self.sd_spec(point) <= SD_LIMIT,
    {
        point.lemma_mag_bounds();
    }

    pub fn signed_distance(&self, point: Vec3) -> (r: i64)
        requires
            self.wf(),
            point.in_range(),
        ensures
            r == self.sd_spec(point),
    {
        proof {
            point.lemma_mag_bounds();
        }
        point.mag() - self.radius
    }

    pub fn dist_material(&self, point: Vec3) -> (r: (i64, Material))
        requires
            self.wf(),
            point.in_range(),
        ensures
            r.0 == self.sd_spec(point),
            r.1 == self.material,
    {
        (self.signed_distance(point), self.material)
    }
}

/// Law: a sphere's reported distance is exactly the query point's distance
/// from the origin minus the radius, and for every point strictly outside
/// the sphere it is nonnegative.
pub proof fn lemma_sphere_distance_exact(s: Sphere, point: Vec3)
    requires
        s.wf(),
        point.in_range(),
    ensures
        s.sd_spec(point) == point.spec_mag() - s.radius,
        point.spec_mag() > s.radius ==> s.sd_spec(point) >= 0,
{
}

/// A box around the origin, described by its half-extents along each axis.
#[derive(Clone, Copy, Debug, PartialEq, Eq, Structural)]
pub struct Cuboid {
    pub material: Material,
    pub size: Vec3,
}

impl Cuboid {
    pub open spec fn wf(self) -> bool {
        &&& self.material.wf()
        &&& 0 <= self.size.x <= COORD_LIMIT
        &&& 0 <= self.size.y <= COORD_LIMIT
        &&& 0 <= self.size.z <= COORD_LIMIT
    }

    /// The standard box field: with `q = |point| - size` componentwise,
    /// the length of `max(q, 0)` plus `min(max-component(q), 0)`.
    pub open spec fn sd_spec(self, point: Vec3) -> int {
        let q = point.spec_abs().spec_sub(self.size);
        let outside = q.spec_max_by_component(vec3_i(0, 0, 0));
        outside.spec_mag() + min_i(q.spec_component_max(), 0)
    }

    pub proof fn lemma_sd_bound(self, point: Vec3)
        requires
            self.wf(),
            point.in_range(),
        ensures
            -SD_LIMIT <= self.sd_spec(point) <= SD_LIMIT,
    {
        let q = point.spec_abs().spec_sub(self.size);
        let outside = q.spec_max_by_component(vec3_i(0, 0, 0));
        outside.lemma_mag_bounds();
    }

    pub fn signed_distance(&self, point: Vec3) -> (r: i64)
        requires
            self.wf(),
            point.in_range(),
        ensures
            r == self.sd_spec(point),
    {
        let q = point.abs().sub(self.size);
        let outside = q.max_by_component(Vec3::zero());
        proof {
            outside.lemma_mag_bounds();
        }
        outside.mag() + min64(q.component_max(), 0)
    }

    pub fn dist_material(&self, point: Vec3) -> (r: (i64, Material))
        requires
            self.wf(),
            point.in_range(),
        ensures
            r.0 == self.sd_spec(point),
            r.1 == self.material,
    {
        (self.signed_distance(point), self.material)
    }
}

/// A torus around the origin, lying in the y = 0 plane: `radius_1` is the
/// radius of the ring, `radius_2` the radius of the tube.
#[derive(Clone, Copy, Debug, PartialEq, Eq, Structural)]
pub struct Torus {
    pub material: Material,
    pub radius_1: i64,
    pub radius_2: i64,
}

impl Torus {
    pub open spec fn wf(self) -> bool {
        &&& self.material.wf()
        &&& 0 <= self.radius_1 <= COORD_LIMIT
        &&& 0 <= self.radius_2 <= COORD_LIMIT
    }

    /// Radial distance in the xz plane to the ring circle, clamped to the
    /// coordinate range, then the planar distance to the tube's surface.
    pub open spec fn sd_spec(self, point: Vec3) -> int {
        let xz = sqrt_i(fdiv(point.x * point.x + point.z * point.z, SCALE as int) * SCALE);
        let a = clamp_i(xz - self.radius_1, COORD_LIMIT as int);
        let b = sqrt_i(fdiv(a * a + point.y * point.y, SCALE as int) * SCALE);
        b - self.radius_2
    }

    pub proof fn lemma_sd_bound(self, point: Vec3)
        requires
            self.wf(),
            point.in_range(),
        ensures
            -SD_LIMIT <= self.sd_spec(point) <= SD_LIMIT,
    {
        self.lemma_sd_parts(point);
    }

    /// Range facts about the intermediate values of `sd_spec`.
    proof fn lemma_sd_parts(self, point: Vec3)
        requires
            self.wf(),
            point.in_range(),
        ensures
            ({
                let pxz = fdiv(point.x * point.x + point.z * point.z, SCALE as int);
                let xz = sqrt_i(pxz * SCALE);
                let a = clamp_i(xz - self.radius_1, COORD_LIMIT as int);
                let inner = fdiv(a * a + point.y * point.y, SCALE as int);
                &&& 0 <= pxz <= 0x8000_0000_0000
                &&& 0 <= xz <= 0x1_0000_0000
                &&& 0 <= inner <= 0x8000_0000_0000
                &&& 0 <= sqrt_i(inner * SCALE) <= 0x1_0000_0000
            }),
    {
        lemma_mul_abs_bound(point.x as int, point.x as int, COORD_LIMIT as int, COORD_LIMIT as int);
        lemma_mul_abs_bound(point.z as int, point.z as int, COORD_LIMIT as int, COORD_LIMIT as int);
        assert(0 <= point.x * point.x) by (nonlinear_arith);
        assert(0 <= point.z * point.z) by (nonlinear_arith);
        let pxz = fdiv(point.x * point.x + point.z * point.z, SCALE as int);
        vstd::arithmetic::div_mod::lemma_div_pos_is_pos(
            point.x * point.x + point.z * point.z,
            SCALE as int,
        );
        lemma_div_scaled_bound(
            point.x * point.x + point.z * point.z,
            SCALE as int,
            0x8000_0000_0000,
        );
        lemma_sqrt_le(pxz * SCALE, 0x1_0000_0000);
        lemma_sqrt_i(pxz * SCALE);
        let xz = sqrt_i(pxz * SCALE);
        let a = clamp_i(xz - self.radius_1, COORD_LIMIT as int);
        lemma_mul_abs_bound(a, a, COORD_LIMIT as int, COORD_LIMIT as int);
        lemma_mul_abs_bound(point.y as int, point.y as int, COORD_LIMIT as int, COORD_LIMIT as int);
        assert(0 <= a * a) by (nonlinear_arith);
        assert(0 <= point.y * point.y) by (nonlinear_arith);
        let inner = fdiv(a * a + point.y * point.y, SCALE as int);
        vstd::arithmetic::div_mod::lemma_div_pos_is_pos(
            a * a + point.y * point.y,
            SCALE as int,
        );
        lemma_div_scaled_bound(a * a + point.y * point.y, SCALE as int, 0x8000_0000_0000);
        lemma_sqrt_le(inner * SCALE, 0x1_0000_0000);
        lemma_sqrt_i(inner * SCALE);
    }

    pub fn signed_distance(&self, point: Vec3) -> (r: i64)
        requires
            self.wf(),
            point.in_range(),
        ensures
            r == self.sd_spec(point),
    {
        proof {
            self.lemma_sd_parts(point);
            lemma_mul_abs_bound(
                point.x as int,
                point.x as int,
                COORD_LIMIT as int,
                COORD_LIMIT as int,
            );
            lemma_mul_abs_bound(
                point.z as int,
                point.z as int,
                COORD_LIMIT as int,
                COORD_LIMIT as int,
            );
            lemma_mul_abs_bound(
                point.y as int,
                point.y as int,
                COORD_LIMIT as int,
                COORD_LIMIT as int,
            );
            assert(0 <= point.x * point.x) by (nonlinear_arith);
            assert(0 <= point.z * point.z) by (nonlinear_arith);
            assert(0 <= point.y * point.y) by (nonlinear_arith);
        }
        let pxz = ((point.x * point.x) as u64 + (point.z * point.z) as u64) / 65536;
        let xz = sqrt_fixed(pxz as i64);
        let a = clamp64(xz - self.radius_1, COORD_LIMIT);
        proof {
            lemma_mul_abs_bound(a as int, a as int, COORD_LIMIT as int, COORD_LIMIT as int);
            assert(0 <= a * a) by (nonlinear_arith);
        }
        let inner = ((a * a) as u64 + (point.y * point.y) as u64) / 65536;
        let b = sqrt_fixed(inner as i64);
        b - self.radius_2
    }

    pub fn dist_material(&self, point: Vec3) -> (r: (i64, Material))
        requires
            self.wf(),
            point.in_range(),
        ensures
            r.0 == self.sd_spec(point),
            r.1 == self.material,
    {
        (self.signed_distance(point), self.material)
    }
}

/// A half-space: all points below the plane with the given unit normal and
/// signed offset along it.
#[derive(Clone, Copy, Debug, PartialEq, Eq, Structural)]
pub struct Plane {
    pub material: Material,
    /// Unit normal of the plane.
    pub normal: Vec3,
    /// Signed offset: the plane passes through `-height * normal`.
    pub height: i64,
}

impl Plane {
    pub open spec fn wf(self) -> bool {
        &&& self.material.wf()
        &&& self.normal.is_dir()
        &&& -COORD_LIMIT <= self.height <= COORD_LIMIT
    }

    /// `dot(point, normal) + height`.
    pub open spec fn sd_spec(self, point: Vec3) -> int {
        point.spec_dot(self.normal) + self.height
    }

    pub proof fn lemma_sd_bound(self, point: Vec3)
        requires
            self.wf(),
            point.in_range(),
        ensures
            -SD_LIMIT <= self.sd_spec(point) <= SD_LIMIT,
    {
        point.lemma_dot_bound(self.normal);
    }

    pub fn signed_distance(&self, point: Vec3) -> (r: i64)
        requires
            self.wf(),
            point.in_range(),
        ensures
            r == self.sd_spec(point),
    {
        proof {
            point.lemma_dot_bound(self.normal);
        }
        point.dot(self.normal) + self.height
    }

    pub fn dist_material(&self, point: Vec3) -> (r: (i64, Material))
        requires
            self.wf(),
            point.in_range(),
        ensures
            r.0 == self.sd_spec(point),
            r.1 == self.material,
    {
        (self.signed_distance(point), self.material)
    }
}

} // verus!
