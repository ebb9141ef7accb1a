//! The light model: point lights with inverse-square falloff and shadow
//! tests, directional lights with open-sky occlusion tests, and a flat
//! ambient term.

use vstd::prelude::*;
use crate::fixed::{
    clamp_i, clamp64, div_floor, fdiv, lemma_div_scaled_bound, lemma_mul_abs_bound, max_i, max64,
    COLOR_LIMIT, COORD_LIMIT, LUM_LIMIT, SCALE,
};
use crate::marcher::{spec_visible_direction, spec_visible_point, Fragment, MarchConfig};
use crate::shape::Shape;
use crate::vec3::{vec3_i, Vec3};

verus! {

/// A nonnegative, bounded radiance value.
pub open spec fn is_radiance(v: Vec3) -> bool {
    &&& 0 <= v.x <= LUM_LIMIT
    &&& 0 <= v.y <= LUM_LIMIT
    &&& 0 <= v.z <= LUM_LIMIT
}

/// A color a light may carry: nonnegative, bounded components.
pub open spec fn is_light_color(v: Vec3) -> bool {
    &&& 0 <= v.x <= COLOR_LIMIT
    &&& 0 <= v.y <= COLOR_LIMIT
    &&& 0 <= v.z <= COLOR_LIMIT
}

/// The diffuse term at a fragment:
/// `material.color * light_color * max(0, dot(light_direction, normal))`.
pub open spec fn spec_shade(fragment: Fragment, light_direction: Vec3, light_color: Vec3) -> Vec3 {
    let lum = max_i(light_direction.spec_dot(fragment.normal), 0);
    vec3_i(
        fdiv(fdiv(fragment.material.color.x * light_color.x, SCALE as int) * lum, SCALE as int),
        fdiv(fdiv(fragment.material.color.y * light_color.y, SCALE as int) * lum, SCALE as int),
        fdiv(fdiv(fragment.material.color.z * light_color.z, SCALE as int) * lum, SCALE as int),
    )
}

/// Exec diffuse term; see `spec_shade`.
pub fn shade(fragment: &Fragment, light_direction: Vec3, light_color: Vec3) -> (r: Vec3)
    requires
        fragment.wf(),
        light_direction.is_dir(),
        is_light_color(light_color),
    ensures
        r == spec_shade(*fragment, light_direction, light_color),
        is_radiance(r),
        0 <= r.x <= 0xC_0000_0000_0000,
        0 <= r.y <= 0xC_0000_0000_0000,
        0 <= r.z <= 0xC_0000_0000_0000,
{
    let luminance = max64(light_direction.dot(fragment.normal), 0);
    proof {
        lemma_mul_abs_bound(
            light_direction.x as int,
            fragment.normal.x as int,
            131072,
            131072,
        );
        lemma_mul_abs_bound(
            light_direction.y as int,
            fragment.normal.y as int,
            131072,
            131072,
        );
        lemma_mul_abs_bound(
            light_direction.z as int,
            fragment.normal.z as int,
            131072,
            131072,
        );
        lemma_div_scaled_bound(
            light_direction.x * fragment.normal.x + light_direction.y * fragment.normal.y
                + light_direction.z * fragment.normal.z,
            SCALE as int,
            786432,
        );
        lemma_shade_component(fragment.material.color.x as int, light_color.x as int, luminance as int);
        lemma_shade_component(fragment.material.color.y as int, light_color.y as int, luminance as int);
        lemma_shade_component(fragment.material.color.z as int, light_color.z as int, luminance as int);
    }
    let x = div_floor(div_floor(fragment.material.color.x * light_color.x, SCALE) * luminance, SCALE);
    let y = div_floor(div_floor(fragment.material.color.y * light_color.y, SCALE) * luminance, SCALE);
    let z = div_floor(div_floor(fragment.material.color.z * light_color.z, SCALE) * luminance, SCALE);
    Vec3 { x, y, z }
}

/// Range facts for one component of the diffuse term.
proof fn lemma_shade_component(c: int, lc: int, lum: int)
    requires
        0 <= c <= COLOR_LIMIT,
        0 <= lc <= COLOR_LIMIT,
        0 <= lum <= 786432,
    ensures
        0 <= c * lc <= 0x1_0000_0000_0000,
        0 <= fdiv(c * lc, SCALE as int) <= 0x1_0000_0000,
        0 <= fdiv(c * lc, SCALE as int) * lum <= 0xC_0000_0000_0000_0000int / 0x1_0000int,
        0 <= fdiv(fdiv(c * lc, SCALE as int) * lum, SCALE as int) <= 0xC_0000_0000_0000,
{
    lemma_mul_abs_bound(c, lc, COLOR_LIMIT as int, COLOR_LIMIT as int);
    assert(0 <= c * lc) by (nonlinear_arith)
        requires
            0 <= c,
            0 <= lc,
    ;
    vstd::arithmetic::div_mod::lemma_div_pos_is_pos(c * lc, SCALE as int);
    lemma_div_scaled_bound(c * lc, SCALE as int, 0x1_0000_0000);
    lemma_mul_abs_bound(fdiv(c * lc, SCALE as int), lum, 0x1_0000_0000, 786432);
    assert(0 <= fdiv(c * lc, SCALE as int) * lum) by (nonlinear_arith)
        requires
            0 <= fdiv(c * lc, SCALE as int),
            0 <= lum,
    ;
    vstd::arithmetic::div_mod::lemma_div_pos_is_pos(
        fdiv(c * lc, SCALE as int) * lum,
        SCALE as int,
    );
    lemma_div_scaled_bound(fdiv(c * lc, SCALE as int) * lum, SCALE as int, 0xC_0000_0000_0000);
}

/// Saturating accumulation of two radiance values.
pub open spec fn spec_add_lum(a: Vec3, b: Vec3) -> Vec3 {
    vec3_i(
        clamp_i(a.x + b.x, LUM_LIMIT as int),
        clamp_i(a.y + b.y, LUM_LIMIT as int),
        clamp_i(a.z + b.z, LUM_LIMIT as int),
    )
}

/// Exec saturating accumulation of radiance.
pub fn add_lum(a: Vec3, b: Vec3) -> (r: Vec3)
    requires
        is_radiance(a),
        is_radiance(b),
    ensures
        r == spec_add_lum(a, b),
        is_radiance(r),
{
    Vec3 {
        x: clamp64(a.x + b.x, LUM_LIMIT),
        y: clamp64(a.y + b.y, LUM_LIMIT),
        z: clamp64(a.z + b.z, LUM_LIMIT),
    }
}

/// A light at a position, shining equally in all directions, with
/// inverse-square falloff.
#[derive(Clone, Copy, Debug)]
pub struct PointLight {
    pub color: Vec3,
    pub position: Vec3,
}

impl PointLight {
    pub open spec fn wf(self) -> bool {
        &&& is_light_color(self.color)
        &&& self.position.in_range()
    }

    /// Radiance of this light at the fragment: zero when occluded or when
    /// the fragment sits on the light; otherwise the diffuse term scaled by
    /// `64 / squared_distance` (64 being the scene brightness constant).
    pub open spec fn spec_luminate(self, fragment: Fragment, world: Shape, cfg: MarchConfig) -> Vec3 {
        let delta = vec3_i(
            clamp_i(self.position.x - fragment.position.x, COORD_LIMIT as int),
            clamp_i(self.position.y - fragment.position.y, COORD_LIMIT as int),
            clamp_i(self.position.z - fragment.position.z, COORD_LIMIT as int),
        );
        let light_direction = delta.spec_normalized();
        let probe = fragment.position.spec_add_scaled(light_direction, 2 * cfg.epsilon);
        if !spec_visible_point(world, probe, self.position, cfg) {
            vec3_i(0, 0, 0)
        } else if delta.spec_mag_sq() <= 0 {
            vec3_i(0, 0, 0)
        } else {
            let sh = spec_shade(fragment, light_direction, self.color);
            let msq = delta.spec_mag_sq();
            vec3_i(
                clamp_i(fdiv(sh.x * 64 * SCALE, msq), LUM_LIMIT as int),
                clamp_i(fdiv(sh.y * 64 * SCALE, msq), LUM_LIMIT as int),
                clamp_i(fdiv(sh.z * 64 * SCALE, msq), LUM_LIMIT as int),
            )
        }
    }

    /// Law: a point light whose line of sight to the fragment is blocked
    /// contributes exactly zero radiance.
    pub proof fn lemma_occluded_is_dark(self, fragment: Fragment, world: Shape, cfg: MarchConfig)
        requires
            ({
                let delta = vec3_i(
                    clamp_i(self.position.x - fragment.position.x, COORD_LIMIT as int),
                    clamp_i(self.position.y - fragment.position.y, COORD_LIMIT as int),
                    clamp_i(self.position.z - fragment.position.z, COORD_LIMIT as int),
                );
                let probe = fragment.position.spec_add_scaled(
                    delta.spec_normalized(),
                    2 * cfg.epsilon,
                );
                !spec_visible_point(world, probe, self.position, cfg)
            }),
        ensures
            self.spec_luminate(fragment, world, cfg) == vec3_i(0, 0, 0),
    {
    }

    pub fn luminate(&self, fragment: &Fragment, world: &Shape, cfg: &MarchConfig) -> (r: Vec3)
        requires
            self.wf(),
            fragment.wf(),
            world.wf(),
            cfg.wf(),
        ensures
            r == self.spec_luminate(*fragment, *world, *cfg),
            is_radiance(r),
    {
        let delta = Vec3 {
            x: clamp64(self.position.x - fragment.position.x, COORD_LIMIT),
            y: clamp64(self.position.y - fragment.position.y, COORD_LIMIT),
            z: clamp64(self.position.z - fragment.position.z, COORD_LIMIT),
        };
        let light_direction = delta.normalized();
        let probe = fragment.position.add_scaled(light_direction, 2 * cfg.epsilon);
        if !world.check_visible_point(probe, self.position, cfg) {
            return Vec3::zero();
        }
        let msq = delta.mag_sq();
        if msq == 0 {
            return Vec3::zero();
        }
        let sh = shade(fragment, light_direction, self.color);
        proof {
            vstd::arithmetic::div_mod::lemma_div_pos_is_pos(sh.x * 64 * SCALE, msq as int);
            vstd::arithmetic::div_mod::lemma_div_pos_is_pos(sh.y * 64 * SCALE, msq as int);
            vstd::arithmetic::div_mod::lemma_div_pos_is_pos(sh.z * 64 * SCALE, msq as int);
        }
        Vec3 {
            x: clamp64(div_floor(sh.x * 64 * SCALE, msq), LUM_LIMIT),
            y: clamp64(div_floor(sh.y * 64 * SCALE, msq), LUM_LIMIT),
            z: clamp64(div_floor(sh.z * 64 * SCALE, msq), LUM_LIMIT),
        }
    }
}

/// A light infinitely far away, shining along a fixed direction.
#[derive(Clone, Copy, Debug)]
pub struct DirectionalLight {
    pub color: Vec3,
    pub direction: Vec3,
}

impl DirectionalLight {
    pub open spec fn wf(self) -> bool {
        &&& is_light_color(self.color)
        &&& self.direction.in_range()
    }

    /// Radiance of this light at the fragment: the plain diffuse term when
    /// the sky is visible against the light's direction, zero otherwise.
    pub open spec fn spec_luminate(self, fragment: Fragment, world: Shape, cfg: MarchConfig) -> Vec3 {
        let light_direction = self.direction.spec_neg().spec_normalized();
        let probe = fragment.position.spec_add_scaled(light_direction, 2 * cfg.epsilon);
        if !spec_visible_direction(world, probe, light_direction, cfg) {
            vec3_i(0, 0, 0)
        } else {
            spec_shade(fragment, light_direction, self.color)
        }
    }

    pub fn luminate(&self, fragment: &Fragment, world: &Shape, cfg: &MarchConfig) -> (r: Vec3)
        requires
            self.wf(),
            fragment.wf(),
            world.wf(),
            cfg.wf(),
        ensures
            r == self.spec_luminate(*fragment, *world, *cfg),
            is_radiance(r),
    {
        let light_direction = self.direction.neg().normalized();
        let probe = fragment.position.add_scaled(light_direction, 2 * cfg.epsilon);
        if !world.check_visible_direction(probe, light_direction, cfg) {
            return Vec3::zero();
        }
        shade(fragment, light_direction, self.color)
    }
}

/// An unconditional ambient term, independent of geometry and occlusion.
#[derive(Clone, Copy, Debug)]
pub struct GlobalLight {
    pub color: Vec3,
}

impl GlobalLight {
    pub open spec fn wf(self) -> bool {
        is_light_color(self.color)
    }

    /// Radiance of the ambient term: always the light's own color.
    pub open spec fn spec_luminate(self, fragment: Fragment, world: Shape, cfg: MarchConfig) -> Vec3 {
        self.color
    }

    pub fn luminate(&self, _fragment: &Fragment, _world: &Shape, _cfg: &MarchConfig) -> (r: Vec3)
        requires
            self.wf(),
        ensures
            r == self.color,
            is_radiance(r),
    {
        self.color
    }
}

/// Any of the three light kinds.
#[derive(Clone, Copy, Debug)]
pub enum Light {
    Point(PointLight),
    Directional(DirectionalLight),
    Global(GlobalLight),
}

/// Radiance of one light at a fragment.
pub open spec fn spec_luminate(l: Light, fragment: Fragment, world: Shape, cfg: MarchConfig) -> Vec3 {
    match l {
        Light::Point(p) => p.spec_luminate(fragment, world, cfg),
        Light::Directional(d) => d.spec_luminate(fragment, world, cfg),
        Light::Global(g) => g.spec_luminate(fragment, world, cfg),
    }
}

impl Light {
    pub open spec fn wf(self) -> bool {
        match self {
            Light::Point(p) => p.wf(),
            Light::Directional(d) => d.wf(),
            Light::Global(g) => g.wf(),
        }
    }

    /// Radiance this light contributes at the fragment, with the scene used
    /// for occlusion testing.
    pub fn luminate(&self, fragment: &Fragment, world: &Shape, cfg: &MarchConfig) -> (r: Vec3)
        requires
            self.wf(),
            fragment.wf(),
            world.wf(),
            cfg.wf(),
        ensures
            r == spec_luminate(*self, *fragment, *world, *cfg),
            is_radiance(r),
    {
        match self {
            Light::Point(p) => p.luminate(fragment, world, cfg),
            Light::Directional(d) => d.luminate(fragment, world, cfg),
            Light::Global(g) => g.luminate(fragment, world, cfg),
        }
    }
}

/// The radiance of the first `n` lights, accumulated in order with
/// saturation.
pub open spec fn sum_lights(
    world: Shape,
    lights: Seq<Light>,
    fragment: Fragment,
    cfg: MarchConfig,
    n: nat,
) -> Vec3
    decreases n,
{
    if n == 0 {
        vec3_i(0, 0, 0)
    } else {
        spec_add_lum(
            sum_lights(world, lights, fragment, cfg, (n - 1) as nat),
            spec_luminate(lights[n - 1], fragment, world, cfg),
        )
    }
}

} // verus!
