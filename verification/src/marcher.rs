//! The ray marcher: walks a ray through a distance field until it hits a
//! surface, shades the hit with every light, and recurses for reflections;
//! also the binary visibility queries used for shadows.

use vstd::prelude::*;
use crate::fixed::{
    clamp_i, clamp64, div_floor, fdiv, lemma_div_abs_bound, lemma_mul_abs_bound, COORD_LIMIT,
    LUM_LIMIT, SCALE, SD_LIMIT,
};
use crate::light::{is_radiance, spec_luminate, sum_lights, Light};
use crate::material::Material;
use crate::shape::Shape;
use crate::vec3::{vec3_i, Vec3};

verus! {

/// The marcher's tunable constants.
#[derive(Clone, Copy, Debug, PartialEq, Eq, Structural)]
pub struct MarchConfig {
    /// Surface/visibility threshold: a distance below this counts as a hit.
    pub epsilon: i64,
    /// Far plane: a distance beyond this counts as a miss.
    pub max_distance: i64,
    /// Step budget for one ray.
    pub max_iterations: u32,
    /// Reflection recursion depth budget.
    pub max_bounces: u32,
}

impl MarchConfig {
    pub open spec fn wf(self) -> bool {
        &&& 1 <= self.epsilon <= SCALE
        &&& self.epsilon < self.max_distance <= SD_LIMIT
        &&& 1 <= self.max_iterations <= 4096
        &&& self.max_bounces <= 64
    }
}

impl Default for MarchConfig {
    /// The default tuning: epsilon about 0.001, far plane 256.0, 64 steps,
    /// 4 bounces.
    fn default() -> (r: MarchConfig)
        ensures
            r == (MarchConfig {
                epsilon: 66,
                max_distance: 16777216,
                max_iterations: 64,
                max_bounces: 4,
            }),
            r.wf(),
    {
        MarchConfig { epsilon: 66, max_distance: 16777216, max_iterations: 64, max_bounces: 4 }
    }
}

/// A surface sample produced at a ray-surface hit.
#[derive(Clone, Copy, Debug)]
pub struct Fragment {
    pub position: Vec3,
    pub normal: Vec3,
    pub material: Material,
}

impl Fragment {
    pub open spec fn wf(self) -> bool {
        &&& self.position.in_range()
        &&& self.normal.is_dir()
        &&& self.material.wf()
    }
}

/// One marching walk: from `position` along `dir`, stepping by the reported
/// distance, until a hit (distance below epsilon), a miss (distance beyond
/// the far plane), or an exhausted step budget.  Returns the hit position
/// and its material, or `None` on a miss.
pub open spec fn march_hit(
    s: Shape,
    position: Vec3,
    dir: Vec3,
    cfg: MarchConfig,
    fuel: nat,
) -> Option<(Vec3, Material)>
    decreases fuel,
{
    if fuel == 0 {
        None
    } else {
        let dm = s.dm(position);
        if dm.0 < cfg.epsilon {
            Some((position, dm.1))
        } else if dm.0 > cfg.max_distance {
            None
        } else {
            march_hit(s, position.spec_add_scaled(dir, dm.0), dir, cfg, (fuel - 1) as nat)
        }
    }
}

/// The central-difference surface normal: the field is probed one epsilon
/// along each axis, the probe distances minus the query point are rescaled
/// by epsilon, and the result is normalized.
pub open spec fn spec_normal(s: Shape, point: Vec3, cfg: MarchConfig) -> Vec3 {
    let dx = s.sd(point.spec_add_scaled(vec3_i(SCALE as int, 0, 0), cfg.epsilon as int));
    let dy = s.sd(point.spec_add_scaled(vec3_i(0, SCALE as int, 0), cfg.epsilon as int));
    let dz = s.sd(point.spec_add_scaled(vec3_i(0, 0, SCALE as int), cfg.epsilon as int));
    let g = vec3_i(
        clamp_i(fdiv((dx - point.x) * SCALE, cfg.epsilon as int), COORD_LIMIT as int),
        clamp_i(fdiv((dy - point.y) * SCALE, cfg.epsilon as int), COORD_LIMIT as int),
        clamp_i(fdiv((dz - point.z) * SCALE, cfg.epsilon as int), COORD_LIMIT as int),
    );
    g.spec_normalized()
}

/// The state of the point-visibility walk: blocked as soon as the field
/// drops below epsilon, visible once the accumulated marched distance
/// reaches the distance to the target, blocked when the budget runs out.
pub open spec fn visible_point_from(
    s: Shape,
    position: Vec3,
    dir: Vec3,
    total: int,
    travelled: int,
    cfg: MarchConfig,
    fuel: nat,
) -> bool
    decreases fuel,
{
    if fuel == 0 {
        false
    } else {
        let d = s.sd(position);
        if d < cfg.epsilon {
            false
        } else if travelled + d >= total {
            true
        } else {
            visible_point_from(
                s,
                position.spec_add_scaled(dir, d),
                dir,
                total,
                travelled + d,
                cfg,
                (fuel - 1) as nat,
            )
        }
    }
}

/// Whether `target` is visible from `origin`: the walk starts at `origin`
/// toward `target` and must march the full distance between them without
/// coming within epsilon of any surface.
pub open spec fn spec_visible_point(s: Shape, origin: Vec3, target: Vec3, cfg: MarchConfig) -> bool {
    let delta = vec3_i(
        clamp_i(target.x - origin.x, COORD_LIMIT as int),
        clamp_i(target.y - origin.y, COORD_LIMIT as int),
        clamp_i(target.z - origin.z, COORD_LIMIT as int),
    );
    visible_point_from(
        s,
        origin,
        delta.spec_normalized(),
        delta.spec_mag(),
        0,
        cfg,
        cfg.max_iterations as nat,
    )
}

/// The state of the direction-visibility walk: blocked below epsilon,
/// visible beyond the far plane, and visible by default when the budget
/// runs out (the open-sky assumption).
pub open spec fn visible_dir_from(
    s: Shape,
    position: Vec3,
    dir: Vec3,
    cfg: MarchConfig,
    fuel: nat,
) -> bool
    decreases fuel,
{
    if fuel == 0 {
        true
    } else {
        let d = s.sd(position);
        if d < cfg.epsilon {
            false
        } else if d > cfg.max_distance {
            true
        } else {
            visible_dir_from(s, position.spec_add_scaled(dir, d), dir, cfg, (fuel - 1) as nat)
        }
    }
}

/// Whether the open sky is visible from `origin` along `direction`.
pub open spec fn spec_visible_direction(
    s: Shape,
    origin: Vec3,
    direction: Vec3,
    cfg: MarchConfig,
) -> bool {
    visible_dir_from(s, origin, direction, cfg, cfg.max_iterations as nat)
}

/// The color of one ray: black past the bounce budget; otherwise march the
/// ray, and on a hit sum every light's radiance and blend in the reflected
/// ray's color by the material's reflectivity.
pub open spec fn spec_ray_color(
    s: Shape,
    lights: Seq<Light>,
    origin: Vec3,
    dir: Vec3,
    depth: int,
    cfg: MarchConfig,
) -> Vec3
    decreases cfg.max_bounces + 1 - depth,
{
    if depth > cfg.max_bounces {
        vec3_i(0, 0, 0)
    } else {
        match march_hit(s, origin, dir, cfg, cfg.max_iterations as nat) {
            Option::None => vec3_i(0, 0, 0),
            Option::Some(hit) => {
                let frag = Fragment {
                    position: hit.0,
                    normal: spec_normal(s, hit.0, cfg),
                    material: hit.1,
                };
                let direct = sum_lights(s, lights, frag, cfg, lights.len());
                if hit.1.reflective > 0 {
                    let rdir = dir.spec_neg().spec_reflected(frag.normal);
                    let rorigin = hit.0.spec_add_scaled(rdir, 2 * cfg.epsilon);
                    let refl = spec_ray_color(s, lights, rorigin, rdir, depth + 1, cfg);
                    direct.spec_mix(refl, hit.1.reflective as int)
                } else {
                    direct
                }
            },
        }
    }
}

/// Two fields that agree on every distance-and-material query agree on
/// every marching walk.
proof fn lemma_march_hit_congruent(
    s1: Shape,
    s2: Shape,
    position: Vec3,
    dir: Vec3,
    cfg: MarchConfig,
    fuel: nat,
)
    requires
        position.in_range(),
        forall|p: Vec3| p.in_range() ==> (#[trigger] s1.dm(p)) == s2.dm(p),
    ensures
        march_hit(s1, position, dir, cfg, fuel) == march_hit(s2, position, dir, cfg, fuel),
    decreases fuel,
{
    if fuel > 0 {
        let dm = s1.dm(position);
        if dm.0 >= cfg.epsilon && dm.0 <= cfg.max_distance {
            lemma_march_hit_congruent(
                s1,
                s2,
                position.spec_add_scaled(dir, dm.0),
                dir,
                cfg,
                (fuel - 1) as nat,
            );
        }
    }
}

/// Two fields that agree on every distance query agree on every
/// point-visibility walk.
proof fn lemma_visible_point_congruent(
    s1: Shape,
    s2: Shape,
    position: Vec3,
    dir: Vec3,
    total: int,
    travelled: int,
    cfg: MarchConfig,
    fuel: nat,
)
    requires
        position.in_range(),
        forall|p: Vec3| p.in_range() ==> (#[trigger] s1.sd(p)) == s2.sd(p),
    ensures
        visible_point_from(s1, position, dir, total, travelled, cfg, fuel) == visible_point_from(
            s2,
            position,
            dir,
            total,
            travelled,
            cfg,
            fuel,
        ),
    decreases fuel,
{
    if fuel > 0 {
        let d = s1.sd(position);
        if d >= cfg.epsilon && travelled + d < total {
            lemma_visible_point_congruent(
                s1,
                s2,
                position.spec_add_scaled(dir, d),
                dir,
                total,
                travelled + d,
                cfg,
                (fuel - 1) as nat,
            );
        }
    }
}

/// Two fields that agree on every distance query agree on every
/// direction-visibility walk.
proof fn lemma_visible_dir_congruent(
    s1: Shape,
    s2: Shape,
    position: Vec3,
    dir: Vec3,
    cfg: MarchConfig,
    fuel: nat,
)
    requires
        position.in_range(),
        forall|p: Vec3| p.in_range() ==> (#[trigger] s1.sd(p)) == s2.sd(p),
    ensures
        visible_dir_from(s1, position, dir, cfg, fuel) == visible_dir_from(
            s2,
            position,
            dir,
            cfg,
            fuel,
        ),
    decreases fuel,
{
    if fuel > 0 {
        let d = s1.sd(position);
        if d >= cfg.epsilon && d <= cfg.max_distance {
            lemma_visible_dir_congruent(
                s1,
                s2,
                position.spec_add_scaled(dir, d),
                dir,
                cfg,
                (fuel - 1) as nat,
            );
        }
    }
}

/// Two fields that agree on every distance query give every light the same
/// radiance at every fragment.
proof fn lemma_luminate_congruent(
    l: Light,
    fragment: Fragment,
    s1: Shape,
    s2: Shape,
    cfg: MarchConfig,
)
    requires
        forall|p: Vec3| p.in_range() ==> (#[trigger] s1.sd(p)) == s2.sd(p),
    ensures
        spec_luminate(l, fragment, s1, cfg) == spec_luminate(l, fragment, s2, cfg),
{
    match l {
        Light::Point(pl) => {
            let delta = vec3_i(
                clamp_i(pl.position.x - fragment.position.x, COORD_LIMIT as int),
                clamp_i(pl.position.y - fragment.position.y, COORD_LIMIT as int),
                clamp_i(pl.position.z - fragment.position.z, COORD_LIMIT as int),
            );
            let probe = fragment.position.spec_add_scaled(
                delta.spec_normalized(),
                2 * cfg.epsilon,
            );
            let delta2 = vec3_i(
                clamp_i(pl.position.x - probe.x, COORD_LIMIT as int),
                clamp_i(pl.position.y - probe.y, COORD_LIMIT as int),
                clamp_i(pl.position.z - probe.z, COORD_LIMIT as int),
            );
            lemma_visible_point_congruent(
                s1,
                s2,
                probe,
                delta2.spec_normalized(),
                delta2.spec_mag(),
                0,
                cfg,
                cfg.max_iterations as nat,
            );
        },
        Light::Directional(dl) => {
            let ldir = dl.direction.spec_neg().spec_normalized();
            let probe = fragment.position.spec_add_scaled(ldir, 2 * cfg.epsilon);
            lemma_visible_dir_congruent(s1, s2, probe, ldir, cfg, cfg.max_iterations as nat);
        },
        Light::Global(_) => {},
    }
}

/// Two fields that agree on every distance query give the same accumulated
/// radiance over any list of lights.
proof fn lemma_sum_lights_congruent(
    s1: Shape,
    s2: Shape,
    lights: Seq<Light>,
    fragment: Fragment,
    cfg: MarchConfig,
    n: nat,
)
    requires
        forall|p: Vec3| p.in_range() ==> (#[trigger] s1.sd(p)) == s2.sd(p),
    ensures
        sum_lights(s1, lights, fragment, cfg, n) == sum_lights(s2, lights, fragment, cfg, n),
    decreases n,
{
    if n > 0 {
        lemma_sum_lights_congruent(s1, s2, lights, fragment, cfg, (n - 1) as nat);
        lemma_luminate_congruent(lights[n - 1], fragment, s1, s2, cfg);
    }
}

/// Law: the marcher reads the scene only through its two queries.  Two
/// shapes whose signed-distance and distance-and-material queries agree at
/// every point produce the same color for every ray, every light list and
/// every recursion depth.
pub proof fn lemma_color_depends_only_on_queries(
    s1: Shape,
    s2: Shape,
    lights: Seq<Light>,
    origin: Vec3,
    dir: Vec3,
    depth: int,
    cfg: MarchConfig,
)
    requires
        origin.in_range(),
        forall|p: Vec3| p.in_range() ==> (#[trigger] s1.sd(p)) == s2.sd(p),
        forall|p: Vec3| p.in_range() ==> (#[trigger] s1.dm(p)) == s2.dm(p),
    ensures
        spec_ray_color(s1, lights, origin, dir, depth, cfg) == spec_ray_color(
            s2,
            lights,
            origin,
            dir,
            depth,
            cfg,
        ),
    decreases cfg.max_bounces + 1 - depth,
{
    if depth <= cfg.max_bounces {
        lemma_march_hit_congruent(s1, s2, origin, dir, cfg, cfg.max_iterations as nat);
        match march_hit(s1, origin, dir, cfg, cfg.max_iterations as nat) {
            Option::None => {},
            Option::Some(hit) => {
                assert(spec_normal(s1, hit.0, cfg) == spec_normal(s2, hit.0, cfg));
                let frag = Fragment {
                    position: hit.0,
                    normal: spec_normal(s1, hit.0, cfg),
                    material: hit.1,
                };
                lemma_sum_lights_congruent(s1, s2, lights, frag, cfg, lights.len());
                if hit.1.reflective > 0 {
                    let rdir = dir.spec_neg().spec_reflected(frag.normal);
                    let rorigin = hit.0.spec_add_scaled(rdir, 2 * cfg.epsilon);
                    lemma_color_depends_only_on_queries(
                        s1,
                        s2,
                        lights,
                        rorigin,
                        rdir,
                        depth + 1,
                        cfg,
                    );
                }
            },
        }
    }
}

/// Law: a ray that already sees past the far plane at its origin (it points
/// away from everything) is a miss and yields exactly black.
pub proof fn lemma_miss_is_black(
    s: Shape,
    lights: Seq<Light>,
    origin: Vec3,
    dir: Vec3,
    depth: int,
    cfg: MarchConfig,
)
    requires
        cfg.wf(),
        s.dm(origin).0 > cfg.max_distance,
    ensures
        spec_ray_color(s, lights, origin, dir, depth, cfg) == vec3_i(0, 0, 0),
{
    if depth <= cfg.max_bounces {
        assert(march_hit(s, origin, dir, cfg, cfg.max_iterations as nat) is None);
    }
}

/// Law: past the bounce budget the marcher returns pure black, whatever the
/// geometry and lights.
pub proof fn lemma_bounce_budget_black(
    s: Shape,
    lights: Seq<Light>,
    origin: Vec3,
    dir: Vec3,
    depth: int,
    cfg: MarchConfig,
)
    requires
        depth > cfg.max_bounces,
    ensures
        spec_ray_color(s, lights, origin, dir, depth, cfg) == vec3_i(0, 0, 0),
{
}

/// Law: a hit on a fully reflective surface reproduces exactly the color of
/// the reflected ray marched one bounce deeper: the direct lighting is
/// blended away entirely.
pub proof fn lemma_full_mirror(
    s: Shape,
    lights: Seq<Light>,
    origin: Vec3,
    dir: Vec3,
    depth: int,
    cfg: MarchConfig,
)
    requires
        cfg.wf(),
        0 <= depth <= cfg.max_bounces,
        march_hit(s, origin, dir, cfg, cfg.max_iterations as nat) is Some,
        march_hit(s, origin, dir, cfg, cfg.max_iterations as nat)->Some_0.1.reflective == SCALE,
    ensures
        ({
            let hit = march_hit(s, origin, dir, cfg, cfg.max_iterations as nat)->Some_0;
            let rdir = dir.spec_neg().spec_reflected(spec_normal(s, hit.0, cfg));
            spec_ray_color(s, lights, origin, dir, depth, cfg) == spec_ray_color(
                s,
                lights,
                hit.0.spec_add_scaled(rdir, 2 * cfg.epsilon),
                rdir,
                depth + 1,
                cfg,
            )
        }),
{
    let hit = march_hit(s, origin, dir, cfg, cfg.max_iterations as nat)->Some_0;
    let frag = Fragment { position: hit.0, normal: spec_normal(s, hit.0, cfg), material: hit.1 };
    let direct = sum_lights(s, lights, frag, cfg, lights.len());
    let rdir = dir.spec_neg().spec_reflected(frag.normal);
    let refl = spec_ray_color(s, lights, hit.0.spec_add_scaled(rdir, 2 * cfg.epsilon), rdir, depth + 1, cfg);
    vstd::arithmetic::div_mod::lemma_div_multiples_vanish(refl.x as int, SCALE as int);
    vstd::arithmetic::div_mod::lemma_div_multiples_vanish(refl.y as int, SCALE as int);
    vstd::arithmetic::div_mod::lemma_div_multiples_vanish(refl.z as int, SCALE as int);
    assert(refl.x * SCALE + direct.x * (SCALE - SCALE) == SCALE * (refl.x as int));
    assert(refl.y * SCALE + direct.y * (SCALE - SCALE) == SCALE * (refl.y as int));
    assert(refl.z * SCALE + direct.z * (SCALE - SCALE) == SCALE * (refl.z as int));
    assert(direct.spec_mix(refl, SCALE as int) == refl);
}

impl Shape {
    /// Normal vector of the surface near `point`, estimated from three
    /// probes of the field.
    pub fn normal(&self, point: Vec3, cfg: &MarchConfig) -> (r: Vec3)
        requires
            self.wf(),
            point.in_range(),
            cfg.wf(),
        ensures
            r == spec_normal(*self, point, *cfg),
            r.is_dir(),
    {
        let px = point.add_scaled(Vec3 { x: SCALE, y: 0, z: 0 }, cfg.epsilon);
        let py = point.add_scaled(Vec3 { x: 0, y: SCALE, z: 0 }, cfg.epsilon);
        let pz = point.add_scaled(Vec3 { x: 0, y: 0, z: SCALE }, cfg.epsilon);
        let dx = self.signed_distance(px);
        let dy = self.signed_distance(py);
        let dz = self.signed_distance(pz);
        proof {
            self.lemma_sd_bound(px);
            self.lemma_sd_bound(py);
            self.lemma_sd_bound(pz);
            lemma_mul_abs_bound(dx - point.x, SCALE as int, SD_LIMIT + COORD_LIMIT, SCALE as int);
            lemma_mul_abs_bound(dy - point.y, SCALE as int, SD_LIMIT + COORD_LIMIT, SCALE as int);
            lemma_mul_abs_bound(dz - point.z, SCALE as int, SD_LIMIT + COORD_LIMIT, SCALE as int);
            lemma_div_abs_bound((dx - point.x) * SCALE, cfg.epsilon as int, 0x4000_0000_0000_0000);
            lemma_div_abs_bound((dy - point.y) * SCALE, cfg.epsilon as int, 0x4000_0000_0000_0000);
            lemma_div_abs_bound((dz - point.z) * SCALE, cfg.epsilon as int, 0x4000_0000_0000_0000);
        }
        let g = Vec3 {
            x: clamp64(div_floor((dx - point.x) * SCALE, cfg.epsilon), COORD_LIMIT),
            y: clamp64(div_floor((dy - point.y) * SCALE, cfg.epsilon), COORD_LIMIT),
            z: clamp64(div_floor((dz - point.z) * SCALE, cfg.epsilon), COORD_LIMIT),
        };
        g.normalized()
    }

    /// Whether two points can see each other through the field.
    pub fn check_visible_point(&self, origin: Vec3, target: Vec3, cfg: &MarchConfig) -> (r: bool)
        requires
            self.wf(),
            origin.in_range(),
            target.in_range(),
            cfg.wf(),
        ensures
            r == spec_visible_point(*self, origin, target, *cfg),
    {
        let delta = Vec3 {
            x: clamp64(target.x - origin.x, COORD_LIMIT),
            y: clamp64(target.y - origin.y, COORD_LIMIT),
            z: clamp64(target.z - origin.z, COORD_LIMIT),
        };
        let direction = delta.normalized();
        let total = delta.mag();
        let mut position = origin;
        let mut travelled: i64 = 0;
        let mut i: u32 = 0;
        while i < cfg.max_iterations
            invariant
                self.wf(),
                cfg.wf(),
                position.in_range(),
                direction.is_dir(),
                i <= cfg.max_iterations,
                0 <= travelled <= i as int * SD_LIMIT,
                0 <= total <= 0x1_0000_0000,
                visible_point_from(
                    *self,
                    position,
                    direction,
                    total as int,
                    travelled as int,
                    *cfg,
                    (cfg.max_iterations - i) as nat,
                ) == spec_visible_point(*self, origin, target, *cfg),
            decreases cfg.max_iterations - i,
        {
            let d = self.signed_distance(position);
            proof {
                self.lemma_sd_bound(position);
                lemma_mul_abs_bound(i as int + 1, SD_LIMIT as int, 4096, SD_LIMIT as int);
                assert((i as int + 1) * SD_LIMIT == i as int * SD_LIMIT + SD_LIMIT)
                    by (nonlinear_arith);
            }
            if d < cfg.epsilon {
                return false;
            }
            travelled = travelled + d;
            if travelled >= total {
                return true;
            }
            position = position.add_scaled(direction, d);
            i = i + 1;
        }
        false
    }

    /// Whether the open sky is visible from `origin` along `direction`.
    pub fn check_visible_direction(
        &self,
        origin: Vec3,
        direction: Vec3,
        cfg: &MarchConfig,
    ) -> (r: bool)
        requires
            self.wf(),
            origin.in_range(),
            direction.is_dir(),
            cfg.wf(),
        ensures
            r == spec_visible_direction(*self, origin, direction, *cfg),
    {
        let mut position = origin;
        let mut i: u32 = 0;
        while i < cfg.max_iterations
            invariant
                self.wf(),
                cfg.wf(),
                position.in_range(),
                direction.is_dir(),
                i <= cfg.max_iterations,
                visible_dir_from(
                    *self,
                    position,
                    direction,
                    *cfg,
                    (cfg.max_iterations - i) as nat,
                ) == spec_visible_direction(*self, origin, direction, *cfg),
            decreases cfg.max_iterations - i,
        {
            let d = self.signed_distance(position);
            proof {
                self.lemma_sd_bound(position);
            }
            if d < cfg.epsilon {
                return false;
            }
            if d > cfg.max_distance {
                return true;
            }
            position = position.add_scaled(direction, d);
            i = i + 1;
        }
        true
    }

    /// Marches one ray and returns its color: the sum of every light's
    /// radiance at the hit, blended with the recursively marched reflection
    /// when the material is reflective; black on a miss, an exhausted step
    /// budget, or past the bounce budget.
    pub fn ray_march(
        &self,
        origin: Vec3,
        direction: Vec3,
        lights: &Vec<Light>,
        depth: u32,
        cfg: &MarchConfig,
    ) -> (r: Vec3)
        requires
            self.wf(),
            origin.in_range(),
            direction.is_dir(),
            cfg.wf(),
            forall|i: int| 0 <= i < lights@.len() ==> (#[trigger] lights@[i]).wf(),
        ensures
            r == spec_ray_color(*self, lights@, origin, direction, depth as int, *cfg),
            is_radiance(r),
        decreases cfg.max_bounces + 1 - depth,
    {
        if depth > cfg.max_bounces {
            return Vec3::zero();
        }
        let mut position = origin;
        let mut i: u32 = 0;
        while i < cfg.max_iterations
            invariant
                self.wf(),
                cfg.wf(),
                position.in_range(),
                direction.is_dir(),
                depth <= cfg.max_bounces,
                i <= cfg.max_iterations,
                forall|j: int| 0 <= j < lights@.len() ==> (#[trigger] lights@[j]).wf(),
                march_hit(*self, position, direction, *cfg, (cfg.max_iterations - i) as nat)
                    == march_hit(*self, origin, direction, *cfg, cfg.max_iterations as nat),
            decreases cfg.max_iterations - i,
        {
            let (distance, material) = self.dist_material(position);
            proof {
                self.lemma_sd_bound(position);
            }
            if distance < cfg.epsilon {
                let normal = self.normal(position, cfg);
                let fragment = Fragment { position: position, normal: normal, material: material };
                let mut result = Vec3::zero();
                let mut j: usize = 0;
                while j < lights.len()
                    invariant
                        self.wf(),
                        cfg.wf(),
                        fragment.wf(),
                        j <= lights@.len(),
                        forall|m: int| 0 <= m < lights@.len() ==> (#[trigger] lights@[m]).wf(),
                        is_radiance(result),
                        result == sum_lights(*self, lights@, fragment, *cfg, j as nat),
                    decreases lights@.len() - j,
                {
                    let lum = lights[j].luminate(&fragment, self, cfg);
                    result = crate::light::add_lum(result, lum);
                    j = j + 1;
                }
                if material.reflective > 0 {
                    let rdir = direction.neg().reflected(normal);
                    let rorigin = position.add_scaled(rdir, 2 * cfg.epsilon);
                    let refl = self.ray_march(rorigin, rdir, lights, depth + 1, cfg);
                    proof {
                        crate::fixed::lemma_mix_bounds(
                            result.x as int,
                            refl.x as int,
                            material.reflective as int,
                            0,
                            LUM_LIMIT as int,
                        );
                        crate::fixed::lemma_mix_bounds(
                            result.y as int,
                            refl.y as int,
                            material.reflective as int,
                            0,
                            LUM_LIMIT as int,
                        );
                        crate::fixed::lemma_mix_bounds(
                            result.z as int,
                            refl.z as int,
                            material.reflective as int,
                            0,
                            LUM_LIMIT as int,
                        );
                    }
                    result = result.mix(refl, material.reflective);
                }
                return result;
            }
            if distance > cfg.max_distance {
                return Vec3::zero();
            }
            position = position.add_scaled(direction, distance);
            i = i + 1;
        }
        Vec3::zero()
    }
}

} // verus!
