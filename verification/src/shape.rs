//! The scene graph: a closed tree of primitives and combinators, with the
//! recursive signed-distance and distance-and-material queries.

use vstd::prelude::*;
use crate::combinators::{
    seq_min_dm, seq_min_sd, smooth_dm_sd, smooth_sd, smooth_weight, MultiUnion, SmoothUnion,
    Transform, Union,
};
use crate::fixed::{abs_i, clamp_i, fdiv, min_i, COORD_LIMIT, SCALE, SD_LIMIT};
use crate::light::Light;
use crate::marcher::{spec_ray_color, MarchConfig};
use crate::material::Material;
use crate::primitives::{Cuboid, Plane, Sphere, Torus};
use crate::vec3::{vec3_i, Vec3};

verus! {

/// A distance-field node: a leaf primitive or a combinator over children.
pub enum Shape {
    Sphere(Sphere),
    Cuboid(Cuboid),
    Torus(Torus),
    Plane(Plane),
    Union(Union),
    MultiUnion(MultiUnion),
    SmoothUnion(SmoothUnion),
    Transform(Transform),
}

impl Shape {
    /// Every node of the tree is well formed: materials and geometric
    /// parameters are in range, smoothing widths are positive, N-ary unions
    /// are non-empty.
    pub open spec fn wf(self) -> bool
        decreases self,
    {
        match self {
            Shape::Sphere(s) => s.wf(),
            Shape::Cuboid(c) => c.wf(),
            Shape::Torus(t) => t.wf(),
            Shape::Plane(p) => p.wf(),
            Shape::Union(u) => u.object_a.wf() && u.object_b.wf(),
            Shape::MultiUnion(m) => m.children_wf(),
            Shape::SmoothUnion(su) => su.object_a.wf() && su.object_b.wf() && su.k_wf(),
            Shape::Transform(t) => t.object.wf() && t.transform.wf(),
        }
    }

    /// The signed distance this node reports at `point`.
    pub open spec fn sd(self, point: Vec3) -> int
        decreases self,
    {
        match self {
            Shape::Sphere(s) => s.sd_spec(point),
            Shape::Cuboid(c) => c.sd_spec(point),
            Shape::Torus(t) => t.sd_spec(point),
            Shape::Plane(p) => p.sd_spec(point),
            Shape::Union(u) => min_i(u.object_a.sd(point), u.object_b.sd(point)),
            Shape::MultiUnion(m) => seq_min_sd(m.objects@, point),
            Shape::SmoothUnion(su) => smooth_sd(
                su.object_a.sd(point),
                su.object_b.sd(point),
                su.smoothness as int,
            ),
            Shape::Transform(t) => clamp_i(
                fdiv(t.transform.scale * t.object.sd(t.transform.spec_map(point)), SCALE as int),
                SD_LIMIT as int,
            ),
        }
    }

    /// The signed distance together with the material owning the nearest
    /// surface.  For the smooth union the distance carries one more blend
    /// factor than `sd`, as the renderer does.
    pub open spec fn dm(self, point: Vec3) -> (int, Material)
        decreases self,
    {
        match self {
            Shape::Sphere(s) => (s.sd_spec(point), s.material),
            Shape::Cuboid(c) => (c.sd_spec(point), c.material),
            Shape::Torus(t) => (t.sd_spec(point), t.material),
            Shape::Plane(p) => (p.sd_spec(point), p.material),
            Shape::Union(u) => {
                let a = u.object_a.dm(point);
                let b = u.object_b.dm(point);
                if a.0 <= b.0 {
                    (min_i(a.0, b.0), a.1)
                } else {
                    (min_i(a.0, b.0), b.1)
                }
            },
            Shape::MultiUnion(m) => seq_min_dm(m.objects@, point),
            Shape::SmoothUnion(su) => {
                let a = su.object_a.dm(point);
                let b = su.object_b.dm(point);
                (
                    smooth_dm_sd(a.0, b.0, su.smoothness as int),
                    b.1.spec_mix(a.1, smooth_weight(a.0, b.0, su.smoothness as int)),
                )
            },
            Shape::Transform(t) => {
                let inner = t.object.dm(t.transform.spec_map(point));
                (
                    clamp_i(fdiv(t.transform.scale * inner.0, SCALE as int), SD_LIMIT as int),
                    inner.1,
                )
            },
        }
    }

    /// Distances of a well-formed tree are saturated to the signed-distance
    /// range, and reported materials are well formed.
    pub proof fn lemma_sd_bound(self, point: Vec3)
        requires
            self.wf(),
            point.in_range(),
        ensures
            -SD_LIMIT <= self.sd(point) <= SD_LIMIT,
            -SD_LIMIT <= self.dm(point).0 <= SD_LIMIT,
            self.dm(point).1.wf(),
        decreases self,
    {
        match self {
            Shape::Sphere(s) => s.lemma_sd_bound(point),
            Shape::Cuboid(c) => c.lemma_sd_bound(point),
            Shape::Torus(t) => t.lemma_sd_bound(point),
            Shape::Plane(p) => p.lemma_sd_bound(point),
            Shape::Union(u) => {
                u.object_a.lemma_sd_bound(point);
                u.object_b.lemma_sd_bound(point);
            },
            Shape::MultiUnion(m) => {
                assert(m.children_wf());
                assert(forall|i: int|
                    0 <= i < m.objects@.len() ==> (#[trigger] m.objects@[i]).wf());
                lemma_seq_min_bound(m.objects@, point);
            },
            Shape::SmoothUnion(su) => {
                su.object_a.lemma_sd_bound(point);
                su.object_b.lemma_sd_bound(point);
                su.object_b.dm(point).1.lemma_spec_mix_wf(
                    su.object_a.dm(point).1,
                    smooth_weight(
                        su.object_a.dm(point).0,
                        su.object_b.dm(point).0,
                        su.smoothness as int,
                    ),
                );
            },
            Shape::Transform(t) => {
                t.object.lemma_sd_bound(t.transform.spec_map(point));
            },
        }
    }

    /// Exec dispatch of the signed-distance query.
    pub fn signed_distance(&self, point: Vec3) -> (r: i64)
        requires
            self.wf(),
            point.in_range(),
        ensures
            r == self.sd(point),
        decreases *self,
    {
        match self {
            Shape::Sphere(s) => s.signed_distance(point),
            Shape::Cuboid(c) => c.signed_distance(point),
            Shape::Torus(t) => t.signed_distance(point),
            Shape::Plane(p) => p.signed_distance(point),
            Shape::Union(u) => u.signed_distance(point),
            Shape::MultiUnion(m) => m.signed_distance(point),
            Shape::SmoothUnion(su) => su.signed_distance(point),
            Shape::Transform(t) => t.signed_distance(point),
        }
    }

    /// Exec dispatch of the distance-and-material query.
    pub fn dist_material(&self, point: Vec3) -> (r: (i64, Material))
        requires
            self.wf(),
            point.in_range(),
        ensures
            r.0 == self.dm(point).0,
            r.1 == self.dm(point).1,
        decreases *self,
    {
        match self {
            Shape::Sphere(s) => s.dist_material(point),
            Shape::Cuboid(c) => c.dist_material(point),
            Shape::Torus(t) => t.dist_material(point),
            Shape::Plane(p) => p.dist_material(point),
            Shape::Union(u) => u.dist_material(point),
            Shape::MultiUnion(m) => m.dist_material(point),
            Shape::SmoothUnion(su) => su.dist_material(point),
            Shape::Transform(t) => t.dist_material(point),
        }
    }
}

/// Law: a union's distance is exactly the minimum of its children's
/// distances.
pub proof fn lemma_union_distance_is_min(u: Union, point: Vec3)
    requires
        u.object_a.wf(),
        u.object_b.wf(),
        point.in_range(),
    ensures
        Shape::Union(u).sd(point) == min_i(u.object_a.sd(point), u.object_b.sd(point)),
        Shape::Union(u).sd(point) <= u.object_a.sd(point),
        Shape::Union(u).sd(point) <= u.object_b.sd(point),
        Shape::Union(u).sd(point) == u.object_a.sd(point) || Shape::Union(u).sd(point)
            == u.object_b.sd(point),
{
}

/// Law: a smooth union's distance is within the smoothing width of the hard
/// union of the same children, so it converges to the hard union as the
/// width shrinks toward zero.
pub proof fn lemma_smooth_union_converges(su: SmoothUnion, point: Vec3)
    requires
        su.object_a.wf(),
        su.object_b.wf(),
        su.k_wf(),
        point.in_range(),
    ensures
        abs_i(
            Shape::SmoothUnion(su).sd(point) - min_i(
                su.object_a.sd(point),
                su.object_b.sd(point),
            ),
        ) <= su.smoothness,
{
    su.object_a.lemma_sd_bound(point);
    su.object_b.lemma_sd_bound(point);
    crate::combinators::lemma_smooth_sd_close_to_min(
        su.object_a.sd(point),
        su.object_b.sd(point),
        su.smoothness as int,
    );
}

/// Law: a transform with unit scale (a rigid motion) reports exactly the
/// child's distance at the inverse-mapped query point: querying the
/// transformed shape at `point` is querying the plain shape at the
/// mapped-back point.
pub proof fn lemma_transform_round_trip(t: Transform, point: Vec3)
    requires
        t.object.wf(),
        t.transform.wf(),
        point.in_range(),
        t.transform.scale == SCALE,
    ensures
        Shape::Transform(t).sd(point) == t.object.sd(t.transform.spec_map(point)),
        Shape::Transform(t).dm(point).0 == t.object.dm(t.transform.spec_map(point)).0,
        Shape::Transform(t).dm(point).1 == t.object.dm(t.transform.spec_map(point)).1,
{
    let mapped = t.transform.spec_map(point);
    t.object.lemma_sd_bound(mapped);
    vstd::arithmetic::div_mod::lemma_div_multiples_vanish(t.object.sd(mapped), SCALE as int);
    vstd::arithmetic::div_mod::lemma_div_multiples_vanish(t.object.dm(mapped).0, SCALE as int);
}

/// Law: wrapping a shape in a transform whose similarity is the identity
/// changes neither query at any reachable point, and therefore changes no
/// marched color: composing with the identity is invisible to the
/// renderer.
pub proof fn lemma_identity_transform_march(
    t: Transform,
    lights: Seq<Light>,
    origin: Vec3,
    dir: Vec3,
    depth: int,
    cfg: MarchConfig,
)
    requires
        t.object.wf(),
        t.transform.translation == vec3_i(0, 0, 0),
        t.transform.rot_x == vec3_i(SCALE as int, 0, 0),
        t.transform.rot_y == vec3_i(0, SCALE as int, 0),
        t.transform.rot_z == vec3_i(0, 0, SCALE as int),
        t.transform.scale == SCALE,
        origin.in_range(),
    ensures
        spec_ray_color(Shape::Transform(t), lights, origin, dir, depth, cfg) == spec_ray_color(
            *t.object,
            lights,
            origin,
            dir,
            depth,
            cfg,
        ),
{
    assert forall|p: Vec3| p.in_range() implies t.transform.spec_map(p) == p by {
        let q = vec3_i(
            clamp_i(p.x - t.transform.translation.x, COORD_LIMIT as int),
            clamp_i(p.y - t.transform.translation.y, COORD_LIMIT as int),
            clamp_i(p.z - t.transform.translation.z, COORD_LIMIT as int),
        );
        assert(q == p);
        assert(q.x * t.transform.rot_x.x + q.y * t.transform.rot_x.y + q.z * t.transform.rot_x.z
            == SCALE * p.x) by (nonlinear_arith)
            requires
                q.x == p.x && q.y == p.y && q.z == p.z,
                t.transform.rot_x.x == SCALE && t.transform.rot_x.y == 0 && t.transform.rot_x.z
                    == 0,
        ;
        assert(q.x * t.transform.rot_y.x + q.y * t.transform.rot_y.y + q.z * t.transform.rot_y.z
            == SCALE * p.y) by (nonlinear_arith)
            requires
                q.x == p.x && q.y == p.y && q.z == p.z,
                t.transform.rot_y.x == 0 && t.transform.rot_y.y == SCALE && t.transform.rot_y.z
                    == 0,
        ;
        assert(q.x * t.transform.rot_z.x + q.y * t.transform.rot_z.y + q.z * t.transform.rot_z.z
            == SCALE * p.z) by (nonlinear_arith)
            requires
                q.x == p.x && q.y == p.y && q.z == p.z,
                t.transform.rot_z.x == 0 && t.transform.rot_z.y == 0 && t.transform.rot_z.z
                    == SCALE,
        ;
        assert(q.spec_dot(t.transform.rot_x) == p.x);
        assert(q.spec_dot(t.transform.rot_y) == p.y);
        assert(q.spec_dot(t.transform.rot_z) == p.z);
        vstd::arithmetic::mul::lemma_mul_is_commutative(
            q.spec_dot(t.transform.rot_x),
            SCALE as int,
        );
        vstd::arithmetic::mul::lemma_mul_is_commutative(
            q.spec_dot(t.transform.rot_y),
            SCALE as int,
        );
        vstd::arithmetic::mul::lemma_mul_is_commutative(
            q.spec_dot(t.transform.rot_z),
            SCALE as int,
        );
        vstd::arithmetic::div_mod::lemma_div_multiples_vanish(
            q.spec_dot(t.transform.rot_x),
            SCALE as int,
        );
        vstd::arithmetic::div_mod::lemma_div_multiples_vanish(
            q.spec_dot(t.transform.rot_y),
            SCALE as int,
        );
        vstd::arithmetic::div_mod::lemma_div_multiples_vanish(
            q.spec_dot(t.transform.rot_z),
            SCALE as int,
        );
        assert(fdiv(q.spec_dot(t.transform.rot_x) * SCALE, t.transform.scale as int) == p.x);
        assert(fdiv(q.spec_dot(t.transform.rot_y) * SCALE, t.transform.scale as int) == p.y);
        assert(fdiv(q.spec_dot(t.transform.rot_z) * SCALE, t.transform.scale as int) == p.z);
    }
    assert forall|p: Vec3| p.in_range() implies (#[trigger] Shape::Transform(t).sd(p))
        == t.object.sd(p) by {
        t.object.lemma_sd_bound(p);
        vstd::arithmetic::div_mod::lemma_div_multiples_vanish(t.object.sd(p), SCALE as int);
    }
    assert forall|p: Vec3| p.in_range() implies (#[trigger] Shape::Transform(t).dm(p))
        == t.object.dm(p) by {
        t.object.lemma_sd_bound(p);
        vstd::arithmetic::div_mod::lemma_div_multiples_vanish(t.object.dm(p).0, SCALE as int);
    }
    crate::marcher::lemma_color_depends_only_on_queries(
        Shape::Transform(t),
        *t.object,
        lights,
        origin,
        dir,
        depth,
        cfg,
    );
}

/// Bounds and material well-formedness of the N-ary minimum.
pub proof fn lemma_seq_min_bound(s: Seq<Shape>, point: Vec3)
    requires
        s.len() > 0,
        forall|i: int| 0 <= i < s.len() ==> (#[trigger] s[i]).wf(),
        point.in_range(),
    ensures
        -SD_LIMIT <= seq_min_sd(s, point) <= SD_LIMIT,
        -SD_LIMIT <= seq_min_dm(s, point).0 <= SD_LIMIT,
        seq_min_dm(s, point).1.wf(),
    decreases s,
{
    if s.len() <= 1 {
        s[0].lemma_sd_bound(point);
    } else {
        lemma_seq_min_bound(s.drop_last(), point);
        s.last().lemma_sd_bound(point);
    }
}

} // verus!
