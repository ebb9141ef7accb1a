//! Distance fields built from child distance fields: hard unions, an N-ary
//! union, a polynomially smoothed union, and a similarity transform.

use vstd::prelude::*;
use vstd::arithmetic::div_mod::{
    lemma_div_is_ordered, lemma_div_multiples_vanish, lemma_div_of0, lemma_div_pos_is_pos,
};
use crate::fixed::{
    clamp_i, clamp64, div_floor, fdiv, lemma_div_abs_bound, lemma_div_scaled_bound,
    lemma_mul_abs_bound, min_i, min64, mix_i, COORD_LIMIT, HALF, SCALE, SD_LIMIT,
};
use crate::material::Material;
use crate::shape::Shape;
use crate::vec3::{vec3_i, Vec3};

verus! {

/// Largest uniform scale factor a similarity may carry: 64.0 real.
pub const SCALE_MAX: i64 = 4194304;

/// `x` clamped to the weight range `[0, SCALE]`.
pub open spec fn clamp01_i(x: int) -> int {
    if x < 0 {
        0
    } else if x > SCALE {
        SCALE as int
    } else {
        x
    }
}

/// The smoothing weight of the smooth union:
/// `clamp(0.5 + 0.5 * (d2 - d1) / k, 0, 1)` in fixed-point form.
pub open spec fn smooth_weight(d1: int, d2: int, k: int) -> int {
    clamp01_i(HALF + fdiv((d2 - d1) * HALF, k))
}

/// The smooth-union distance `d1 * h + d2 * (1 - h) - k * h * (1 - h)`,
/// saturated to the signed-distance range.
pub open spec fn smooth_sd(d1: int, d2: int, k: int) -> int {
    let h = smooth_weight(d1, d2, k);
    let blend = fdiv(d1 * h + d2 * (SCALE - h), SCALE as int);
    let bump = fdiv(fdiv(k * h, SCALE as int) * (SCALE - h), SCALE as int);
    clamp_i(blend - bump, SD_LIMIT as int)
}

/// The distance returned by the smooth union's distance-and-material query,
/// `mix(d2, d1, h) * (1 - h) - k * h * (1 - h)`: the blend carries one more
/// factor of `(1 - h)` than `smooth_sd`, which the renderer preserves.
pub open spec fn smooth_dm_sd(d1: int, d2: int, k: int) -> int {
    let h = smooth_weight(d1, d2, k);
    let blend = fdiv(mix_i(d2, d1, h) * (SCALE - h), SCALE as int);
    let bump = fdiv(fdiv(k * h, SCALE as int) * (SCALE - h), SCALE as int);
    clamp_i(blend - bump, SD_LIMIT as int)
}

/// Law: the smoothed union's distance differs from the hard minimum by at
/// most the smoothing width `k`, so it degrades to the hard union as `k`
/// shrinks toward zero.
pub proof fn lemma_smooth_sd_close_to_min(d1: int, d2: int, k: int)
    requires
        -SD_LIMIT <= d1 <= SD_LIMIT,
        -SD_LIMIT <= d2 <= SD_LIMIT,
        1 <= k <= COORD_LIMIT,
    ensures
        crate::fixed::abs_i(smooth_sd(d1, d2, k) - min_i(d1, d2)) <= k,
{
    let h = smooth_weight(d1, d2, k);
    let blend = fdiv(d1 * h + d2 * (SCALE - h), SCALE as int);
    let kh = fdiv(k * h, SCALE as int);
    let bump = fdiv(kh * (SCALE - h), SCALE as int);
    let m = min_i(d1, d2);
    let mx = if d1 >= d2 { d1 } else { d2 };
    lemma_div_of0(SCALE as int);
    if d2 - d1 >= k {
        assert(k * HALF <= (d2 - d1) * HALF) by (nonlinear_arith)
            requires
                d2 - d1 >= k,
        ;
        lemma_div_is_ordered(k * HALF, (d2 - d1) * HALF, k);
        lemma_div_multiples_vanish(HALF as int, k);
        assert(h == SCALE);
        assert(d1 * h + d2 * (SCALE - h) == SCALE * d1) by (nonlinear_arith)
            requires
                h == SCALE,
        ;
        lemma_div_multiples_vanish(d1, SCALE as int);
        assert(blend == d1);
        assert(kh * (SCALE - h) == 0) by (nonlinear_arith)
            requires
                h == SCALE,
        ;
        assert(bump == 0);
        assert(m == d1);
    } else if d1 - d2 >= k {
        assert((d2 - d1) * HALF <= k * (-HALF)) by (nonlinear_arith)
            requires
                d1 - d2 >= k,
        ;
        lemma_div_is_ordered((d2 - d1) * HALF, k * (-HALF), k);
        lemma_div_multiples_vanish(-HALF as int, k);
        assert(h == 0);
        assert(d1 * h + d2 * (SCALE - h) == SCALE * d2) by (nonlinear_arith)
            requires
                h == 0,
        ;
        lemma_div_multiples_vanish(d2, SCALE as int);
        assert(blend == d2);
        assert(k * h == 0) by (nonlinear_arith)
            requires
                h == 0,
        ;
        assert(kh == 0);
        assert(kh * (SCALE - h) == 0) by (nonlinear_arith)
            requires
                kh == 0,
        ;
        assert(bump == 0);
        assert(m == d2);
    } else {
        // the seam: both distances are within k of each other
        assert(mx - m <= k);
        assert(m * SCALE <= d1 * h + d2 * (SCALE - h) <= mx * SCALE) by (nonlinear_arith)
            requires
                0 <= h <= SCALE,
                m <= d1 <= mx,
                m <= d2 <= mx,
        ;
        lemma_div_is_ordered(m * SCALE, d1 * h + d2 * (SCALE - h), SCALE as int);
        lemma_div_is_ordered(d1 * h + d2 * (SCALE - h), mx * SCALE, SCALE as int);
        lemma_div_multiples_vanish(m, SCALE as int);
        lemma_div_multiples_vanish(mx, SCALE as int);
        assert(m <= blend <= mx);
        assert(0 <= k * h <= k * SCALE) by (nonlinear_arith)
            requires
                0 <= h <= SCALE,
                k >= 1,
        ;
        lemma_div_pos_is_pos(k * h, SCALE as int);
        lemma_div_scaled_bound(k * h, SCALE as int, k);
        assert(0 <= kh * (SCALE - h) <= k * SCALE) by (nonlinear_arith)
            requires
                0 <= kh <= k,
                0 <= h <= SCALE,
        ;
        lemma_div_pos_is_pos(kh * (SCALE - h), SCALE as int);
        lemma_div_scaled_bound(kh * (SCALE - h), SCALE as int, k);
        assert(0 <= bump <= k);
    }
}

/// Exec clamp to the weight range `[0, SCALE]`.
pub fn clamp01(x: i64) -> (r: i64)
    ensures
        r == clamp01_i(x as int),
{
    if x < 0 {
        0
    } else if x > SCALE {
        SCALE
    } else {
        x
    }
}

/// Combines two distance fields by taking the minimum distance.
pub struct Union {
    pub object_a: Box<Shape>,
    pub object_b: Box<Shape>,
}

impl Union {
    pub fn signed_distance(&self, point: Vec3) -> (r: i64)
        requires
            self.object_a.wf(),
            self.object_b.wf(),
            point.in_range(),
        ensures
            r == min_i(self.object_a.sd(point), self.object_b.sd(point)),
        decreases *self,
    {
        let da = self.object_a.signed_distance(point);
        let db = self.object_b.signed_distance(point);
        min64(da, db)
    }

    /// The minimum distance together with the material of the nearer child;
    /// on a tie the first child wins.
    pub fn dist_material(&self, point: Vec3) -> (r: (i64, Material))
        requires
            self.object_a.wf(),
            self.object_b.wf(),
            point.in_range(),
        ensures
            r.0 == min_i(self.object_a.dm(point).0, self.object_b.dm(point).0),
            r.1 == if self.object_a.dm(point).0 <= self.object_b.dm(point).0 {
                self.object_a.dm(point).1
            } else {
                self.object_b.dm(point).1
            },
        decreases *self,
    {
        let (dist_a, mat_a) = self.object_a.dist_material(point);
        let (dist_b, mat_b) = self.object_b.dist_material(point);
        if dist_a <= dist_b {
            (dist_a, mat_a)
        } else {
            (dist_b, mat_b)
        }
    }
}

/// The N-ary union: the minimum over a non-empty list of children.
pub struct MultiUnion {
    pub objects: Vec<Shape>,
}

/// Minimum signed distance over a non-empty sequence of shapes.
pub open spec fn seq_min_sd(s: Seq<Shape>, point: Vec3) -> int
    decreases s,
{
    if s.len() == 0 {
        0
    } else if s.len() == 1 {
        s[0].sd(point)
    } else {
        min_i(seq_min_sd(s.drop_last(), point), s.last().sd(point))
    }
}

/// Distance and material of the first child attaining the minimum distance
/// over a non-empty sequence of shapes.
pub open spec fn seq_min_dm(s: Seq<Shape>, point: Vec3) -> (int, Material)
    decreases s,
{
    if s.len() == 0 {
        (0, Material { color: vec3_i(0, 0, 0), reflective: 0 })
    } else if s.len() == 1 {
        s[0].dm(point)
    } else {
        let rest = seq_min_dm(s.drop_last(), point);
        let lastv = s.last().dm(point);
        if rest.0 <= lastv.0 {
            rest
        } else {
            lastv
        }
    }
}

impl MultiUnion {
    pub open spec fn children_wf(self) -> bool
        decreases self,
    {
        &&& self.objects@.len() > 0
        &&& forall|i: int| 0 <= i < self.objects@.len() ==> (#[trigger] self.objects@[i]).wf()
    }

    pub fn signed_distance(&self, point: Vec3) -> (r: i64)
        requires
            self.children_wf(),
            point.in_range(),
        ensures
            r == seq_min_sd(self.objects@, point),
        decreases *self,
    {
        proof {
            assert(self.objects@.len() > 0);
            assert(self.objects@[0].wf());
        }
        let mut result = self.objects[0].signed_distance(point);
        let mut i: usize = 1;
        proof {
            assert(self.objects@.subrange(0, 1) =~= seq![self.objects@[0]]);
        }
        while i < self.objects.len()
            invariant
                1 <= i <= self.objects.len(),
                self.children_wf(),
                point.in_range(),
                result == seq_min_sd(self.objects@.subrange(0, i as int), point),
            decreases self.objects.len() - i,
        {
            proof {
                assert(self.objects@[i as int].wf());
                assert(decreases_to!(*self => self.objects@[i as int]));
            }
            let d = self.objects[i].signed_distance(point);
            result = min64(result, d);
            proof {
                let pre = self.objects@.subrange(0, i + 1);
                assert(pre.drop_last() =~= self.objects@.subrange(0, i as int));
                assert(pre.last() == self.objects@[i as int]);
            }
            i = i + 1;
        }
        proof {
            assert(self.objects@.subrange(0, self.objects@.len() as int) =~= self.objects@);
        }
        result
    }

    /// Distance and material of the first child reporting the minimum.
    pub fn dist_material(&self, point: Vec3) -> (r: (i64, Material))
        requires
            self.children_wf(),
            point.in_range(),
        ensures
            r.0 == seq_min_dm(self.objects@, point).0,
            r.1 == seq_min_dm(self.objects@, point).1,
        decreases *self,
    {
        proof {
            assert(self.objects@[0].wf());
        }
        let mut result = self.objects[0].dist_material(point);
        let mut i: usize = 1;
        proof {
            assert(self.objects@.subrange(0, 1) =~= seq![self.objects@[0]]);
        }
        while i < self.objects.len()
            invariant
                1 <= i <= self.objects.len(),
                self.children_wf(),
                point.in_range(),
                result.0 == seq_min_dm(self.objects@.subrange(0, i as int), point).0,
                result.1 == seq_min_dm(self.objects@.subrange(0, i as int), point).1,
            decreases self.objects.len() - i,
        {
            proof {
                assert(self.objects@[i as int].wf());
                assert(decreases_to!(*self => self.objects@[i as int]));
            }
            let dm = self.objects[i].dist_material(point);
            if dm.0 < result.0 {
                result = dm;
            }
            proof {
                let pre = self.objects@.subrange(0, i + 1);
                assert(pre.drop_last() =~= self.objects@.subrange(0, i as int));
                assert(pre.last() == self.objects@[i as int]);
            }
            i = i + 1;
        }
        proof {
            assert(self.objects@.subrange(0, self.objects@.len() as int) =~= self.objects@);
        }
        result
    }
}

/// Like `Union`, but with a polynomially smoothed seam of width `k`.
pub struct SmoothUnion {
    pub object_a: Box<Shape>,
    pub object_b: Box<Shape>,
    /// Smoothing width; positive (at least one fixed-point unit).
    pub smoothness: i64,
}

impl SmoothUnion {
    pub open spec fn k_wf(self) -> bool {
        1 <= self.smoothness <= COORD_LIMIT
    }

    pub fn signed_distance(&self, point: Vec3) -> (r: i64)
        requires
            self.object_a.wf(),
            self.object_b.wf(),
            self.k_wf(),
            point.in_range(),
        ensures
            r == smooth_sd(self.object_a.sd(point), self.object_b.sd(point), self.smoothness as int),
        decreases *self,
    {
        let k = self.smoothness;
        let d1 = self.object_a.signed_distance(point);
        let d2 = self.object_b.signed_distance(point);
        proof {
            self.object_a.lemma_sd_bound(point);
            self.object_b.lemma_sd_bound(point);
            lemma_mul_abs_bound(d2 - d1, HALF as int, 2 * SD_LIMIT as int, HALF as int);
            lemma_div_abs_bound((d2 - d1) * HALF, k as int, 0x4000_0000_0000_0000);
        }
        let h = clamp01(HALF + div_floor((d2 - d1) * HALF, k));
        proof {
            lemma_mul_abs_bound(d1 as int, h as int, SD_LIMIT as int, SCALE as int);
            lemma_mul_abs_bound(d2 as int, SCALE - h, SD_LIMIT as int, SCALE as int);
            lemma_div_abs_bound(d1 * h + d2 * (SCALE - h), SCALE as int, 0x4000_0000_0000_0000);
            lemma_mul_abs_bound(k as int, h as int, COORD_LIMIT as int, SCALE as int);
            lemma_div_scaled_bound(k * h, SCALE as int, COORD_LIMIT as int);
            lemma_mul_abs_bound(
                fdiv(k * h, SCALE as int),
                SCALE - h,
                COORD_LIMIT as int,
                SCALE as int,
            );
            lemma_div_scaled_bound(
                fdiv(k * h, SCALE as int) * (SCALE - h),
                SCALE as int,
                COORD_LIMIT as int,
            );
        }
        let blend = div_floor(d1 * h + d2 * (SCALE - h), SCALE);
        let bump = div_floor(div_floor(k * h, SCALE) * (SCALE - h), SCALE);
        clamp64(blend - bump, SD_LIMIT)
    }

    /// The smoothed distance of the material query (which carries one more
    /// `(1 - h)` factor than `signed_distance`) and the materials of both
    /// children blended by the same weight.
    pub fn dist_material(&self, point: Vec3) -> (r: (i64, Material))
        requires
            self.object_a.wf(),
            self.object_b.wf(),
            self.k_wf(),
            point.in_range(),
        ensures
            r.0 == smooth_dm_sd(
                self.object_a.dm(point).0,
                self.object_b.dm(point).0,
                self.smoothness as int,
            ),
            r.1 == self.object_b.dm(point).1.spec_mix(
                self.object_a.dm(point).1,
                smooth_weight(
                    self.object_a.dm(point).0,
                    self.object_b.dm(point).0,
                    self.smoothness as int,
                ),
            ),
        decreases *self,
    {
        let k = self.smoothness;
        let (dist_a, mat_a) = self.object_a.dist_material(point);
        let (dist_b, mat_b) = self.object_b.dist_material(point);
        proof {
            self.object_a.lemma_sd_bound(point);
            self.object_b.lemma_sd_bound(point);
            lemma_mul_abs_bound(dist_b - dist_a, HALF as int, 2 * SD_LIMIT as int, HALF as int);
            lemma_div_abs_bound((dist_b - dist_a) * HALF, k as int, 0x4000_0000_0000_0000);
        }
        let h = clamp01(HALF + div_floor((dist_b - dist_a) * HALF, k));
        proof {
            lemma_mul_abs_bound(dist_a as int, h as int, SD_LIMIT as int, SCALE as int);
            lemma_mul_abs_bound(dist_b as int, SCALE - h, SD_LIMIT as int, SCALE as int);
            lemma_div_scaled_bound(
                dist_a * h + dist_b * (SCALE - h),
                SCALE as int,
                2 * SD_LIMIT as int,
            );
            lemma_mul_abs_bound(
                mix_i(dist_b as int, dist_a as int, h as int),
                SCALE - h,
                2 * SD_LIMIT as int,
                SCALE as int,
            );
            lemma_div_abs_bound(
                mix_i(dist_b as int, dist_a as int, h as int) * (SCALE - h),
                SCALE as int,
                0x4000_0000_0000_0000,
            );
            lemma_mul_abs_bound(k as int, h as int, COORD_LIMIT as int, SCALE as int);
            lemma_div_scaled_bound(k * h, SCALE as int, COORD_LIMIT as int);
            lemma_mul_abs_bound(
                fdiv(k * h, SCALE as int),
                SCALE - h,
                COORD_LIMIT as int,
                SCALE as int,
            );
            lemma_div_scaled_bound(
                fdiv(k * h, SCALE as int) * (SCALE - h),
                SCALE as int,
                COORD_LIMIT as int,
            );
        }
        let mixed = div_floor(dist_a * h + dist_b * (SCALE - h), SCALE);
        let blend = div_floor(mixed * (SCALE - h), SCALE);
        let bump = div_floor(div_floor(k * h, SCALE) * (SCALE - h), SCALE);
        let dist = clamp64(blend - bump, SD_LIMIT);
        let mat = mat_b.mix(mat_a, h);
        (dist, mat)
    }
}

/// A similarity transform: a rotation, a uniform scale and a translation.
/// The rotation is stored as the images of the three axes (the columns of
/// the rotation matrix), each a unit vector.
pub struct Similarity {
    pub translation: Vec3,
    pub rot_x: Vec3,
    pub rot_y: Vec3,
    pub rot_z: Vec3,
    /// Uniform scale factor, in `[1 / SCALE, 64.0]` real units.
    pub scale: i64,
}

impl Similarity {
    pub open spec fn wf(self) -> bool {
        &&& self.translation.in_range()
        &&& self.rot_x.is_dir()
        &&& self.rot_y.is_dir()
        &&& self.rot_z.is_dir()
        &&& 1 <= self.scale <= SCALE_MAX
    }

    /// The inverse of the similarity, applied to `point`: undo the
    /// translation, then the rotation (via the transposed matrix), then the
    /// scale; components are clamped to the coordinate range.
    pub open spec fn spec_map(self, point: Vec3) -> Vec3 {
        let q = vec3_i(
            clamp_i(point.x - self.translation.x, COORD_LIMIT as int),
            clamp_i(point.y - self.translation.y, COORD_LIMIT as int),
            clamp_i(point.z - self.translation.z, COORD_LIMIT as int),
        );
        vec3_i(
            clamp_i(fdiv(q.spec_dot(self.rot_x) * SCALE, self.scale as int), COORD_LIMIT as int),
            clamp_i(fdiv(q.spec_dot(self.rot_y) * SCALE, self.scale as int), COORD_LIMIT as int),
            clamp_i(fdiv(q.spec_dot(self.rot_z) * SCALE, self.scale as int), COORD_LIMIT as int),
        )
    }

    pub fn apply_inverse(&self, point: Vec3) -> (r: Vec3)
        requires
            self.wf(),
            point.in_range(),
        ensures
            r == self.spec_map(point),
            r.in_range(),
    {
        let q = Vec3 {
            x: clamp64(point.x - self.translation.x, COORD_LIMIT),
            y: clamp64(point.y - self.translation.y, COORD_LIMIT),
            z: clamp64(point.z - self.translation.z, COORD_LIMIT),
        };
        let rx = q.dot(self.rot_x);
        let ry = q.dot(self.rot_y);
        let rz = q.dot(self.rot_z);
        proof {
            q.lemma_dot_bound(self.rot_x);
            q.lemma_dot_bound(self.rot_y);
            q.lemma_dot_bound(self.rot_z);
        }
        Vec3 {
            x: clamp64(div_floor(rx * SCALE, self.scale), COORD_LIMIT),
            y: clamp64(div_floor(ry * SCALE, self.scale), COORD_LIMIT),
            z: clamp64(div_floor(rz * SCALE, self.scale), COORD_LIMIT),
        }
    }
}

/// Scales, rotates and translates a child field by mapping each query point
/// through the inverse similarity and scaling the reported distance back.
pub struct Transform {
    pub object: Box<Shape>,
    pub transform: Similarity,
}

impl Transform {
    pub fn signed_distance(&self, point: Vec3) -> (r: i64)
        requires
            self.object.wf(),
            self.transform.wf(),
            point.in_range(),
        ensures
            r == clamp_i(
                fdiv(
                    self.transform.scale * self.object.sd(self.transform.spec_map(point)),
                    SCALE as int,
                ),
                SD_LIMIT as int,
            ),
        decreases *self,
    {
        let mapped = self.transform.apply_inverse(point);
        let d = self.object.signed_distance(mapped);
        proof {
            self.object.lemma_sd_bound(mapped);
            lemma_mul_abs_bound(self.transform.scale as int, d as int, SCALE_MAX as int, SD_LIMIT as int);
            lemma_div_abs_bound(self.transform.scale * d, SCALE as int, 0x4000_0000_0000_0000);
        }
        clamp64(div_floor(self.transform.scale * d, SCALE), SD_LIMIT)
    }

    pub fn dist_material(&self, point: Vec3) -> (r: (i64, Material))
        requires
            self.object.wf(),
            self.transform.wf(),
            point.in_range(),
        ensures
            r.0 == clamp_i(
                fdiv(
                    self.transform.scale * self.object.dm(self.transform.spec_map(point)).0,
                    SCALE as int,
                ),
                SD_LIMIT as int,
            ),
            r.1 == self.object.dm(self.transform.spec_map(point)).1,
        decreases *self,
    {
        let mapped = self.transform.apply_inverse(point);
        let (d, mat) = self.object.dist_material(mapped);
        proof {
            self.object.lemma_sd_bound(mapped);
            lemma_mul_abs_bound(self.transform.scale as int, d as int, SCALE_MAX as int, SD_LIMIT as int);
            lemma_div_abs_bound(self.transform.scale * d, SCALE as int, 0x4000_0000_0000_0000);
        }
        (clamp64(div_floor(self.transform.scale * d, SCALE), SD_LIMIT), mat)
    }
}

} // verus!
