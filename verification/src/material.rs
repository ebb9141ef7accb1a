//! Per-surface shading parameters: a linear-RGB color and a reflectivity
//! weight, both interpolable.

use vstd::prelude::*;
use crate::fixed::{lemma_mix_bounds, mix_fixed, mix_i, COLOR_LIMIT, SCALE};
use crate::vec3::Vec3;

verus! {

#[derive(Clone, Copy, Debug, PartialEq, Eq, Structural)]
pub struct Material {
    pub color: Vec3,
    pub reflective: i64,
}

impl Material {
    /// Color components lie in `[0, COLOR_LIMIT]` and reflectivity in
    /// `[0, SCALE]` (that is, in `[0.0, 1.0]`).
    pub open spec fn wf(self) -> bool {
        &&& 0 <= self.color.x <= COLOR_LIMIT
        &&& 0 <= self.color.y <= COLOR_LIMIT
        &&& 0 <= self.color.z <= COLOR_LIMIT
        &&& 0 <= self.reflective <= SCALE
    }

    /// Both fields blended independently by weight `w`.
    pub open spec fn spec_mix(self, o: Material, w: int) -> Material {
        Material {
            color: self.color.spec_mix(o.color, w),
            reflective: mix_i(self.reflective as int, o.reflective as int, w) as i64,
        }
    }

    /// Blending two well-formed materials by a weight in `[0, SCALE]` gives
    /// a well-formed material.
    pub proof fn lemma_spec_mix_wf(self, o: Material, w: int)
        requires
            self.wf(),
            o.wf(),
            0 <= w <= SCALE,
        ensures
            self.spec_mix(o, w).wf(),
    {
        lemma_mix_bounds(self.color.x as int, o.color.x as int, w, 0, COLOR_LIMIT as int);
        lemma_mix_bounds(self.color.y as int, o.color.y as int, w, 0, COLOR_LIMIT as int);
        lemma_mix_bounds(self.color.z as int, o.color.z as int, w, 0, COLOR_LIMIT as int);
        lemma_mix_bounds(self.reflective as int, o.reflective as int, w, 0, SCALE as int);
    }

    /// Linear blend `other * weight + self * (1 - weight)` of color and
    /// reflectivity.
    pub fn mix(self, other: Material, weight: i64) -> (r: Material)
        requires
            self.wf(),
            other.wf(),
            0 <= weight <= SCALE,
        ensures
            r == self.spec_mix(other, weight as int),
            r.wf(),
    {
        proof {
            lemma_mix_bounds(
                self.color.x as int,
                other.color.x as int,
                weight as int,
                0,
                COLOR_LIMIT as int,
            );
            lemma_mix_bounds(
                self.color.y as int,
                other.color.y as int,
                weight as int,
                0,
                COLOR_LIMIT as int,
            );
            lemma_mix_bounds(
                self.color.z as int,
                other.color.z as int,
                weight as int,
                0,
                COLOR_LIMIT as int,
            );
            lemma_mix_bounds(
                self.reflective as int,
                other.reflective as int,
                weight as int,
                0,
                SCALE as int,
            );
        }
        Material {
            color: self.color.mix(other.color, weight),
            reflective: mix_fixed(self.reflective, other.reflective, weight),
        }
    }
}

} // verus!
