//! The camera: generates one ray per pixel of the output image and marches
//! each ray through the scene, producing a row-major buffer of linear-RGB
//! colors.

use vstd::prelude::*;
use crate::fixed::{
    div_floor, fdiv, fmul, lemma_div_abs_bound, lemma_div_scaled_bound, lemma_mul_abs_bound,
    mul_fixed, SCALE,
};
use crate::light::Light;
use crate::marcher::{spec_ray_color, MarchConfig};
use crate::shape::Shape;
use crate::vec3::{vec3_i, Vec3};

verus! {

/// The per-frame view description.  The field of view enters as the tangent
/// of half the horizontal view angle; rays share the camera position as
/// their origin.
pub struct Camera {
    /// Tangent of half the horizontal field of view, fixed-point.
    pub half_fov_tan: i64,
    pub screen_width: i32,
    pub screen_height: i32,
    /// Height of one pixel relative to its width, fixed-point.
    pub pixel_aspect: i64,
    /// The eye position.
    pub position: Vec3,
}

impl Camera {
    pub open spec fn wf(self) -> bool {
        &&& 1 <= self.half_fov_tan <= 4 * SCALE
        &&& 1 <= self.pixel_aspect <= 4 * SCALE
        &&& 1 <= self.screen_width <= 1024
        &&& 1 <= self.screen_height <= 1024
        &&& self.position.in_range()
    }

    /// Direction of the ray through the pixel at column `px`, row `py`
    /// (row 0 at the top): the pixel's offset from the screen center scaled
    /// by the per-pixel distance, normalized, looking along positive z.
    pub open spec fn spec_pixel_ray(self, px: int, py: int) -> Vec3 {
        let dpp = fdiv(2 * self.half_fov_tan, self.screen_width as int);
        let x = (px - (self.screen_width as int) / 2) * dpp;
        let y = fmul(-(py - (self.screen_height as int) / 2) * dpp, self.pixel_aspect as int);
        vec3_i(x, y, SCALE as int).spec_normalized()
    }

    /// Renders one frame: pixel `idx` of the row-major result holds the
    /// marched color of the ray through column `idx % width`, row
    /// `idx / width`.
    pub fn render(&self, scene: &Shape, lights: &Vec<Light>, cfg: &MarchConfig) -> (pixels: Vec<
        Vec3,
    >)
        requires
            self.wf(),
            scene.wf(),
            cfg.wf(),
            forall|i: int| 0 <= i < lights@.len() ==> (#[trigger] lights@[i]).wf(),
        ensures
            pixels@.len() == self.screen_width as int * self.screen_height as int,
            forall|idx: int|
                0 <= idx < pixels@.len() ==> pixels@[idx] == spec_ray_color(
                    *scene,
                    lights@,
                    self.position,
                    self.spec_pixel_ray(
                        idx % (self.screen_width as int),
                        idx / (self.screen_width as int),
                    ),
                    0,
                    *cfg,
                ),
    {
        let w = self.screen_width;
        let h = self.screen_height;
        proof {
            lemma_mul_abs_bound(w as int, h as int, 1024, 1024);
        }
        let total: usize = (w as usize) * (h as usize);
        let dpp = div_floor(2 * self.half_fov_tan, w as i64);
        proof {
            lemma_div_abs_bound(2 * self.half_fov_tan as int, w as int, 8 * SCALE as int);
        }
        let mut pixels: Vec<Vec3> = Vec::new();
        let mut idx: usize = 0;
        while idx < total
            invariant
                self.wf(),
                scene.wf(),
                cfg.wf(),
                forall|i: int| 0 <= i < lights@.len() ==> (#[trigger] lights@[i]).wf(),
                w == self.screen_width,
                h == self.screen_height,
                total == w as int * h as int,
                dpp == fdiv(2 * self.half_fov_tan as int, w as int),
                -8 * SCALE <= dpp <= 8 * SCALE,
                idx <= total,
                pixels@.len() == idx,
                forall|j: int|
                    0 <= j < idx ==> pixels@[j] == spec_ray_color(
                        *scene,
                        lights@,
                        self.position,
                        self.spec_pixel_ray(j % (w as int), j / (w as int)),
                        0,
                        *cfg,
                    ),
            decreases total - idx,
        {
            let px = idx % (w as usize);
            let py = idx / (w as usize);
            proof {
                vstd::arithmetic::div_mod::lemma_mod_bound(idx as int, w as int);
                vstd::arithmetic::div_mod::lemma_multiply_divide_lt(idx as int, w as int, h as int);
                vstd::arithmetic::div_mod::lemma_div_pos_is_pos(idx as int, w as int);
            }
            let fx = (px as i64) - (w as i64) / 2;
            let fy = -((py as i64) - (h as i64) / 2);
            proof {
                lemma_mul_abs_bound(fx as int, dpp as int, 1024, 8 * SCALE as int);
                lemma_mul_abs_bound(fy as int, dpp as int, 1024, 8 * SCALE as int);
                lemma_mul_abs_bound(
                    fy * dpp,
                    self.pixel_aspect as int,
                    1024 * 8 * SCALE as int,
                    4 * SCALE as int,
                );
                lemma_div_scaled_bound(
                    (fy * dpp) * self.pixel_aspect,
                    SCALE as int,
                    1024 * 32 * SCALE as int,
                );
            }
            let x = fx * dpp;
            let y = mul_fixed(fy * dpp, self.pixel_aspect);
            let direction = Vec3 { x, y, z: SCALE }.normalized();
            let color = scene.ray_march(self.position, direction, lights, 0, cfg);
            pixels.push(color);
            idx = idx + 1;
        }
        pixels
    }
}

} // verus!
