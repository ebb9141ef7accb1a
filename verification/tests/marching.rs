//! Marching, shadows, reflections and the camera on concrete scenes.
//! All scalars are 16.16 fixed-point, so 65536 is 1.0.

use raymarch::camera::Camera;
use raymarch::light::{DirectionalLight, GlobalLight, Light, PointLight};
use raymarch::marcher::{Fragment, MarchConfig};
use raymarch::material::Material;
use raymarch::primitives::{Plane, Sphere};
use raymarch::shape::Shape;
use raymarch::vec3::Vec3;

const S: i64 = 65536;

fn white(reflective: i64) -> Material {
    Material { color: Vec3 { x: S, y: S, z: S }, reflective }
}

fn sphere(radius: i64) -> Shape {
    Shape::Sphere(Sphere { material: white(0), radius })
}

fn cfg() -> MarchConfig {
    MarchConfig::default()
}

#[test]
fn default_config() {
    let c = cfg();
    assert_eq!(c.epsilon, 66);
    assert_eq!(c.max_distance, 256 * S);
    assert_eq!(c.max_iterations, 64);
    assert_eq!(c.max_bounces, 4);
}

#[test]
fn ray_pointing_away_is_black() {
    // origin far outside the sphere, looking further away: the very first
    // probe exceeds the far plane, so the ray is a miss and exactly black
    let scene = sphere(S);
    let lights = vec![
        Light::Point(PointLight {
            color: Vec3 { x: S, y: S, z: S },
            position: Vec3 { x: 0, y: 5 * S, z: 0 },
        }),
        Light::Global(GlobalLight { color: Vec3 { x: S / 4, y: S / 4, z: S / 4 } }),
    ];
    let color = scene.ray_march(
        Vec3 { x: 300 * S, y: 0, z: 0 },
        Vec3 { x: S, y: 0, z: 0 },
        &lights,
        0,
        &cfg(),
    );
    assert_eq!(color, Vec3 { x: 0, y: 0, z: 0 });
}

#[test]
fn exhausted_bounce_budget_is_black() {
    // at depth beyond the bounce budget the marcher must return pure black,
    // even when the ray would hit lit geometry
    let scene = sphere(S);
    let lights = vec![Light::Global(GlobalLight { color: Vec3 { x: S, y: S, z: S } })];
    let c = cfg();
    let color = scene.ray_march(
        Vec3 { x: 0, y: 0, z: -10 * S },
        Vec3 { x: 0, y: 0, z: S },
        &lights,
        c.max_bounces + 1,
        &c,
    );
    assert_eq!(color, Vec3 { x: 0, y: 0, z: 0 });
    // one step before the budget the same ray is visibly lit
    let lit = scene.ray_march(
        Vec3 { x: 0, y: 0, z: -10 * S },
        Vec3 { x: 0, y: 0, z: S },
        &lights,
        c.max_bounces,
        &c,
    );
    assert!(lit.x > 0 && lit.y > 0 && lit.z > 0);
}

#[test]
fn point_light_shadow_scenario() {
    // a unit sphere at the origin occludes the light from the fragment on
    // the far side; moving the light to the fragment's side lights it
    let world = sphere(S);
    let frag = Fragment {
        position: Vec3 { x: 0, y: 0, z: -3 * S },
        normal: Vec3 { x: 0, y: 0, z: -S },
        material: white(0),
    };
    let blocked = PointLight {
        color: Vec3 { x: S, y: S, z: S },
        position: Vec3 { x: 0, y: 0, z: 3 * S },
    };
    assert_eq!(
        blocked.luminate(&frag, &world, &cfg()),
        Vec3 { x: 0, y: 0, z: 0 }
    );
    let clear = PointLight {
        color: Vec3 { x: S, y: S, z: S },
        position: Vec3 { x: 0, y: 0, z: -6 * S },
    };
    let lit = clear.luminate(&frag, &world, &cfg());
    // exact inverse-square radiance: 64 * shade / 9, with shade == 1.0
    assert_eq!(lit, Vec3 { x: 466033, y: 466033, z: 466033 });
}

#[test]
fn directional_light_occlusion() {
    let world = sphere(S);
    // fragment below the sphere, light shining straight down: the sphere
    // blocks the sky above
    let frag = Fragment {
        position: Vec3 { x: 0, y: -3 * S, z: 0 },
        normal: Vec3 { x: 0, y: S, z: 0 },
        material: white(0),
    };
    let down = DirectionalLight {
        color: Vec3 { x: S, y: S, z: S },
        direction: Vec3 { x: 0, y: -S, z: 0 },
    };
    assert_eq!(down.luminate(&frag, &world, &cfg()), Vec3 { x: 0, y: 0, z: 0 });
    // the same light with a clear sky gives exactly the diffuse term
    let clear_frag = Fragment {
        position: Vec3 { x: 10 * S, y: -3 * S, z: 0 },
        normal: Vec3 { x: 0, y: S, z: 0 },
        material: white(0),
    };
    assert_eq!(
        down.luminate(&clear_frag, &world, &cfg()),
        Vec3 { x: S, y: S, z: S }
    );
}

#[test]
fn global_light_ignores_geometry() {
    let world = sphere(S);
    let g = GlobalLight { color: Vec3 { x: S / 2, y: S / 4, z: S / 8 } };
    let frag = Fragment {
        position: Vec3 { x: 0, y: 0, z: -3 * S },
        normal: Vec3 { x: 0, y: 0, z: -S },
        material: white(0),
    };
    assert_eq!(
        g.luminate(&frag, &world, &cfg()),
        Vec3 { x: S / 2, y: S / 4, z: S / 8 }
    );
}

#[test]
fn full_mirror_reproduces_the_reflected_ray() {
    // a fully reflective floor under a directional light: the reflected ray
    // escapes to the sky, so the mirror shows exactly black even though the
    // direct diffuse term is positive
    let mirror = Shape::Plane(Plane {
        material: white(S),
        normal: Vec3 { x: 0, y: S, z: 0 },
        height: 0,
    });
    let matte = Shape::Plane(Plane {
        material: white(0),
        normal: Vec3 { x: 0, y: S, z: 0 },
        height: 0,
    });
    let lights = vec![Light::Directional(DirectionalLight {
        color: Vec3 { x: S, y: S, z: S },
        direction: Vec3 { x: 0, y: -S, z: 0 },
    })];
    let origin = Vec3 { x: 0, y: 3 * S, z: 0 };
    let dir = Vec3 { x: 0, y: -S, z: 0 };
    let mirrored = mirror.ray_march(origin, dir, &lights, 0, &cfg());
    assert_eq!(mirrored, Vec3 { x: 0, y: 0, z: 0 });
    // the matte floor under the same light is exactly the diffuse term
    let flat = matte.ray_march(origin, dir, &lights, 0, &cfg());
    assert_eq!(flat, Vec3 { x: S, y: S, z: S });
    // and the recursion budget alone forces black at excessive depth
    let c = cfg();
    let deep = matte.ray_march(origin, dir, &lights, c.max_bounces + 1, &c);
    assert_eq!(deep, Vec3 { x: 0, y: 0, z: 0 });
}

#[test]
fn half_mirror_blends_direct_and_reflection() {
    // reflectivity one half: the reflection is black sky, so the result is
    // exactly half the matte color
    let half = Shape::Plane(Plane {
        material: white(S / 2),
        normal: Vec3 { x: 0, y: S, z: 0 },
        height: 0,
    });
    let matte = Shape::Plane(Plane {
        material: white(0),
        normal: Vec3 { x: 0, y: S, z: 0 },
        height: 0,
    });
    let lights = vec![Light::Directional(DirectionalLight {
        color: Vec3 { x: S, y: S, z: S },
        direction: Vec3 { x: 0, y: -S, z: 0 },
    })];
    let origin = Vec3 { x: 0, y: 3 * S, z: 0 };
    let dir = Vec3 { x: 0, y: -S, z: 0 };
    // with no bounce budget the reflection term is pure black, so the
    // result is exactly half the matte color
    let c = MarchConfig { epsilon: 66, max_distance: 256 * S, max_iterations: 64, max_bounces: 0 };
    let blended = half.ray_march(origin, dir, &lights, 0, &c);
    let flat = matte.ray_march(origin, dir, &lights, 0, &c);
    assert_eq!(flat, Vec3 { x: S, y: S, z: S });
    assert_eq!(blended, Vec3 { x: S / 2, y: S / 2, z: S / 2 });
}

#[test]
fn visibility_checks() {
    let world = sphere(S);
    let c = cfg();
    // looking away from the sphere the sky is visible
    assert!(world.check_visible_direction(
        Vec3 { x: 3 * S, y: 0, z: 0 },
        Vec3 { x: S, y: 0, z: 0 },
        &c
    ));
    // looking straight at it the sky is not
    assert!(!world.check_visible_direction(
        Vec3 { x: 3 * S, y: 0, z: 0 },
        Vec3 { x: -S, y: 0, z: 0 },
        &c
    ));
    // two points on the same side of the sphere see each other
    assert!(world.check_visible_point(
        Vec3 { x: 3 * S, y: 0, z: 0 },
        Vec3 { x: 6 * S, y: 0, z: 0 },
        &c
    ));
    // two points with the sphere between them do not
    assert!(!world.check_visible_point(
        Vec3 { x: 3 * S, y: 0, z: 0 },
        Vec3 { x: -3 * S, y: 0, z: 0 },
        &c
    ));
}

#[test]
fn marching_a_translated_scene_matches_the_plain_one() {
    // translate the scene and the ray origin together; with a position-free
    // ambient light the marched colors agree exactly
    let plain = sphere(S);
    let moved = Shape::Transform(raymarch::combinators::Transform {
        object: Box::new(sphere(S)),
        transform: raymarch::combinators::Similarity {
            translation: Vec3 { x: 2 * S, y: S, z: 0 },
            rot_x: Vec3 { x: S, y: 0, z: 0 },
            rot_y: Vec3 { x: 0, y: S, z: 0 },
            rot_z: Vec3 { x: 0, y: 0, z: S },
            scale: S,
        },
    });
    let lights = vec![Light::Global(GlobalLight { color: Vec3 { x: S, y: S / 2, z: S / 4 } })];
    let c = cfg();
    let origin = Vec3 { x: 0, y: 0, z: -10 * S };
    let shifted = Vec3 { x: 2 * S, y: S, z: -10 * S };
    let dir = Vec3 { x: 0, y: 0, z: S };
    assert_eq!(
        plain.ray_march(origin, dir, &lights, 0, &c),
        moved.ray_march(shifted, dir, &lights, 0, &c)
    );
}

#[test]
fn identity_transform_is_invisible_to_the_marcher() {
    let plain = sphere(2 * S);
    let wrapped = Shape::Transform(raymarch::combinators::Transform {
        object: Box::new(sphere(2 * S)),
        transform: raymarch::combinators::Similarity {
            translation: Vec3 { x: 0, y: 0, z: 0 },
            rot_x: Vec3 { x: S, y: 0, z: 0 },
            rot_y: Vec3 { x: 0, y: S, z: 0 },
            rot_z: Vec3 { x: 0, y: 0, z: S },
            scale: S,
        },
    });
    let lights = vec![Light::Point(PointLight {
        color: Vec3 { x: S, y: S, z: S },
        position: Vec3 { x: 5 * S, y: 5 * S, z: -5 * S },
    })];
    let c = cfg();
    let origin = Vec3 { x: 0, y: 0, z: -10 * S };
    for ix in -2..3i64 {
        let dir = Vec3 { x: ix * S / 8, y: S / 16, z: S }.normalized();
        assert_eq!(
            plain.ray_march(origin, dir, &lights, 0, &c),
            wrapped.ray_march(origin, dir, &lights, 0, &c)
        );
    }
}

#[test]
fn camera_renders_row_major_pixels() {
    let camera = Camera {
        half_fov_tan: S,
        screen_width: 4,
        screen_height: 2,
        pixel_aspect: S,
        position: Vec3 { x: 0, y: 0, z: -10 * S },
    };
    let scene = sphere(2 * S);
    let lights = vec![
        Light::Directional(DirectionalLight {
            color: Vec3 { x: S, y: S, z: S },
            direction: Vec3 { x: 0, y: 0, z: S },
        }),
        Light::Global(GlobalLight { color: Vec3 { x: S / 8, y: S / 8, z: S / 8 } }),
    ];
    let c = cfg();
    let pixels = camera.render(&scene, &lights, &c);
    assert_eq!(pixels.len(), 8);
    // rendering is deterministic: the core's output does not depend on any
    // display-side processing
    let again = camera.render(&scene, &lights, &c);
    assert_eq!(pixels, again);
    // every pixel is the marched color of its own ray
    for py in 0..2i64 {
        for px in 0..4i64 {
            let dpp = 2 * camera.half_fov_tan / 4;
            let x = (px - 2) * dpp;
            let y = -(py - 1) * dpp;
            let direction = Vec3 { x, y, z: S }.normalized();
            let one = scene.ray_march(camera.position, direction, &lights, 0, &c);
            assert_eq!(pixels[(py * 4 + px) as usize], one);
        }
    }
}
