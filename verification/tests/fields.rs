//! Distance-field formulas on concrete values: primitives, unions, the
//! smooth union, and transforms.  All scalars are 16.16 fixed-point, so
//! 65536 is 1.0.

use raymarch::combinators::{MultiUnion, Similarity, SmoothUnion, Transform, Union};
use raymarch::material::Material;
use raymarch::primitives::{Cuboid, Plane, Sphere, Torus};
use raymarch::shape::Shape;
use raymarch::vec3::Vec3;

const S: i64 = 65536;

fn mat(r: i64, g: i64, b: i64) -> Material {
    Material { color: Vec3 { x: r, y: g, z: b }, reflective: 0 }
}

fn sphere(radius: i64, m: Material) -> Shape {
    Shape::Sphere(Sphere { material: m, radius })
}

fn identity_similarity(translation: Vec3) -> Similarity {
    Similarity {
        translation,
        rot_x: Vec3 { x: S, y: 0, z: 0 },
        rot_y: Vec3 { x: 0, y: S, z: 0 },
        rot_z: Vec3 { x: 0, y: 0, z: S },
        scale: S,
    }
}

#[test]
fn sphere_distance_is_mag_minus_radius() {
    let s = sphere(S, mat(S, S, S));
    // |(2, 0, 0)| - 1 == 1
    assert_eq!(s.signed_distance(Vec3 { x: 2 * S, y: 0, z: 0 }), S);
    // on the surface
    assert_eq!(s.signed_distance(Vec3 { x: S, y: 0, z: 0 }), 0);
    // inside: negative
    assert_eq!(s.signed_distance(Vec3 { x: 0, y: 0, z: 0 }), -S);
    // strictly outside points report nonnegative distances
    for i in 2..20i64 {
        assert!(s.signed_distance(Vec3 { x: i * S / 2 + 1, y: i * S, z: -i * S }) >= 0);
    }
}

#[test]
fn cuboid_distance() {
    let c = Shape::Cuboid(Cuboid { material: mat(S, S, S), size: Vec3 { x: S, y: S, z: S } });
    // 2 units outside along x
    assert_eq!(c.signed_distance(Vec3 { x: 3 * S, y: 0, z: 0 }), 2 * S);
    // at the center: one unit inside
    assert_eq!(c.signed_distance(Vec3 { x: 0, y: 0, z: 0 }), -S);
    // on a face
    assert_eq!(c.signed_distance(Vec3 { x: S, y: 0, z: 0 }), 0);
}

#[test]
fn torus_distance() {
    let t = Shape::Torus(Torus { material: mat(S, S, S), radius_1: 2 * S, radius_2: S });
    // on the ring plane, 4 units out: 4 - 2 = 2 from the ring, minus tube 1
    assert_eq!(t.signed_distance(Vec3 { x: 4 * S, y: 0, z: 0 }), S);
    // at the ring circle itself: one tube radius inside
    assert_eq!(t.signed_distance(Vec3 { x: 2 * S, y: 0, z: 0 }), -S);
}

#[test]
fn plane_distance() {
    let p = Shape::Plane(Plane {
        material: mat(S, S, S),
        normal: Vec3 { x: 0, y: S, z: 0 },
        height: 10 * S,
    });
    assert_eq!(p.signed_distance(Vec3 { x: 0, y: 5 * S, z: 0 }), 15 * S);
    assert_eq!(p.signed_distance(Vec3 { x: 0, y: -10 * S, z: 0 }), 0);
    assert_eq!(p.signed_distance(Vec3 { x: 7 * S, y: -12 * S, z: 3 * S }), -2 * S);
}

#[test]
fn union_takes_the_minimum() {
    let u = Shape::Union(Union {
        object_a: Box::new(sphere(S, mat(S, 0, 0))),
        object_b: Box::new(sphere(2 * S, mat(0, S, 0))),
    });
    let p = Vec3 { x: 4 * S, y: 0, z: 0 };
    assert_eq!(u.signed_distance(p), 2 * S);
    let (d, m) = u.dist_material(p);
    assert_eq!(d, 2 * S);
    assert_eq!(m.color.y, S);
}

#[test]
fn union_tie_first_child_wins() {
    let u = Shape::Union(Union {
        object_a: Box::new(sphere(S, mat(S, 0, 0))),
        object_b: Box::new(sphere(S, mat(0, S, 0))),
    });
    let (d, m) = u.dist_material(Vec3 { x: 3 * S, y: 0, z: 0 });
    assert_eq!(d, 2 * S);
    assert_eq!(m.color.x, S);
    assert_eq!(m.color.y, 0);
}

#[test]
fn multi_union_minimum_and_tie_order() {
    let m = Shape::MultiUnion(MultiUnion {
        objects: vec![
            sphere(S, mat(S, 0, 0)),
            sphere(3 * S, mat(0, S, 0)),
            sphere(3 * S, mat(0, 0, S)),
        ],
    });
    let p = Vec3 { x: 5 * S, y: 0, z: 0 };
    assert_eq!(m.signed_distance(p), 2 * S);
    let (d, picked) = m.dist_material(p);
    assert_eq!(d, 2 * S);
    // the two larger spheres tie; the earlier one must win
    assert_eq!(picked.color.y, S);
    assert_eq!(picked.color.z, 0);
}

#[test]
fn smooth_union_far_from_seam_is_hard_union() {
    // distances differ by a full unit, the width is 0.01: no blending
    let su = Shape::SmoothUnion(SmoothUnion {
        object_a: Box::new(sphere(S, mat(S, 0, 0))),
        object_b: Box::new(sphere(2 * S, mat(0, S, 0))),
        smoothness: 655,
    });
    let p = Vec3 { x: 4 * S, y: 0, z: 0 };
    assert_eq!(su.signed_distance(p), 2 * S);
}

#[test]
fn smooth_union_within_width_of_hard_union() {
    // on the seam, with a large width, the deviation stays below the width
    for k in [655i64, 6553, 65536] {
        let su = Shape::SmoothUnion(SmoothUnion {
            object_a: Box::new(sphere(S, mat(S, 0, 0))),
            object_b: Box::new(sphere(S + k / 2, mat(0, S, 0))),
            smoothness: k,
        });
        let u = Shape::Union(Union {
            object_a: Box::new(sphere(S, mat(S, 0, 0))),
            object_b: Box::new(sphere(S + k / 2, mat(0, S, 0))),
        });
        for i in 2..10i64 {
            let p = Vec3 { x: i * S, y: i * S / 3, z: -i * S / 2 };
            let diff = su.signed_distance(p) - u.signed_distance(p);
            assert!(diff.abs() <= k, "k={} i={} diff={}", k, i, diff);
        }
    }
}

#[test]
fn transform_round_trip_matches_child_at_mapped_point() {
    // a rigid translation by (1, 0, 0)
    let t = Shape::Transform(Transform {
        object: Box::new(sphere(S, mat(S, S, S))),
        transform: identity_similarity(Vec3 { x: S, y: 0, z: 0 }),
    });
    let child = sphere(S, mat(S, S, S));
    for i in -5..6i64 {
        let p = Vec3 { x: i * S, y: 2 * S, z: -3 * S };
        let mapped = Vec3 { x: p.x - S, y: p.y, z: p.z };
        assert_eq!(t.signed_distance(p), child.signed_distance(mapped));
    }
    // 3 units out along x, the sphere center sits at x = 1
    assert_eq!(t.signed_distance(Vec3 { x: 3 * S, y: 0, z: 0 }), S);
}

#[test]
fn transform_uniform_scale_scales_distances() {
    // scale 2: the sphere of radius 1 becomes radius 2; the inverse map
    // halves coordinates and the reported distance is scaled back up
    let t = Shape::Transform(Transform {
        object: Box::new(sphere(S, mat(S, S, S))),
        transform: Similarity {
            translation: Vec3 { x: 0, y: 0, z: 0 },
            rot_x: Vec3 { x: S, y: 0, z: 0 },
            rot_y: Vec3 { x: 0, y: S, z: 0 },
            rot_z: Vec3 { x: 0, y: 0, z: S },
            scale: 2 * S,
        },
    });
    assert_eq!(t.signed_distance(Vec3 { x: 4 * S, y: 0, z: 0 }), 2 * S);
}

#[test]
fn transform_rotation_maps_axes() {
    // a quarter turn around z: the world x axis is the image of local y
    let t = Shape::Transform(Transform {
        object: Box::new(Shape::Cuboid(Cuboid {
            material: mat(S, S, S),
            size: Vec3 { x: 2 * S, y: S, z: S },
        })),
        transform: Similarity {
            translation: Vec3 { x: 0, y: 0, z: 0 },
            // local x maps to world y, local y maps to world -x
            rot_x: Vec3 { x: 0, y: S, z: 0 },
            rot_y: Vec3 { x: -S, y: 0, z: 0 },
            rot_z: Vec3 { x: 0, y: 0, z: S },
            scale: S,
        },
    });
    // along world y the box is now 2 long: surface at y = 2
    assert_eq!(t.signed_distance(Vec3 { x: 0, y: 4 * S, z: 0 }), 2 * S);
    // along world x it is 1 thick
    assert_eq!(t.signed_distance(Vec3 { x: 4 * S, y: 0, z: 0 }), 3 * S);
}

#[test]
fn material_mix_blends_both_fields() {
    let a = Material { color: Vec3 { x: 0, y: S, z: 0 }, reflective: 0 };
    let b = Material { color: Vec3 { x: S, y: 0, z: S / 2 }, reflective: S };
    let half = a.mix(b, S / 2);
    assert_eq!(half.color.x, S / 2);
    assert_eq!(half.color.y, S / 2);
    assert_eq!(half.color.z, S / 4);
    assert_eq!(half.reflective, S / 2);
    // weight 0 keeps the first, weight 1 gives the second
    assert_eq!(a.mix(b, 0).color.y, S);
    assert_eq!(a.mix(b, S).reflective, S);
}

#[test]
fn vector_operations_exact() {
    let v = Vec3 { x: 3 * S, y: 0, z: 0 };
    assert_eq!(v.mag(), 3 * S);
    assert_eq!(v.mag_sq(), 9 * S);
    let n = v.normalized();
    assert_eq!(n, Vec3 { x: S, y: 0, z: 0 });
    // 3-4-5 triangle
    let w = Vec3 { x: 3 * S, y: 4 * S, z: 0 };
    assert_eq!(w.mag(), 5 * S);
    // reflecting a downward vector off the floor normal flips it upward
    let down = Vec3 { x: 0, y: -S, z: 0 };
    let up = down.reflected(Vec3 { x: 0, y: S, z: 0 });
    assert_eq!(up, Vec3 { x: 0, y: S, z: 0 });
    // blending
    let m = Vec3 { x: 0, y: 0, z: 0 }.mix(Vec3 { x: S, y: 2 * S, z: 4 * S }, S / 2);
    assert_eq!(m, Vec3 { x: S / 2, y: S, z: 2 * S });
}
