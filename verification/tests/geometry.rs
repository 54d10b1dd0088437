use toy_tracer::vec3::{Vec3, vec_add, vec_sub, vec_dot, reflect};
use toy_tracer::ray::{Ray, create_ray};
use toy_tracer::world::{Plane, Sphere, Primitive, Axis, StepDir};
use toy_tracer::scene::Scene;

fn v(x: i64, y: i64, z: i64) -> Vec3 {
    Vec3 { x, y, z }
}

#[test]
fn vector_sums() {
    assert_eq!(vec_add(v(1, 2, 3), v(4, 5, 6)), Some(v(5, 7, 9)));
    assert_eq!(vec_sub(v(1, 2, 3), v(4, 5, 6)), Some(v(-3, -3, -3)));
}

#[test]
fn dot_product_rescales() {
    // (1,2,3) . (4,5,6) == 32.0
    assert_eq!(vec_dot(v(1000, 2000, 3000), v(4000, 5000, 6000)), Some(32000));
}

#[test]
fn reflection_flips_the_normal_component() {
    // d straight into the mirror: reflected straight back
    assert_eq!(reflect(v(0, 0, 1000), v(0, 0, 500)), Some(v(0, 0, -1000)));
    // a grazing direction keeps its tangential part; |d'| == |d|
    assert_eq!(reflect(v(1000, 0, -1000), v(0, 0, 1000)), Some(v(1000, 0, 1000)));
}

#[test]
fn reflection_degenerate_normal() {
    assert_eq!(reflect(v(1000, 0, 0), v(0, 0, 0)), None);
}

#[test]
fn create_ray_fields() {
    let r = create_ray(v(0, 0, 0), v(1000, 2000, 3000), 5);
    assert_eq!(r.d, v(1000, 2000, 3000));
    assert_eq!(r.count, 5);
    assert_eq!(r.distances, vec![0i64; 5]);
    assert_eq!(r.total_distance(), 0);
}

#[test]
fn eval_moves_along_the_ray() {
    let r = create_ray(v(0, 0, 0), v(1000, 2000, 3000), 5);
    assert_eq!(r.eval(2000), Some(v(2000, 4000, 6000)));
}

#[test]
fn parallel_ray_is_returned_unchanged() {
    // ray direction orthogonal to the plane's normal: dot product is zero
    let p = Plane { a: 0, b: 0, c: 1000, d: -5000 };
    let r = create_ray(v(0, 0, 0), v(1000, 0, 0), 5);
    let nr = p.trace(&r, 0);
    assert_eq!(nr.o, r.o);
    assert_eq!(nr.d, r.d);
    assert_eq!(nr.count, r.count);
    assert_eq!(nr.distances, r.distances);
}

#[test]
fn plane_hit_reflects_and_records() {
    // the XY plane, seen from (0,0,-5) looking along +z: the crossing is
    // at t == 5, the hit point the world origin, and the reflection flips
    // the z sign
    let p = Plane { a: 0, b: 0, c: 1000, d: 0 };
    let r = create_ray(v(0, 0, -5000), v(0, 0, -4000), 5);
    let (t, pt) = p.intersect(&r).unwrap();
    assert_eq!(t, 5000);
    assert_eq!(pt, v(0, 0, 0));
    let nr = p.trace(&r, 0);
    assert_eq!(nr.count, 4);
    assert_eq!(nr.o, v(0, 0, 0));
    assert_eq!(nr.d, v(0, 0, -1000));
    assert_eq!(nr.distances, vec![5000, 0, 0, 0, 0]);
    assert_eq!(nr.total_distance(), 5000);
}

#[test]
fn plane_offset_shifts_the_crossing() {
    // the plane z == 5 from the same ray: five more units of travel
    let p = Plane { a: 0, b: 0, c: 1000, d: -5000 };
    let r = create_ray(v(0, 0, -5000), v(0, 0, -4000), 5);
    let (t, pt) = p.intersect(&r).unwrap();
    assert_eq!(t, 10000);
    assert_eq!(pt, v(0, 0, 5000));
}

#[test]
fn plane_crossing_behind_is_a_miss() {
    // the plane z == -5 lies behind a ray starting at z == -3 going +z
    let p = Plane { a: 0, b: 0, c: 1000, d: 5000 };
    let r = create_ray(v(0, 0, -3000), v(0, 0, -2000), 5);
    let (t, _pt) = p.intersect(&r).unwrap();
    assert_eq!(t, -2000);
    let nr = p.trace(&r, 0);
    assert_eq!(nr.count, 5);
    assert_eq!(nr.o, r.o);
}

#[test]
fn sphere_two_roots_larger_selected() {
    // unit sphere at the origin, ray from (0,0,-5) aimed at the origin:
    // roots t = 0.8 and t = 1.2; the larger is taken, so the hit point is
    // the far side, z == 1.0
    let s = Sphere { x0: 0, y0: 0, z0: 0, r: 1000 };
    let r = create_ray(v(0, 0, -5000), v(0, 0, 0), 5);
    let (t, pt) = s.intersect(&r).unwrap();
    assert_eq!(t, 1200);
    assert_eq!(pt, v(0, 0, 1000));
    let nr = s.trace(&r);
    assert_eq!(nr.count, 4);
    assert_eq!(nr.o, v(0, 0, 1000));
    assert_eq!(nr.d, v(0, 0, -5000));
    assert_eq!(nr.distances, vec![1200, 0, 0, 0, 0]);
}

#[test]
fn sphere_surface_outward_ray() {
    // origin exactly on the surface, pointing outward: the discriminant
    // is nonnegative, the larger root is t == 0, and a t <= 0 crossing is
    // reported as a miss
    let s = Sphere { x0: 0, y0: 0, z0: 0, r: 1000 };
    let r = create_ray(v(0, 0, 1000), v(0, 0, 2000), 5);
    let (t, pt) = s.intersect(&r).unwrap();
    assert_eq!(t, 0);
    assert_eq!(pt, v(0, 0, 1000));
    let nr = s.trace(&r);
    assert_eq!(nr.count, 5);
    assert_eq!(nr.o, r.o);
    assert_eq!(nr.d, r.d);
}

#[test]
fn sphere_negative_discriminant_is_a_miss() {
    let s = Sphere { x0: 0, y0: 0, z0: 10000, r: 1000 };
    let r = create_ray(v(0, 0, 0), v(1000, 0, 0), 5);
    assert_eq!(s.intersect(&r), None);
    let nr = s.trace(&r);
    assert_eq!(nr.count, 5);
}

#[test]
fn sphere_normal_points_from_centre_to_hit() {
    let s = Sphere { x0: 0, y0: 0, z0: 0, r: 1000 };
    let r = create_ray(v(0, 0, -5000), v(0, 0, 0), 5);
    assert_eq!(s.normal(&r), Some(v(0, 0, 1000)));
}

#[test]
fn plane_moves_act_on_the_offset() {
    let mut p = Plane { a: 0, b: 0, c: 1000, d: -5000 };
    p.move_xn();
    assert_eq!(p.d, -5100);
    p.move_yp();
    assert_eq!(p.d, -5000);
    p.move_zp();
    assert_eq!(p.d, -4900);
    assert_eq!((p.a, p.b, p.c), (0, 0, 1000));
    assert_eq!(p.get_location(), (-4900, -4900, -4900));
}

#[test]
fn sphere_moves_follow_the_key_conventions() {
    let mut s = Sphere { x0: 0, y0: 0, z0: 0, r: 1000 };
    s.move_xn();
    assert_eq!(s.x0, 100);
    s.move_xp();
    s.move_xp();
    assert_eq!(s.x0, -100);
    s.move_yn();
    assert_eq!(s.y0, 100);
    s.move_zp();
    assert_eq!(s.z0, -100);
    assert_eq!(s.r, 1000);
    assert_eq!(s.get_location(), (-100, 100, -100));
}

#[test]
fn scene_mutate_edits_one_primitive() {
    let mut scene = Scene::new();
    scene.add(Primitive::Sphere(Sphere { x0: 0, y0: 0, z0: 0, r: 1000 }));
    scene.add(Primitive::Plane(Plane { a: 0, b: 0, c: 1000, d: 0 }));
    assert_eq!(scene.len(), 2);
    scene.mutate(0, Axis::X, StepDir::Increase);
    assert_eq!(scene.get(0).get_location(), (-100, 0, 0));
    scene.mutate(1, Axis::Y, StepDir::Decrease);
    assert_eq!(scene.get(1).get_location(), (-100, -100, -100));
    assert_eq!(scene.get(0).get_location(), (-100, 0, 0));
}
