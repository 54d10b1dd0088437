//! The library's laws: properties of the tracing pipeline that hold for
//! all inputs, stated over the same spec functions the executable
//! contracts use.

use vstd::prelude::*;
use crate::fp::{tdiv, lemma_tdiv_zero, lemma_tdiv_mul_cancel, lemma_isqrt_unique, SCALE};
use crate::vec3::{V3, v3_sub, v3_smul, v3_dot_num, vec_add_spec, vec_scale_spec};
use crate::ray::{RayS, sum_seq};
use crate::world::{
    Plane, Sphere, plane_normal_v3, plane_trace_spec, sphere_quad_spec, sphere_intersect_spec,
    sphere_trace_spec, prim_trace_spec,
};
use crate::camera::{Camera, camera_ray_spec, lerp_i, lerp_v3, pixel_target};
use crate::tracer::{
    Config, background_spec, best_hit, best_hit_upto, trace_steps, trace_outcome, pixel_color_spec,
};
use crate::world::Primitive;

verus! {

/// A ray exactly parallel to a plane (zero inner product between the
/// plane's normal and the ray direction) is traced to itself: origin,
/// direction, budget and distance record all keep their values.
pub proof fn lemma_parallel_ray_unchanged(p: Plane, r: RayS, tol: int)
    requires
        0 <= tol,
        v3_dot_num(plane_normal_v3(p), r.d) == 0,
    ensures
        plane_trace_spec(p, r, tol) == r,
{
    lemma_tdiv_zero(SCALE as int);
}

/// For a ray that starts exactly on a sphere's surface (the quadratic's
/// constant term vanishes) and points outward (nonnegative linear term),
/// the discriminant is nonnegative, the selected larger root is `t == 0`,
/// the evaluated hit point is the ray origin itself — a point that
/// satisfies the surface equation exactly — and the trace step reports a
/// miss rather than faulting.
pub proof fn lemma_surface_outward_ray(s: Sphere, r: RayS, qa: int, qb: int, qc: int)
    requires
        r.wf(),
        sphere_quad_spec(s, r) == Some((qa, qb, qc)),
        qc == 0,
        qb >= 0,
        qa != 0,
    ensures
        qb * qb - 4 * (qa * qc) >= 0,
        sphere_intersect_spec(s, r) == Some((0int, r.o)),
        sphere_trace_spec(s, r) == r,
{
    let disc = qb * qb - 4 * (qa * qc);
    assert(qa * qc == 0) by (nonlinear_arith)
        requires qc == 0;
    assert(disc == qb * qb);
    assert(qb * qb >= 0) by (nonlinear_arith);
    assert(qb * qb < (qb + 1) * (qb + 1)) by (nonlinear_arith)
        requires qb >= 0;
    lemma_isqrt_unique(disc, qb);
    lemma_tdiv_zero(2 * qa);
    assert((qb - qb) * (SCALE as int) == 0);
    assert(tdiv((qb - qb) * (SCALE as int), 2 * qa) == 0);
    lemma_tdiv_zero(SCALE as int);
    assert(vec_scale_spec(r.d, 0) == Some(V3 { x: 0, y: 0, z: 0 })) by {
        assert(r.d.x * 0 == 0);
        assert(r.d.y * 0 == 0);
        assert(r.d.z * 0 == 0);
    }
    assert(vec_add_spec(r.o, V3 { x: 0, y: 0, z: 0 }) == Some(r.o));
}

/// One squared coordinate of the mirror formula, expanded.
proof fn lemma_mirror_square(a: int, b: int, p: int, q: int)
    ensures
        (a * p - b * (2 * q)) * (a * p - b * (2 * q)) == (a * a) * (p * p) - 4 * ((a * b) * (p
            * q)) + 4 * ((b * b) * (q * q)),
{
    let x = a * p;
    let y = b * (2 * q);
    assert((x - y) * (x - y) == x * x - 2 * (x * y) + y * y) by (nonlinear_arith);
    assert((a * p) * (a * p) == (a * a) * (p * p)) by (nonlinear_arith);
    assert((a * p) * (b * (2 * q)) == 2 * ((a * b) * (p * q))) by (nonlinear_arith);
    assert((b * (2 * q)) * (b * (2 * q)) == 4 * ((b * b) * (q * q))) by (nonlinear_arith);
}

/// The mirror formula is norm-preserving: in exact arithmetic, scaling
/// the incoming direction by `m = n . n` and subtracting `2 (d . n) n`
/// leaves a direction whose squared length is exactly `|d|^2 * m^2` —
/// the reflected direction has the length of the incoming one, up to the
/// common factor `m`. (The executable reflection rounds each fixed-point
/// step; this law is about the formula those steps compute.)
pub proof fn lemma_reflect_norm_sq(d: V3, n: V3)
    ensures
        ({
            let m = v3_dot_num(n, n);
            let k = v3_dot_num(d, n);
            let e = v3_sub(v3_smul(d, m), v3_smul(n, 2 * k));
            v3_dot_num(e, e) == v3_dot_num(d, d) * (m * m)
        }),
{
    let dx = d.x;
    let dy = d.y;
    let dz = d.z;
    let nx = n.x;
    let ny = n.y;
    let nz = n.z;
    let m = v3_dot_num(n, n);
    let k = v3_dot_num(d, n);
    let e = v3_sub(v3_smul(d, m), v3_smul(n, 2 * k));
    let ex = e.x;
    let ey = e.y;
    let ez = e.z;
    assert(ex == dx * m - nx * (2 * k));
    assert(ey == dy * m - ny * (2 * k));
    assert(ez == dz * m - nz * (2 * k));
    // each squared coordinate of the reflected direction, expanded
    lemma_mirror_square(dx, nx, m, k);
    lemma_mirror_square(dy, ny, m, k);
    lemma_mirror_square(dz, nz, m, k);
    assert(ex * ex == (dx * m - nx * (2 * k)) * (dx * m - nx * (2 * k)));
    assert(ey * ey == (dy * m - ny * (2 * k)) * (dy * m - ny * (2 * k)));
    assert(ez * ez == (dz * m - nz * (2 * k)) * (dz * m - nz * (2 * k)));
    // the cross terms collapse against the squared-normal terms
    assert((dx * nx) * (m * k) + (dy * ny) * (m * k) + (dz * nz) * (m * k) == k * (m
        * k)) by (nonlinear_arith)
        requires k == dx * nx + dy * ny + dz * nz;
    assert((nx * nx) * (k * k) + (ny * ny) * (k * k) + (nz * nz) * (k * k) == m * (k
        * k)) by (nonlinear_arith)
        requires m == nx * nx + ny * ny + nz * nz;
    assert(m * (k * k) == k * (m * k)) by (nonlinear_arith);
    assert((dx * dx) * (m * m) + (dy * dy) * (m * m) + (dz * dz) * (m * m) == (dx * dx + dy * dy
        + dz * dz) * (m * m)) by (nonlinear_arith);
    assert(v3_dot_num(e, e) == ex * ex + ey * ey + ez * ez);
    assert(v3_dot_num(d, d) == dx * dx + dy * dy + dz * dz);
}

/// The bounce loop visits at most `fuel + 1` states, for any scene, any
/// ray and any tolerance — driven with `fuel` equal to the ray's budget,
/// at most `budget + 1` trace states, even for a ray trapped between two
/// mirror planes.
pub proof fn lemma_trace_terminates(objs: Seq<Primitive>, r: RayS, tol: int, fuel: nat)
    ensures
        trace_steps(objs, r, tol, fuel) <= fuel + 1,
    decreases fuel,
{
    if r.count >= 1 {
        match best_hit(objs, r, tol) {
            None => {},
            Some(b) => {
                if b.count >= 1 && fuel > 0 {
                    lemma_trace_terminates(objs, b, tol, (fuel - 1) as nat);
                }
            },
        }
    }
}

/// Nearest-hit selection: when any primitive reports a hit, the winner's
/// accumulated path length is least among all of them; when none does,
/// every primitive's trace step left the ray unchanged.
pub proof fn lemma_best_hit_minimal(objs: Seq<Primitive>, r: RayS, tol: int, n: int)
    requires
        0 <= n <= objs.len(),
    ensures
        match best_hit_upto(objs, r, tol, n) {
            Some(b) => forall|k: int|
                0 <= k < n && (#[trigger] prim_trace_spec(objs[k], r, tol)).count != r.count
                    ==> sum_seq(b.distances) <= sum_seq(prim_trace_spec(objs[k], r, tol).distances),
            None => forall|k: int|
                0 <= k < n ==> (#[trigger] prim_trace_spec(objs[k], r, tol)).count == r.count,
        },
    decreases n,
{
    if n > 0 {
        lemma_best_hit_minimal(objs, r, tol, n - 1);
    }
}

/// Interpolation endpoints: at `k == 0` the left value, at `k == n` the
/// right value, exactly.
pub proof fn lemma_lerp_ends(a: V3, b: V3, n: int)
    requires
        1 <= n,
    ensures
        lerp_v3(a, b, 0, n) == a,
        lerp_v3(a, b, n, n) == b,
{
    lemma_tdiv_zero(n);
    assert((b.x - a.x) * 0 == 0);
    assert((b.y - a.y) * 0 == 0);
    assert((b.z - a.z) * 0 == 0);
    lemma_tdiv_mul_cancel(b.x - a.x, n);
    lemma_tdiv_mul_cancel(b.y - a.y, n);
    lemma_tdiv_mul_cancel(b.z - a.z, n);
    assert(lerp_i(a.x, b.x, n, n) == b.x);
    assert(lerp_i(a.y, b.y, n, n) == b.y);
    assert(lerp_i(a.z, b.z, n, n) == b.z);
}

/// The corner pixels' rays reproduce the four configured corner
/// directions exactly: each direction is the corner point minus the eye.
pub proof fn lemma_corner_rays(cam: Camera, w: int, h: int, max: int)
    requires
        2 <= w,
        2 <= h,
    ensures
        camera_ray_spec(cam, 0, 0, w, h, max).d == v3_sub(cam.ul@, cam.origin@),
        camera_ray_spec(cam, w - 1, 0, w, h, max).d == v3_sub(cam.ur@, cam.origin@),
        camera_ray_spec(cam, 0, h - 1, w, h, max).d == v3_sub(cam.ll@, cam.origin@),
        camera_ray_spec(cam, w - 1, h - 1, w, h, max).d == v3_sub(cam.lr@, cam.origin@),
{
    lemma_lerp_ends(cam.ul@, cam.ll@, h - 1);
    lemma_lerp_ends(cam.ur@, cam.lr@, h - 1);
    let top_l = lerp_v3(cam.ul@, cam.ll@, 0, h - 1);
    let top_r = lerp_v3(cam.ur@, cam.lr@, 0, h - 1);
    lemma_lerp_ends(top_l, top_r, w - 1);
    let bot_l = lerp_v3(cam.ul@, cam.ll@, h - 1, h - 1);
    let bot_r = lerp_v3(cam.ur@, cam.lr@, h - 1, h - 1);
    lemma_lerp_ends(bot_l, bot_r, w - 1);
    assert(pixel_target(cam, 0, 0, w, h) == cam.ul@);
    assert(pixel_target(cam, w - 1, 0, w, h) == cam.ur@);
    assert(pixel_target(cam, 0, h - 1, w, h) == cam.ll@);
    assert(pixel_target(cam, w - 1, h - 1, w, h) == cam.lr@);
}

/// Against an empty scene, every pixel of every camera takes the fixed
/// background colour.
pub proof fn lemma_empty_scene_background(cam: Camera, cfg: Config, i: int, j: int)
    ensures
        pixel_color_spec(Seq::<Primitive>::empty(), cam, cfg, i, j) == background_spec(),
{
    let r = camera_ray_spec(
        cam,
        i,
        j,
        cfg.width as int,
        cfg.height as int,
        cfg.max_bounces as int,
    );
    assert(r.count == cfg.max_bounces as int);
    assert(r.distances.len() == cfg.max_bounces as nat);
    assert(best_hit(Seq::<Primitive>::empty(), r, cfg.tol as int) is None);
    if r.count >= 1 {
        assert(r.fresh());
        assert(trace_outcome(Seq::<Primitive>::empty(), r, cfg.tol as int)
            == background_spec());
    }
}

} // verus!
