//! The scene's primitives: planes and spheres as implicit surfaces, with
//! intersection, reflection and fixed-step positional edits.

use vstd::prelude::*;
use crate::fp::{fits, iabs, tdiv, isqrt_spec, fp_add_spec, fp_sub_spec, fp_mul_spec, fp_div_spec, fp_add, fp_sub, fp_mul, fp_div, div_trunc, isqrt, SCALE, FP_MAX};
use crate::vec3::{V3, Vec3, ov3, vec_add_spec, vec_sub_spec, vec_dot_spec, reflect_spec, vec_sub, vec_dot, reflect, lemma_product_bound};
use crate::ray::{RayS, Ray, eval_spec, bounce_spec, bounce, copy_ray, lemma_sum_update};

verus! {

/// One fixed positional step: a tenth of a unit, in raw scalar units.
pub const MOVE_STEP: i64 = 100;

/// A coefficient nudged by `delta`, left unchanged when the result would
/// not be representable.
pub open spec fn step_coeff(v: int, delta: int) -> int {
    if fits(v + delta) {
        v + delta
    } else {
        v
    }
}

fn stepped(v: i64, delta: i64) -> (r: i64)
    ensures
        r as int == step_coeff(v as int, delta as int),
{
    match fp_add(v, delta) {
        Some(x) => x,
        None => v,
    }
}

/// A plane, the zero set of `a*x + b*y + c*z + d`.
#[derive(Clone, Copy, PartialEq, Eq, Structural, Debug)]
pub struct Plane {
    pub a: i64,
    pub b: i64,
    pub c: i64,
    pub d: i64,
}

/// A sphere: centre `(x0, y0, z0)` and radius `r`.
#[derive(Clone, Copy, PartialEq, Eq, Structural, Debug)]
pub struct Sphere {
    pub x0: i64,
    pub y0: i64,
    pub z0: i64,
    pub r: i64,
}

/// The plane's constant normal direction, the coefficient vector.
pub open spec fn plane_normal_v3(p: Plane) -> V3 {
    V3 { x: p.a as int, y: p.b as int, z: p.c as int }
}

pub open spec fn sphere_center_v3(s: Sphere) -> V3 {
    V3 { x: s.x0 as int, y: s.y0 as int, z: s.z0 as int }
}

/// The view of a checked intersection result: the ray parameter of the
/// hit and the world-space hit point.
pub open spec fn opt_hit(res: Option<(i64, Vec3)>) -> Option<(int, V3)> {
    match res {
        Some((t, p)) => Some((t as int, p@)),
        None => None,
    }
}

/// Where the ray crosses the plane: `t` solves the plane equation along
/// the ray, `t = -(normal . origin + d) / (normal . direction)`. A zero
/// (or unrepresentable) denominator is a non-hit.
pub open spec fn plane_intersect_spec(p: Plane, r: RayS) -> Option<(int, V3)> {
    match vec_dot_spec(plane_normal_v3(p), r.d) {
        None => None,
        Some(dot) => match vec_dot_spec(plane_normal_v3(p), r.o) {
            None => None,
            Some(no) => match fp_add_spec(no, p.d as int) {
                None => None,
                Some(num) => match fp_div_spec(-num, dot) {
                    None => None,
                    Some(t) => match eval_spec(r, t) {
                        None => None,
                        Some(pt) => Some((t, pt)),
                    },
                },
            },
        },
    }
}

/// The plane's trace step: a miss (the ray is near-parallel within `tol`,
/// the crossing is at `t <= 0`, or an intermediate value is out of range)
/// returns the input ray unchanged; a hit returns the reflected successor
/// ray with the segment length recorded.
pub open spec fn plane_trace_spec(p: Plane, r: RayS, tol: int) -> RayS {
    if r.count < 1 {
        r
    } else {
        match vec_dot_spec(plane_normal_v3(p), r.d) {
            None => r,
            Some(dot) => if iabs(dot) <= tol {
                r
            } else {
                match plane_intersect_spec(p, r) {
                    None => r,
                    Some((t, pt)) => if t <= 0 {
                        r
                    } else {
                        match reflect_spec(r.d, plane_normal_v3(p)) {
                            None => r,
                            Some(nd) => bounce_spec(r, pt, nd, t as i64),
                        }
                    },
                }
            },
        }
    }
}

impl Plane {
    pub open spec fn wf(self) -> bool {
        fits(self.a as int) && fits(self.b as int) && fits(self.c as int) && fits(self.d as int)
    }

    /// The constant normal direction; the ray argument plays no part.
    pub fn normal(&self, _r: &Ray) -> (n: Vec3)
        ensures
            n@ == plane_normal_v3(*self),
    {
        Vec3 { x: self.a, y: self.b, z: self.c }
    }

    pub fn intersect(&self, r: &Ray) -> (res: Option<(i64, Vec3)>)
        requires
            self.wf(),
            r@.wf(),
        ensures
            opt_hit(res) == plane_intersect_spec(*self, r@),
    {
        let n = Vec3 { x: self.a, y: self.b, z: self.c };
        let dot: i64 = match vec_dot(n, r.d) {
            Some(v) => v,
            None => return None,
        };
        let no: i64 = match vec_dot(n, r.o) {
            Some(v) => v,
            None => return None,
        };
        let num: i64 = match fp_add(no, self.d) {
            Some(v) => v,
            None => return None,
        };
        let t: i64 = match fp_div(-num, dot) {
            Some(v) => v,
            None => return None,
        };
        match r.eval(t) {
            Some(pt) => Some((t, pt)),
            None => None,
        }
    }

    pub fn trace(&self, r: &Ray, tol: i64) -> (nr: Ray)
        requires
            self.wf(),
            r@.wf(),
            0 <= tol,
        ensures
            nr@ == plane_trace_spec(*self, r@, tol as int),
    {
        if r.count < 1 {
            return copy_ray(r);
        }
        let n = Vec3 { x: self.a, y: self.b, z: self.c };
        let dot: i64 = match vec_dot(n, r.d) {
            Some(v) => v,
            None => return copy_ray(r),
        };
        let adot: i64 = if dot < 0 { -dot } else { dot };
        if adot <= tol {
            return copy_ray(r);
        }
        let hit = match self.intersect(r) {
            Some(v) => v,
            None => return copy_ray(r),
        };
        let (t, pt): (i64, Vec3) = hit;
        if t <= 0 {
            return copy_ray(r);
        }
        let nd: Vec3 = match reflect(r.d, n) {
            Some(v) => v,
            None => return copy_ray(r),
        };
        bounce(r, pt, nd, t)
    }

    /// Every axis step on a plane adjusts the offset coefficient `d`, a
    /// deliberate part of the keyboard-editing behaviour.
    pub fn move_xn(&mut self)
        ensures
            final(self).d as int == step_coeff(old(self).d as int, -(MOVE_STEP as int)),
            final(self).a == old(self).a,
            final(self).b == old(self).b,
            final(self).c == old(self).c,
    {
        self.d = stepped(self.d, -MOVE_STEP);
    }

    pub fn move_xp(&mut self)
        ensures
            final(self).d as int == step_coeff(old(self).d as int, MOVE_STEP as int),
            final(self).a == old(self).a,
            final(self).b == old(self).b,
            final(self).c == old(self).c,
    {
        self.d = stepped(self.d, MOVE_STEP);
    }

    pub fn move_yn(&mut self)
        ensures
            final(self).d as int == step_coeff(old(self).d as int, -(MOVE_STEP as int)),
            final(self).a == old(self).a,
            final(self).b == old(self).b,
            final(self).c == old(self).c,
    {
        self.d = stepped(self.d, -MOVE_STEP);
    }

    pub fn move_yp(&mut self)
        ensures
            final(self).d as int == step_coeff(old(self).d as int, MOVE_STEP as int),
            final(self).a == old(self).a,
            final(self).b == old(self).b,
            final(self).c == old(self).c,
    {
        self.d = stepped(self.d, MOVE_STEP);
    }

    pub fn move_zn(&mut self)
        ensures
            final(self).d as int == step_coeff(old(self).d as int, -(MOVE_STEP as int)),
            final(self).a == old(self).a,
            final(self).b == old(self).b,
            final(self).c == old(self).c,
    {
        self.d = stepped(self.d, -MOVE_STEP);
    }

    pub fn move_zp(&mut self)
        ensures
            final(self).d as int == step_coeff(old(self).d as int, MOVE_STEP as int),
            final(self).a == old(self).a,
            final(self).b == old(self).b,
            final(self).c == old(self).c,
    {
        self.d = stepped(self.d, MOVE_STEP);
    }

    /// The defining position, for diagnostics: the offset coefficient on
    /// every axis.
    pub fn get_location(&self) -> (loc: (i64, i64, i64))
        ensures
            loc == (self.d, self.d, self.d),
    {
        (self.d, self.d, self.d)
    }
}

/// The quadratic `qa*t^2 + qb*t + qc = 0` for the ray against the sphere,
/// in checked fixed-point steps.
pub open spec fn sphere_quad_spec(s: Sphere, r: RayS) -> Option<(int, int, int)> {
    match vec_sub_spec(r.o, sphere_center_v3(s)) {
        None => None,
        Some(oc) => match vec_dot_spec(r.d, r.d) {
            None => None,
            Some(qa) => match vec_dot_spec(r.d, oc) {
                None => None,
                Some(db) => match fp_add_spec(db, db) {
                    None => None,
                    Some(qb) => match vec_dot_spec(oc, oc) {
                        None => None,
                        Some(c1) => match fp_mul_spec(s.r as int, s.r as int) {
                            None => None,
                            Some(r2) => match fp_sub_spec(c1, r2) {
                                None => None,
                                Some(qc) => Some((qa, qb, qc)),
                            },
                        },
                    },
                },
            },
        },
    }
}

/// Where the ray crosses the sphere. A negative discriminant is a
/// non-hit; with two real roots the larger one is selected.
pub open spec fn sphere_intersect_spec(s: Sphere, r: RayS) -> Option<(int, V3)> {
    match sphere_quad_spec(s, r) {
        None => None,
        Some((qa, qb, qc)) => {
            let disc = qb * qb - 4 * (qa * qc);
            if disc < 0 {
                None
            } else if qa == 0 {
                None
            } else {
                let sq = isqrt_spec(disc);
                let t = tdiv((sq - qb) * (SCALE as int), 2 * qa);
                if !fits(t) {
                    None
                } else {
                    match eval_spec(r, t) {
                        None => None,
                        Some(pt) => Some((t, pt)),
                    }
                }
            }
        },
    }
}

/// The sphere's trace step: analogous to the plane's, with the outward
/// normal taken from the centre to the hit point.
pub open spec fn sphere_trace_spec(s: Sphere, r: RayS) -> RayS {
    if r.count < 1 {
        r
    } else {
        match sphere_intersect_spec(s, r) {
            None => r,
            Some((t, pt)) => if t <= 0 {
                r
            } else {
                match vec_sub_spec(pt, sphere_center_v3(s)) {
                    None => r,
                    Some(n) => match reflect_spec(r.d, n) {
                        None => r,
                        Some(nd) => bounce_spec(r, pt, nd, t as i64),
                    },
                }
            },
        }
    }
}

impl Sphere {
    pub open spec fn wf(self) -> bool {
        fits(self.x0 as int) && fits(self.y0 as int) && fits(self.z0 as int) && fits(self.r as int)
    }

    pub fn intersect(&self, r: &Ray) -> (res: Option<(i64, Vec3)>)
        requires
            self.wf(),
            r@.wf(),
        ensures
            opt_hit(res) == sphere_intersect_spec(*self, r@),
    {
        let center = Vec3 { x: self.x0, y: self.y0, z: self.z0 };
        let oc: Vec3 = match vec_sub(r.o, center) {
            Some(v) => v,
            None => return None,
        };
        let qa: i64 = match vec_dot(r.d, r.d) {
            Some(v) => v,
            None => return None,
        };
        let db: i64 = match vec_dot(r.d, oc) {
            Some(v) => v,
            None => return None,
        };
        let qb: i64 = match fp_add(db, db) {
            Some(v) => v,
            None => return None,
        };
        let c1: i64 = match vec_dot(oc, oc) {
            Some(v) => v,
            None => return None,
        };
        let r2: i64 = match fp_mul(self.r, self.r) {
            Some(v) => v,
            None => return None,
        };
        let qc: i64 = match fp_sub(c1, r2) {
            Some(v) => v,
            None => return None,
        };
        let wqa: i128 = qa as i128;
        let wqb: i128 = qb as i128;
        let wqc: i128 = qc as i128;
        proof {
            lemma_product_bound(wqb as int, wqb as int);
            lemma_product_bound(wqa as int, wqc as int);
        }
        let disc: i128 = wqb * wqb - 4 * (wqa * wqc);
        if disc < 0 {
            return None;
        }
        if qa == 0 {
            return None;
        }
        let squ: u128 = isqrt(disc as u128);
        proof {
            assert(squ as int <= 0x1_0000_0000_0000_0000int) by (nonlinear_arith)
                requires
                    (squ as int) * (squ as int) <= disc as int,
                    disc as int <= 0x5000_0000_0000_0000_0000_0000_0000_0000int,
                    squ as int >= 0;
        }
        let sq: i128 = squ as i128;
        let tnum: i128 = sq - wqb;
        proof {
            assert(tnum * (SCALE as int) <= 0x2000_0000_0000_0000_0000_0000int
                && tnum * (SCALE as int) >= -0x2000_0000_0000_0000_0000_0000int) by (nonlinear_arith)
                requires
                    -0x2_0000_0000_0000_0000int <= tnum <= 0x2_0000_0000_0000_0000int,
                    SCALE as int == 1000;
        }
        let tq: i128 = div_trunc(tnum * (SCALE as i128), 2 * wqa);
        proof {
            vstd::arithmetic::div_mod::lemma_div_nonincreasing(
                iabs((tnum * (SCALE as i128)) as int),
                iabs((2 * wqa) as int),
            );
            vstd::arithmetic::div_mod::lemma_div_pos_is_pos(
                iabs((tnum * (SCALE as i128)) as int),
                iabs((2 * wqa) as int),
            );
        }
        if tq < -(FP_MAX as i128) || tq > FP_MAX as i128 {
            return None;
        }
        let t: i64 = tq as i64;
        match r.eval(t) {
            Some(pt) => Some((t, pt)),
            None => None,
        }
    }

    /// The outward normal at the hit point: the vector from the centre to
    /// the intersection.
    pub fn normal(&self, r: &Ray) -> (n: Option<Vec3>)
        requires
            self.wf(),
            r@.wf(),
        ensures
            ov3(n) == sphere_normal_spec(*self, r@),
    {
        let center = Vec3 { x: self.x0, y: self.y0, z: self.z0 };
        match self.intersect(r) {
            Some((_t, pt)) => vec_sub(pt, center),
            None => None,
        }
    }

    pub fn trace(&self, r: &Ray) -> (nr: Ray)
        requires
            self.wf(),
            r@.wf(),
        ensures
            nr@ == sphere_trace_spec(*self, r@),
    {
        if r.count < 1 {
            return copy_ray(r);
        }
        let hit = match self.intersect(r) {
            Some(v) => v,
            None => return copy_ray(r),
        };
        let (t, pt): (i64, Vec3) = hit;
        if t <= 0 {
            return copy_ray(r);
        }
        let center = Vec3 { x: self.x0, y: self.y0, z: self.z0 };
        let n: Vec3 = match vec_sub(pt, center) {
            Some(v) => v,
            None => return copy_ray(r),
        };
        let nd: Vec3 = match reflect(r.d, n) {
            Some(v) => v,
            None => return copy_ray(r),
        };
        bounce(r, pt, nd, t)
    }

    /// The step conventions mirror the keyboard controls: the negative-x
    /// edit nudges the centre toward +x, and so on for each axis.
    pub fn move_xn(&mut self)
        ensures
            final(self).x0 as int == step_coeff(old(self).x0 as int, MOVE_STEP as int),
            final(self).y0 == old(self).y0,
            final(self).z0 == old(self).z0,
            final(self).r == old(self).r,
    {
        self.x0 = stepped(self.x0, MOVE_STEP);
    }

    pub fn move_xp(&mut self)
        ensures
            final(self).x0 as int == step_coeff(old(self).x0 as int, -(MOVE_STEP as int)),
            final(self).y0 == old(self).y0,
            final(self).z0 == old(self).z0,
            final(self).r == old(self).r,
    {
        self.x0 = stepped(self.x0, -MOVE_STEP);
    }

    pub fn move_yn(&mut self)
        ensures
            final(self).y0 as int == step_coeff(old(self).y0 as int, MOVE_STEP as int),
            final(self).x0 == old(self).x0,
            final(self).z0 == old(self).z0,
            final(self).r == old(self).r,
    {
        self.y0 = stepped(self.y0, MOVE_STEP);
    }

    pub fn move_yp(&mut self)
        ensures
            final(self).y0 as int == step_coeff(old(self).y0 as int, -(MOVE_STEP as int)),
            final(self).x0 == old(self).x0,
            final(self).z0 == old(self).z0,
            final(self).r == old(self).r,
    {
        self.y0 = stepped(self.y0, -MOVE_STEP);
    }

    pub fn move_zn(&mut self)
        ensures
            final(self).z0 as int == step_coeff(old(self).z0 as int, MOVE_STEP as int),
            final(self).x0 == old(self).x0,
            final(self).y0 == old(self).y0,
            final(self).r == old(self).r,
    {
        self.z0 = stepped(self.z0, MOVE_STEP);
    }

    pub fn move_zp(&mut self)
        ensures
            final(self).z0 as int == step_coeff(old(self).z0 as int, -(MOVE_STEP as int)),
            final(self).x0 == old(self).x0,
            final(self).y0 == old(self).y0,
            final(self).r == old(self).r,
    {
        self.z0 = stepped(self.z0, -MOVE_STEP);
    }

    /// The defining position, for diagnostics: the centre.
    pub fn get_location(&self) -> (loc: (i64, i64, i64))
        ensures
            loc == (self.x0, self.y0, self.z0),
    {
        (self.x0, self.y0, self.z0)
    }
}

/// The outward normal of a sphere at the hit point of a ray.
pub open spec fn sphere_normal_spec(s: Sphere, r: RayS) -> Option<V3> {
    match sphere_intersect_spec(s, r) {
        None => None,
        Some((t, pt)) => vec_sub_spec(pt, sphere_center_v3(s)),
    }
}

/// The closed set of primitive kinds.
#[derive(Clone, Copy, PartialEq, Eq, Structural, Debug)]
pub enum Primitive {
    Plane(Plane),
    Sphere(Sphere),
}

/// An axis of a positional edit.
#[derive(Clone, Copy, PartialEq, Eq, Structural, Debug)]
pub enum Axis {
    X,
    Y,
    Z,
}

/// The sense of a positional edit.
#[derive(Clone, Copy, PartialEq, Eq, Structural, Debug)]
pub enum StepDir {
    Decrease,
    Increase,
}

/// For a plane, both senses act on the offset coefficient `d`.
pub open spec fn plane_step_delta(dir: StepDir) -> int {
    match dir {
        StepDir::Decrease => -(MOVE_STEP as int),
        StepDir::Increase => MOVE_STEP as int,
    }
}

/// For a sphere, the decrease key nudges the centre coordinate upward and
/// the increase key downward: the step conventions of the keyboard
/// controls.
pub open spec fn sphere_step_delta(dir: StepDir) -> int {
    match dir {
        StepDir::Decrease => MOVE_STEP as int,
        StepDir::Increase => -(MOVE_STEP as int),
    }
}

/// The primitive after one positional edit.
pub open spec fn prim_moved(p: Primitive, axis: Axis, dir: StepDir) -> Primitive {
    match p {
        Primitive::Plane(pl) => Primitive::Plane(
            Plane { d: step_coeff(pl.d as int, plane_step_delta(dir)) as i64, ..pl },
        ),
        Primitive::Sphere(s) => match axis {
            Axis::X => Primitive::Sphere(
                Sphere { x0: step_coeff(s.x0 as int, sphere_step_delta(dir)) as i64, ..s },
            ),
            Axis::Y => Primitive::Sphere(
                Sphere { y0: step_coeff(s.y0 as int, sphere_step_delta(dir)) as i64, ..s },
            ),
            Axis::Z => Primitive::Sphere(
                Sphere { z0: step_coeff(s.z0 as int, sphere_step_delta(dir)) as i64, ..s },
            ),
        },
    }
}

/// One trace step of a primitive: its reflected successor ray on a hit,
/// the input ray itself on a miss. Only the plane consults the tolerance.
pub open spec fn prim_trace_spec(p: Primitive, r: RayS, tol: int) -> RayS {
    match p {
        Primitive::Plane(pl) => plane_trace_spec(pl, r, tol),
        Primitive::Sphere(s) => sphere_trace_spec(s, r),
    }
}

/// The defining position a primitive reports.
pub open spec fn prim_location_spec(p: Primitive) -> (i64, i64, i64) {
    match p {
        Primitive::Plane(pl) => (pl.d, pl.d, pl.d),
        Primitive::Sphere(s) => (s.x0, s.y0, s.z0),
    }
}

impl Primitive {
    pub open spec fn wf(self) -> bool {
        match self {
            Primitive::Plane(p) => p.wf(),
            Primitive::Sphere(s) => s.wf(),
        }
    }

    pub fn trace(&self, r: &Ray, tol: i64) -> (nr: Ray)
        requires
            self.wf(),
            r@.wf(),
            0 <= tol,
        ensures
            nr@ == prim_trace_spec(*self, r@, tol as int),
    {
        match self {
            Primitive::Plane(p) => p.trace(r, tol),
            Primitive::Sphere(s) => s.trace(r),
        }
    }

    pub fn get_location(&self) -> (loc: (i64, i64, i64))
        ensures
            loc == prim_location_spec(*self),
    {
        match self {
            Primitive::Plane(p) => p.get_location(),
            Primitive::Sphere(s) => s.get_location(),
        }
    }

    /// One positional edit, by axis and sense.
    pub fn step(&mut self, axis: Axis, dir: StepDir)
        ensures
            *final(self) == prim_moved(*old(self), axis, dir),
    {
        match *self {
            Primitive::Plane(mut p) => {
                match dir {
                    StepDir::Decrease => p.move_xn(),
                    StepDir::Increase => p.move_xp(),
                }
                *self = Primitive::Plane(p);
            },
            Primitive::Sphere(mut s) => {
                match (axis, dir) {
                    (Axis::X, StepDir::Decrease) => s.move_xn(),
                    (Axis::X, StepDir::Increase) => s.move_xp(),
                    (Axis::Y, StepDir::Decrease) => s.move_yn(),
                    (Axis::Y, StepDir::Increase) => s.move_yp(),
                    (Axis::Z, StepDir::Decrease) => s.move_zn(),
                    (Axis::Z, StepDir::Increase) => s.move_zp(),
                }
                *self = Primitive::Sphere(s);
            },
        }
    }
}

/// A recorded bounce of a well-formed ray yields a well-formed ray with
/// one less remaining bounce, whose accumulated path length has grown by
/// exactly the recorded segment.
pub proof fn lemma_bounce_wf(r: RayS, pt: V3, nd: V3, t: i64)
    requires
        r.wf(),
        1 <= r.count,
        pt.wf(),
        nd.wf(),
        0 < t <= FP_MAX,
    ensures
        bounce_spec(r, pt, nd, t).wf(),
        bounce_spec(r, pt, nd, t).count == r.count - 1,
        bounce_spec(r, pt, nd, t).total() == r.total() + t,
{
    let nr = bounce_spec(r, pt, nd, t);
    let idx = r.distances.len() - r.count;
    assert(r.distances[idx] == 0);
    lemma_sum_update(r.distances, idx, t);
    assert forall|i: int| 0 <= i < nr.distances.len() implies 0 <= #[trigger] nr.distances[i]
        <= FP_MAX by {
        if i != idx {
            assert(nr.distances[i] == r.distances[i]);
        }
    }
    assert forall|i: int|
        nr.distances.len() - nr.count <= i < nr.distances.len() implies #[trigger] nr.distances[i]
        == 0 by {
        assert(i > idx);
        assert(nr.distances[i] == r.distances[i]);
    }
}

/// A plane's trace step either returns the ray unchanged or a well-formed
/// successor with one less remaining bounce.
pub proof fn lemma_plane_trace_props(p: Plane, r: RayS, tol: int)
    requires
        r.wf(),
    ensures
        plane_trace_spec(p, r, tol) == r || (plane_trace_spec(p, r, tol).wf()
            && plane_trace_spec(p, r, tol).count == r.count - 1
            && plane_trace_spec(p, r, tol).total() > r.total()),
{
    let nr = plane_trace_spec(p, r, tol);
    if r.count >= 1 {
        match vec_dot_spec(plane_normal_v3(p), r.d) {
            None => {},
            Some(dot) => {
                if iabs(dot) > tol {
                    match plane_intersect_spec(p, r) {
                        None => {},
                        Some((t, pt)) => {
                            if t > 0 {
                                match reflect_spec(r.d, plane_normal_v3(p)) {
                                    None => {},
                                    Some(nd) => {
                                        lemma_bounce_wf(r, pt, nd, t as i64);
                                    },
                                }
                            }
                        },
                    }
                }
            },
        }
    }
}

/// A sphere's trace step either returns the ray unchanged or a well-formed
/// successor with one less remaining bounce.
pub proof fn lemma_sphere_trace_props(s: Sphere, r: RayS)
    requires
        r.wf(),
    ensures
        sphere_trace_spec(s, r) == r || (sphere_trace_spec(s, r).wf()
            && sphere_trace_spec(s, r).count == r.count - 1
            && sphere_trace_spec(s, r).total() > r.total()),
{
    if r.count >= 1 {
        match sphere_intersect_spec(s, r) {
            None => {},
            Some((t, pt)) => {
                if t > 0 {
                    match vec_sub_spec(pt, sphere_center_v3(s)) {
                        None => {},
                        Some(n) => {
                            match reflect_spec(r.d, n) {
                                None => {},
                                Some(nd) => {
                                    lemma_bounce_wf(r, pt, nd, t as i64);
                                },
                            }
                        },
                    }
                }
            },
        }
    }
}

/// A primitive's trace step either returns the ray unchanged or a
/// well-formed successor with one less remaining bounce and a strictly
/// longer accumulated path.
pub proof fn lemma_prim_trace_props(p: Primitive, r: RayS, tol: int)
    requires
        r.wf(),
    ensures
        prim_trace_spec(p, r, tol) == r || (prim_trace_spec(p, r, tol).wf()
            && prim_trace_spec(p, r, tol).count == r.count - 1
            && prim_trace_spec(p, r, tol).total() > r.total()),
{
    match p {
        Primitive::Plane(pl) => lemma_plane_trace_props(pl, r, tol),
        Primitive::Sphere(s) => lemma_sphere_trace_props(s, r),
    }
}

} // verus!
