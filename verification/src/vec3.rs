//! Three-component vectors of fixed-point scalars, with checked arithmetic.

use vstd::prelude::*;
use crate::fp::{fits, tdiv, oi, fp_add_spec, fp_mul_spec, fp_div_spec, fp_add, fp_sub, fp_mul, fp_div, div_trunc, SCALE, FP_MAX};

verus! {

/// Mathematical view of a vector: unbounded integer coordinates, in raw
/// fixed-point units.
pub ghost struct V3 {
    pub x: int,
    pub y: int,
    pub z: int,
}

impl V3 {
    /// Every coordinate is a representable raw scalar.
    pub open spec fn wf(self) -> bool {
        fits(self.x) && fits(self.y) && fits(self.z)
    }
}

/// A vector of three fixed-point scalars.
#[derive(Clone, Copy, PartialEq, Eq, Structural, Debug)]
pub struct Vec3 {
    pub x: i64,
    pub y: i64,
    pub z: i64,
}

impl View for Vec3 {
    type V = V3;

    open spec fn view(&self) -> V3 {
        V3 { x: self.x as int, y: self.y as int, z: self.z as int }
    }
}

impl Vec3 {
    pub open spec fn wf(self) -> bool {
        self@.wf()
    }

    pub fn new(x: i64, y: i64, z: i64) -> (v: Vec3)
        ensures
            v@ == (V3 { x: x as int, y: y as int, z: z as int }),
    {
        Vec3 { x, y, z }
    }
}

/// Exact (unrounded, unbounded) vector sum.
pub open spec fn v3_add(a: V3, b: V3) -> V3 {
    V3 { x: a.x + b.x, y: a.y + b.y, z: a.z + b.z }
}

/// Exact vector difference.
pub open spec fn v3_sub(a: V3, b: V3) -> V3 {
    V3 { x: a.x - b.x, y: a.y - b.y, z: a.z - b.z }
}

/// Exact scaling by an integer, without the fixed-point rescale.
pub open spec fn v3_smul(a: V3, k: int) -> V3 {
    V3 { x: a.x * k, y: a.y * k, z: a.z * k }
}

/// The exact inner product of the raw coordinates. In fixed-point terms it
/// carries the value `dot(a, b) * SCALE * SCALE`.
pub open spec fn v3_dot_num(a: V3, b: V3) -> int {
    a.x * b.x + a.y * b.y + a.z * b.z
}

/// The view of a checked vector result.
pub open spec fn ov3(r: Option<Vec3>) -> Option<V3> {
    match r {
        Some(v) => Some(v@),
        None => None,
    }
}

/// Checked vector sum: defined when every coordinate of the exact sum is
/// representable.
pub open spec fn vec_add_spec(a: V3, b: V3) -> Option<V3> {
    match (fp_add_spec(a.x, b.x), fp_add_spec(a.y, b.y), fp_add_spec(a.z, b.z)) {
        (Some(x), Some(y), Some(z)) => Some(V3 { x, y, z }),
        _ => None,
    }
}

pub open spec fn vec_sub_spec(a: V3, b: V3) -> Option<V3> {
    vec_add_spec(a, V3 { x: -b.x, y: -b.y, z: -b.z })
}

/// Checked scaling by a fixed-point scalar (each coordinate rescaled by
/// `SCALE`, truncating toward zero).
pub open spec fn vec_scale_spec(a: V3, k: int) -> Option<V3> {
    match (fp_mul_spec(a.x, k), fp_mul_spec(a.y, k), fp_mul_spec(a.z, k)) {
        (Some(x), Some(y), Some(z)) => Some(V3 { x, y, z }),
        _ => None,
    }
}

/// Checked fixed-point inner product: the exact coordinate products are
/// summed and rescaled once, truncating toward zero.
pub open spec fn vec_dot_spec(a: V3, b: V3) -> Option<int> {
    let q = tdiv(v3_dot_num(a, b), SCALE as int);
    if fits(q) {
        Some(q)
    } else {
        None
    }
}

/// The mirror formula `d' = d - 2 (d . n / n . n) n`, in checked
/// fixed-point steps. A degenerate normal (`n . n == 0`) or any
/// out-of-range intermediate is reported as `None`.
pub open spec fn reflect_spec(d: V3, n: V3) -> Option<V3> {
    match vec_dot_spec(d, n) {
        None => None,
        Some(dn) => match vec_dot_spec(n, n) {
            None => None,
            Some(nn) => if nn == 0 {
                None
            } else {
                match fp_div_spec(dn, nn) {
                    None => None,
                    Some(q) => match fp_add_spec(q, q) {
                        None => None,
                        Some(k) => match vec_scale_spec(n, k) {
                            None => None,
                            Some(sn) => vec_sub_spec(d, sn),
                        },
                    },
                }
            },
        },
    }
}

pub fn vec_add(a: Vec3, b: Vec3) -> (r: Option<Vec3>)
    ensures
        ov3(r) == vec_add_spec(a@, b@),
{
    match (fp_add(a.x, b.x), fp_add(a.y, b.y), fp_add(a.z, b.z)) {
        (Some(x), Some(y), Some(z)) => Some(Vec3 { x, y, z }),
        _ => None,
    }
}

pub fn vec_sub(a: Vec3, b: Vec3) -> (r: Option<Vec3>)
    ensures
        ov3(r) == vec_sub_spec(a@, b@),
{
    match (fp_sub(a.x, b.x), fp_sub(a.y, b.y), fp_sub(a.z, b.z)) {
        (Some(x), Some(y), Some(z)) => Some(Vec3 { x, y, z }),
        _ => None,
    }
}

pub fn vec_scale(a: Vec3, k: i64) -> (r: Option<Vec3>)
    ensures
        ov3(r) == vec_scale_spec(a@, k as int),
{
    match (fp_mul(a.x, k), fp_mul(a.y, k), fp_mul(a.z, k)) {
        (Some(x), Some(y), Some(z)) => Some(Vec3 { x, y, z }),
        _ => None,
    }
}

pub fn vec_dot(a: Vec3, b: Vec3) -> (r: Option<i64>)
    requires
        a.wf(),
        b.wf(),
    ensures
        oi(r) == vec_dot_spec(a@, b@),
{
    proof {
        lemma_product_bound(a.x as int, b.x as int);
        lemma_product_bound(a.y as int, b.y as int);
        lemma_product_bound(a.z as int, b.z as int);
    }
    let px: i128 = (a.x as i128) * (b.x as i128);
    let py: i128 = (a.y as i128) * (b.y as i128);
    let pz: i128 = (a.z as i128) * (b.z as i128);
    let s: i128 = px + py + pz;
    let q: i128 = div_trunc(s, SCALE as i128);
    proof {
        vstd::arithmetic::div_mod::lemma_div_nonincreasing(crate::fp::iabs(s as int), SCALE as int);
        vstd::arithmetic::div_mod::lemma_div_pos_is_pos(crate::fp::iabs(s as int), SCALE as int);
    }
    if -(FP_MAX as i128) <= q && q <= FP_MAX as i128 {
        Some(q as i64)
    } else {
        None
    }
}

/// Bound on the product of two representable scalars.
pub proof fn lemma_product_bound(x: int, y: int)
    requires
        fits(x),
        fits(y),
    ensures
        -0x1000_0000_0000_0000_0000_0000_0000_0000int <= x * y,
        x * y <= 0x1000_0000_0000_0000_0000_0000_0000_0000int,
{
    assert(-0x1000_0000_0000_0000_0000_0000_0000_0000int <= x * y
        && x * y <= 0x1000_0000_0000_0000_0000_0000_0000_0000int) by (nonlinear_arith)
        requires
            -0x4000_0000_0000_0000int <= x <= 0x4000_0000_0000_0000int,
            -0x4000_0000_0000_0000int <= y <= 0x4000_0000_0000_0000int;
}

pub fn reflect(d: Vec3, n: Vec3) -> (r: Option<Vec3>)
    requires
        d.wf(),
        n.wf(),
    ensures
        ov3(r) == reflect_spec(d@, n@),
{
    let dn: i64 = match vec_dot(d, n) {
        Some(v) => v,
        None => return None,
    };
    let nn: i64 = match vec_dot(n, n) {
        Some(v) => v,
        None => return None,
    };
    if nn == 0 {
        return None;
    }
    let q: i64 = match fp_div(dn, nn) {
        Some(v) => v,
        None => return None,
    };
    let k: i64 = match fp_add(q, q) {
        Some(v) => v,
        None => return None,
    };
    let sn: Vec3 = match vec_scale(n, k) {
        Some(v) => v,
        None => return None,
    };
    vec_sub(d, sn)
}

} // verus!
