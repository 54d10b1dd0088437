//! Rays: an origin, a direction, the remaining bounce budget, and a
//! fixed-capacity record of the distance travelled on each bounce.

use vstd::prelude::*;
use crate::fp::{fits, FP_MAX};
use crate::vec3::{V3, Vec3, ov3, v3_sub, vec_add_spec, vec_scale_spec, vec_sub, vec_add, vec_scale};

verus! {

/// The default bounce budget a ray starts with.
pub const RAY_BOUNCE_MAX: u8 = 5;

/// Mathematical view of a ray.
pub ghost struct RayS {
    pub o: V3,
    pub d: V3,
    pub count: int,
    pub distances: Seq<i64>,
}

/// Sum of a distance record, in raw fixed-point units.
pub open spec fn sum_seq(s: Seq<i64>) -> int
    decreases s.len(),
{
    if s.len() == 0 {
        0
    } else {
        sum_seq(s.drop_last()) + s.last()
    }
}

impl RayS {
    /// Well-formed: representable coordinates, a budget that does not
    /// exceed the record's capacity, nonnegative representable recorded
    /// distances, and zeroes in the slots that are still to be used.
    pub open spec fn wf(self) -> bool {
        &&& self.o.wf()
        &&& self.d.wf()
        &&& 0 <= self.count <= self.distances.len()
        &&& self.distances.len() <= 255
        &&& forall|i: int|
            0 <= i < self.distances.len() ==> 0 <= #[trigger] self.distances[i] <= FP_MAX
        &&& forall|i: int|
            self.distances.len() - self.count <= i < self.distances.len()
                ==> #[trigger] self.distances[i] == 0
    }

    /// Total distance travelled so far, in raw units.
    pub open spec fn total(self) -> int {
        sum_seq(self.distances)
    }

    /// No bounce has been recorded yet.
    pub open spec fn fresh(self) -> bool {
        self.count == self.distances.len()
    }
}

pub proof fn lemma_sum_take_succ(s: Seq<i64>, i: int)
    requires
        0 <= i < s.len(),
    ensures
        sum_seq(s.take(i + 1)) == sum_seq(s.take(i)) + s[i],
{
    let t = s.take(i + 1);
    assert(t.drop_last() =~= s.take(i));
    assert(t.last() == s[i]);
}

/// Overwriting one slot shifts the sum by the difference.
pub proof fn lemma_sum_update(s: Seq<i64>, i: int, v: i64)
    requires
        0 <= i < s.len(),
    ensures
        sum_seq(s.update(i, v)) == sum_seq(s) - s[i] + v,
    decreases s.len(),
{
    let u = s.update(i, v);
    if i == s.len() - 1 {
        assert(u.drop_last() =~= s.drop_last());
        assert(u.last() == v);
    } else {
        assert(u.drop_last() =~= s.drop_last().update(i, v));
        assert(u.last() == s.last());
        lemma_sum_update(s.drop_last(), i, v);
    }
}

/// A ray. The distance record has one slot per possible bounce; its length
/// is fixed at the initial bounce budget.
pub struct Ray {
    pub o: Vec3,
    pub d: Vec3,
    pub count: u8,
    pub distances: Vec<i64>,
}

impl View for Ray {
    type V = RayS;

    open spec fn view(&self) -> RayS {
        RayS {
            o: self.o@,
            d: self.d@,
            count: self.count as int,
            distances: self.distances@,
        }
    }
}

/// Evaluate the ray equation `origin + direction * t` in checked
/// fixed-point arithmetic.
pub open spec fn eval_spec(r: RayS, t: int) -> Option<V3> {
    match vec_scale_spec(r.d, t) {
        None => None,
        Some(dt) => vec_add_spec(r.o, dt),
    }
}

impl Ray {
    pub open spec fn wf(self) -> bool {
        self@.wf()
    }

    /// The world-space point at parameter `t` along the ray, or `None`
    /// when an intermediate value is out of range.
    pub fn eval(&self, t: i64) -> (p: Option<Vec3>)
        ensures
            ov3(p) == eval_spec(self@, t as int),
    {
        match vec_scale(self.d, t) {
            Some(dt) => vec_add(self.o, dt),
            None => None,
        }
    }

    /// Sum of the distance record.
    pub fn total_distance(&self) -> (t: i128)
        requires
            self@.wf(),
        ensures
            t == self@.total(),
            0 <= t <= 255 * (FP_MAX as int),
    {
        let n: usize = self.distances.len();
        let mut acc: i128 = 0;
        let mut i: usize = 0;
        while i < n
            invariant
                0 <= i <= n,
                n == self.distances@.len(),
                n <= 255,
                forall|k: int| 0 <= k < n ==> 0 <= #[trigger] self.distances@[k] <= FP_MAX,
                acc == sum_seq(self.distances@.take(i as int)),
                0 <= acc <= i * (FP_MAX as int),
            decreases n - i,
        {
            proof {
                lemma_sum_take_succ(self.distances@, i as int);
            }
            acc = acc + self.distances[i] as i128;
            i = i + 1;
        }
        proof {
            assert(self.distances@.take(n as int) =~= self.distances@);
        }
        acc
    }
}

/// The ray from `o` through the target point `q`, with a full bounce
/// budget and an all-zero distance record.
pub open spec fn create_ray_spec(o: V3, q: V3, count: int) -> RayS {
    RayS {
        o,
        d: v3_sub(q, o),
        count,
        distances: Seq::new(count as nat, |i: int| 0i64),
    }
}

/// A vector of `n` zeroed distance slots.
pub(crate) fn zero_record(n: usize) -> (v: Vec<i64>)
    ensures
        v@ == Seq::new(n as nat, |i: int| 0i64),
{
    let mut v: Vec<i64> = Vec::new();
    while v.len() < n
        invariant
            v@.len() <= n,
            forall|k: int| 0 <= k < v@.len() ==> #[trigger] v@[k] == 0i64,
        decreases n - v.len(),
    {
        v.push(0);
    }
    proof {
        assert(v@ =~= Seq::new(n as nat, |i: int| 0i64));
    }
    v
}

pub fn create_ray(o: Vec3, q: Vec3, count: u8) -> (r: Ray)
    requires
        o.wf(),
        q.wf(),
        fits(q@.x - o@.x),
        fits(q@.y - o@.y),
        fits(q@.z - o@.z),
    ensures
        r@ == create_ray_spec(o@, q@, count as int),
        r@.wf(),
{
    let d: Vec3 = match vec_sub(q, o) {
        Some(v) => v,
        None => vstd::pervasive::unreached(),
    };
    let distances = zero_record(count as usize);
    Ray { o, d, count, distances }
}

/// A value copy of a ray (the record is duplicated element by element).
pub(crate) fn copy_ray(r: &Ray) -> (c: Ray)
    ensures
        c@ == r@,
{
    let n: usize = r.distances.len();
    let mut distances: Vec<i64> = Vec::new();
    let mut i: usize = 0;
    while i < n
        invariant
            0 <= i <= n,
            n == r.distances@.len(),
            distances@ == r.distances@.take(i as int),
        decreases n - i,
    {
        distances.push(r.distances[i]);
        proof {
            assert(distances@ =~= r.distances@.take(i + 1));
        }
        i = i + 1;
    }
    proof {
        assert(r.distances@.take(n as int) =~= r.distances@);
    }
    Ray { o: r.o, d: r.d, count: r.count, distances }
}

/// The successor ray after a recorded bounce: new origin and direction,
/// one less remaining bounce, and the travelled segment `t` written into
/// the next free slot of the record.
pub open spec fn bounce_spec(r: RayS, point: V3, dir: V3, t: i64) -> RayS {
    RayS {
        o: point,
        d: dir,
        count: r.count - 1,
        distances: r.distances.update(r.distances.len() - r.count, t),
    }
}

pub(crate) fn bounce(r: &Ray, point: Vec3, dir: Vec3, t: i64) -> (nr: Ray)
    requires
        r@.wf(),
        1 <= r@.count,
    ensures
        nr@ == bounce_spec(r@, point@, dir@, t),
{
    let n: usize = r.distances.len();
    let mut distances: Vec<i64> = Vec::new();
    let mut i: usize = 0;
    while i < n
        invariant
            0 <= i <= n,
            n == r.distances@.len(),
            distances@ == r.distances@.take(i as int),
        decreases n - i,
    {
        distances.push(r.distances[i]);
        proof {
            assert(distances@ =~= r.distances@.take(i + 1));
        }
        i = i + 1;
    }
    proof {
        assert(r.distances@.take(n as int) =~= r.distances@);
    }
    let idx: usize = n - r.count as usize;
    distances.set(idx, t);
    Ray { o: point, d: dir, count: r.count - 1, distances }
}

} // verus!
