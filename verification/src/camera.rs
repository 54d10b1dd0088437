//! The camera: an eye position and the four screen-corner target points,
//! from which one ray per pixel is generated by bilinear interpolation.

use vstd::prelude::*;
use crate::fp::{iabs, fits, tdiv, div_trunc, lemma_tdiv_lerp_bound};
use crate::vec3::{V3, Vec3};
use crate::ray::{RayS, Ray, create_ray_spec, create_ray};

verus! {

/// Largest raw magnitude (2^31) allowed for camera coordinates, so that
/// the interpolation arithmetic is representable without checks.
pub const CAM_MAX: i64 = 0x8000_0000;

pub open spec fn cam_fits(x: int) -> bool {
    -(CAM_MAX as int) <= x && x <= CAM_MAX as int
}

pub open spec fn v3_cam_fits(v: V3) -> bool {
    cam_fits(v.x) && cam_fits(v.y) && cam_fits(v.z)
}

/// A camera pose reduced to world-space points: the eye, and the four
/// screen corners the edge pixels aim at (upper-left, upper-right,
/// lower-left, lower-right).
pub struct Camera {
    pub origin: Vec3,
    pub ul: Vec3,
    pub ur: Vec3,
    pub ll: Vec3,
    pub lr: Vec3,
}

impl Camera {
    pub open spec fn wf(self) -> bool {
        v3_cam_fits(self.origin@) && v3_cam_fits(self.ul@) && v3_cam_fits(self.ur@)
            && v3_cam_fits(self.ll@) && v3_cam_fits(self.lr@)
    }
}

/// One coordinate of a linear interpolation: `a + (b - a) * k / n`,
/// truncating toward zero. With no room to interpolate (`n <= 0`) the
/// left endpoint is taken.
pub open spec fn lerp_i(a: int, b: int, k: int, n: int) -> int {
    if n <= 0 {
        a
    } else {
        a + tdiv((b - a) * k, n)
    }
}

pub open spec fn lerp_v3(a: V3, b: V3, k: int, n: int) -> V3 {
    V3 {
        x: lerp_i(a.x, b.x, k, n),
        y: lerp_i(a.y, b.y, k, n),
        z: lerp_i(a.z, b.z, k, n),
    }
}

/// The screen-space target point of pixel `(i, j)`: row `j` interpolates
/// each screen edge from top to bottom, then column `i` interpolates
/// between the row's endpoints.
pub open spec fn pixel_target(cam: Camera, i: int, j: int, w: int, h: int) -> V3 {
    let left = lerp_v3(cam.ul@, cam.ll@, j, h - 1);
    let right = lerp_v3(cam.ur@, cam.lr@, j, h - 1);
    lerp_v3(left, right, i, w - 1)
}

/// The camera ray of pixel `(i, j)`: origin at the eye, direction toward
/// the pixel's target, a full bounce budget and a zeroed record.
pub open spec fn camera_ray_spec(cam: Camera, i: int, j: int, w: int, h: int, max: int) -> RayS {
    create_ray_spec(cam.origin@, pixel_target(cam, i, j, w, h), max)
}

/// One interpolated coordinate. The bound `0x8_0000_0000` leaves room for
/// both interpolation levels.
fn lerp_c(a: i64, b: i64, k: u32, n: u32) -> (r: i64)
    requires
        iabs(a as int) <= 0x8_0000_0000,
        iabs(b as int) <= 0x8_0000_0000,
        k <= n,
        n <= 0x1_0000,
    ensures
        r as int == lerp_i(a as int, b as int, k as int, n as int),
        iabs(r as int) <= iabs(a as int) + iabs(a as int) + iabs(b as int),
{
    if n == 0 {
        return a;
    }
    let diff: i128 = b as i128 - a as i128;
    proof {
        assert(diff * (k as int) <= 0x80_0000_0000_0000int
            && diff * (k as int) >= -0x80_0000_0000_0000int) by (nonlinear_arith)
            requires
                -0x10_0000_0000int <= diff <= 0x10_0000_0000int,
                0 <= k as int <= 0x1_0000int;
    }
    let num: i128 = diff * (k as i128);
    let q: i128 = div_trunc(num, n as i128);
    proof {
        lemma_tdiv_lerp_bound(a as int, b as int, k as int, n as int);
    }
    (a as i128 + q) as i64
}

fn lerp3(a: Vec3, b: Vec3, k: u32, n: u32) -> (v: Vec3)
    requires
        iabs(a@.x) <= 0x8_0000_0000,
        iabs(a@.y) <= 0x8_0000_0000,
        iabs(a@.z) <= 0x8_0000_0000,
        iabs(b@.x) <= 0x8_0000_0000,
        iabs(b@.y) <= 0x8_0000_0000,
        iabs(b@.z) <= 0x8_0000_0000,
        k <= n,
        n <= 0x1_0000,
    ensures
        v@ == lerp_v3(a@, b@, k as int, n as int),
        iabs(v@.x) <= iabs(a@.x) + iabs(a@.x) + iabs(b@.x),
        iabs(v@.y) <= iabs(a@.y) + iabs(a@.y) + iabs(b@.y),
        iabs(v@.z) <= iabs(a@.z) + iabs(a@.z) + iabs(b@.z),
{
    Vec3 {
        x: lerp_c(a.x, b.x, k, n),
        y: lerp_c(a.y, b.y, k, n),
        z: lerp_c(a.z, b.z, k, n),
    }
}

impl Camera {
    /// The ray this camera casts through pixel `(i, j)` of a `w` by `h`
    /// image, with bounce budget `max`.
    #[verifier::rlimit(60)]
    pub fn ray_for_pixel(&self, i: u32, j: u32, w: u32, h: u32, max: u8) -> (r: Ray)
        requires
            self.wf(),
            i < w,
            j < h,
            w <= 0x1_0000,
            h <= 0x1_0000,
        ensures
            r@ == camera_ray_spec(*self, i as int, j as int, w as int, h as int, max as int),
            r@.wf(),
    {
        proof {
            assert(iabs(self.ul@.x) <= 0x8000_0000 && iabs(self.ul@.y) <= 0x8000_0000
                && iabs(self.ul@.z) <= 0x8000_0000);
            assert(iabs(self.ur@.x) <= 0x8000_0000 && iabs(self.ur@.y) <= 0x8000_0000
                && iabs(self.ur@.z) <= 0x8000_0000);
            assert(iabs(self.ll@.x) <= 0x8000_0000 && iabs(self.ll@.y) <= 0x8000_0000
                && iabs(self.ll@.z) <= 0x8000_0000);
            assert(iabs(self.lr@.x) <= 0x8000_0000 && iabs(self.lr@.y) <= 0x8000_0000
                && iabs(self.lr@.z) <= 0x8000_0000);
        }
        let left = lerp3(self.ul, self.ll, j, h - 1);
        let right = lerp3(self.ur, self.lr, j, h - 1);
        proof {
            assert(iabs(left@.x) <= 0x1_8000_0000 && iabs(left@.y) <= 0x1_8000_0000
                && iabs(left@.z) <= 0x1_8000_0000);
            assert(iabs(right@.x) <= 0x1_8000_0000 && iabs(right@.y) <= 0x1_8000_0000
                && iabs(right@.z) <= 0x1_8000_0000);
        }
        let target = lerp3(left, right, i, w - 1);
        proof {
            assert(iabs(target@.x) <= 0x4_8000_0000 && iabs(target@.y) <= 0x4_8000_0000
                && iabs(target@.z) <= 0x4_8000_0000);
            assert(target@ == pixel_target(*self, i as int, j as int, w as int, h as int));
            assert(fits(target@.x - self.origin@.x) && fits(target@.y - self.origin@.y)
                && fits(target@.z - self.origin@.z));
            assert(self.origin.wf() && target.wf());
        }
        create_ray(self.origin, target, max)
    }
}

} // verus!
