//! The recursive tracer: the per-pixel bounce loop with nearest-hit
//! selection and colour assignment, and the frame renderer around it.

use vstd::prelude::*;
use crate::fp::{tdiv, fp_div_spec, fp_div, SCALE, iabs};
use crate::ray::{RayS, Ray, sum_seq};
use crate::world::{Primitive, Plane, Sphere, prim_trace_spec, lemma_prim_trace_props};
use crate::scene::Scene;
use crate::camera::{Camera, camera_ray_spec};
use crate::canvas::{Canvas, Color, canvas_pixels, canvas_dims, grid};
use vstd::arithmetic::div_mod::lemma_div_pos_is_pos;
use vstd::arithmetic::div_mod::lemma_div_nonincreasing;
use vstd::arithmetic::div_mod::lemma_div_is_ordered;
use vstd::arithmetic::div_mod::lemma_div_multiples_vanish;
use vstd::arithmetic::mul::lemma_mul_inequality;

verus! {

/// The fixed background / sky colour, taken by rays that never struck
/// anything and by rays whose bounce budget ran out.
pub open spec fn background_spec() -> Color {
    Color { r: 63, g: 127, b: 255, a: 255 }
}

pub fn background_color() -> (c: Color)
    ensures
        c == background_spec(),
{
    Color { r: 63, g: 127, b: 255, a: 255 }
}

/// The distance-darkening tint of a path of raw total length `total`:
/// each channel of the base colour divided by the path length in whole
/// units, clamped to `[1, 255]`, so closer hits look brighter.
pub open spec fn tint_spec(total: int) -> Color {
    let d0 = tdiv(total, SCALE as int);
    let d = if d0 < 1 {
        1int
    } else if d0 > 255 {
        255int
    } else {
        d0
    };
    Color { r: (63int / d) as u8, g: (127int / d) as u8, b: (255int / d) as u8, a: 255 }
}

pub fn tint(total: i128) -> (c: Color)
    requires
        0 <= total,
    ensures
        c == tint_spec(total as int),
{
    let d0: u128 = (total as u128) / (SCALE as u128);
    let d: u128 = if d0 < 1 {
        1
    } else if d0 > 255 {
        255
    } else {
        d0
    };
    proof {
        lemma_div_nonincreasing(63, d as int);
        lemma_div_nonincreasing(127, d as int);
        lemma_div_nonincreasing(255, d as int);
        lemma_div_pos_is_pos(63, d as int);
        lemma_div_pos_is_pos(127, d as int);
        lemma_div_pos_is_pos(255, d as int);
    }
    Color { r: (63 / d) as u8, g: (127 / d) as u8, b: (255 / d) as u8, a: 255 }
}

/// The best hit among the first `n` primitives: of the trace results that
/// advanced the ray, the one with the smallest accumulated path length;
/// the earliest such primitive wins ties.
pub open spec fn best_hit_upto(objs: Seq<Primitive>, r: RayS, tol: int, n: int) -> Option<RayS>
    decreases n,
{
    if n <= 0 {
        None
    } else {
        let prev = best_hit_upto(objs, r, tol, n - 1);
        let cand = prim_trace_spec(objs[n - 1], r, tol);
        if cand.count == r.count {
            prev
        } else {
            match prev {
                None => Some(cand),
                Some(b) => if sum_seq(cand.distances) < sum_seq(b.distances) {
                    Some(cand)
                } else {
                    Some(b)
                },
            }
        }
    }
}

pub open spec fn best_hit(objs: Seq<Primitive>, r: RayS, tol: int) -> Option<RayS> {
    best_hit_upto(objs, r, tol, objs.len() as int)
}

/// Whatever hit wins is well formed and advanced the ray by exactly one
/// bounce.
pub proof fn lemma_best_hit_props(objs: Seq<Primitive>, r: RayS, tol: int, n: int)
    requires
        r.wf(),
        0 <= n <= objs.len(),
    ensures
        match best_hit_upto(objs, r, tol, n) {
            None => true,
            Some(b) => b.wf() && b.count == r.count - 1,
        },
    decreases n,
{
    if n > 0 {
        lemma_best_hit_props(objs, r, tol, n - 1);
        lemma_prim_trace_props(objs[n - 1], r, tol);
    }
}

/// The colour of a traced path, unfolded with `fuel` as the recursion
/// bound. The bounce loop is driven with `fuel` equal to the ray's
/// remaining budget, which each bounce decrements, so the `fuel == 0`
/// guard is never the deciding branch there.
pub open spec fn trace_from(objs: Seq<Primitive>, r: RayS, tol: int, fuel: nat) -> Color
    decreases fuel,
{
    if r.count < 1 {
        background_spec()
    } else {
        match best_hit(objs, r, tol) {
            None => if r.fresh() {
                background_spec()
            } else {
                tint_spec(sum_seq(r.distances))
            },
            Some(b) => if b.count < 1 {
                background_spec()
            } else if fuel == 0 {
                background_spec()
            } else {
                trace_from(objs, b, tol, (fuel - 1) as nat)
            },
        }
    }
}

/// The colour assigned to a ray's path: background when the budget is
/// exhausted or nothing was ever struck, the distance tint when the path
/// struck at least one primitive and then escaped.
pub open spec fn trace_outcome(objs: Seq<Primitive>, r: RayS, tol: int) -> Color {
    trace_from(objs, r, tol, if r.count >= 0 { r.count as nat } else { 0 })
}

/// The number of trace states the bounce loop visits for a ray.
pub open spec fn trace_steps(objs: Seq<Primitive>, r: RayS, tol: int, fuel: nat) -> nat
    decreases fuel,
{
    if r.count < 1 {
        1
    } else {
        match best_hit(objs, r, tol) {
            None => 1,
            Some(b) => if b.count < 1 {
                1
            } else if fuel == 0 {
                1
            } else {
                1 + trace_steps(objs, b, tol, (fuel - 1) as nat)
            },
        }
    }
}

/// The view of an optional ray.
pub open spec fn obr(r: Option<Ray>) -> Option<RayS> {
    match r {
        Some(b) => Some(b@),
        None => None,
    }
}

/// The nearest hit of a ray across the whole scene.
fn find_best_hit(scene: &Scene, r: &Ray, tol: i64) -> (best: Option<Ray>)
    requires
        scene.wf(),
        r@.wf(),
        0 <= tol,
    ensures
        obr(best) == best_hit(scene@, r@, tol as int),
{
    let n: usize = scene.len();
    let mut best: Option<Ray> = None;
    let mut k: usize = 0;
    while k < n
        invariant
            0 <= k <= n,
            n == scene@.len(),
            scene.wf(),
            r@.wf(),
            0 <= tol,
            obr(best) == best_hit_upto(scene@, r@, tol as int, k as int),
        decreases n - k,
    {
        let cand: Ray = scene.get(k).trace(r, tol);
        proof {
            lemma_prim_trace_props(scene@[k as int], r@, tol as int);
            lemma_best_hit_props(scene@, r@, tol as int, k as int);
        }
        if cand.count != r.count {
            let replace: bool = match &best {
                None => true,
                Some(b) => cand.total_distance() < b.total_distance(),
            };
            if replace {
                best = Some(cand);
            }
        }
        k = k + 1;
    }
    best
}

/// One pixel's full trace: the bounce loop, from a camera ray to its
/// colour.
pub fn trace_pixel(scene: &Scene, r: Ray, tol: i64) -> (c: Color)
    requires
        scene.wf(),
        r@.wf(),
        0 <= tol,
    ensures
        c == trace_outcome(scene@, r@, tol as int),
{
    let mut cur: Ray = r;
    loop
        invariant
            scene.wf(),
            cur@.wf(),
            0 <= tol,
            trace_outcome(scene@, cur@, tol as int) == trace_outcome(scene@, r@, tol as int),
        decreases cur@.count,
    {
        if cur.count < 1 {
            return background_color();
        }
        let best = find_best_hit(scene, &cur, tol);
        match best {
            None => {
                if cur.count as usize == cur.distances.len() {
                    return background_color();
                } else {
                    let total: i128 = cur.total_distance();
                    return tint(total);
                }
            },
            Some(b) => {
                proof {
                    lemma_best_hit_props(scene@, cur@, tol as int, scene@.len() as int);
                }
                if b.count < 1 {
                    return background_color();
                }
                proof {
                    assert(trace_outcome(scene@, cur@, tol as int) == trace_from(
                        scene@,
                        b@,
                        tol as int,
                        (cur@.count - 1) as nat,
                    ));
                    assert(b@.count == cur@.count - 1);
                }
                cur = b;
            },
        }
    }
}

/// Startup configuration: image size, bounce budget, and the derived
/// near-parallel tolerance.
#[derive(Clone, Copy, PartialEq, Eq, Structural, Debug)]
pub struct Config {
    pub width: u32,
    pub height: u32,
    pub max_bounces: u8,
    pub tol: i64,
}

#[derive(Clone, Copy, PartialEq, Eq, Structural, Debug)]
pub enum ConfigError {
    ZeroWidth,
    ZeroHeight,
    ZeroBounces,
}

/// The plane near-parallel tolerance: the fixed-point value of
/// `0.01 / (width + height)`.
pub open spec fn tol_spec(w: int, h: int) -> int {
    match fp_div_spec(SCALE as int / 100, (w + h) * (SCALE as int)) {
        Some(t) => t,
        None => 0,
    }
}

impl Config {
    pub open spec fn wf(self) -> bool {
        &&& 1 <= self.width <= 0x1_0000
        &&& 1 <= self.height <= 0x1_0000
        &&& 1 <= self.max_bounces
        &&& self.tol as int == tol_spec(self.width as int, self.height as int)
        &&& 0 <= self.tol
    }

    /// Validates the startup configuration: a zero width, height or
    /// bounce budget is rejected, in that order of precedence. The size
    /// caps keep the frame buffer's length computation representable.
    pub fn new(width: u32, height: u32, max_bounces: u8) -> (res: Result<Config, ConfigError>)
        requires
            width <= 0x1_0000,
            height <= 0x1_0000,
        ensures
            width == 0 ==> res == Result::<Config, ConfigError>::Err(ConfigError::ZeroWidth),
            width >= 1 && height == 0 ==> res == Result::<Config, ConfigError>::Err(
                ConfigError::ZeroHeight,
            ),
            width >= 1 && height >= 1 && max_bounces == 0 ==> res == Result::<
                Config,
                ConfigError,
            >::Err(ConfigError::ZeroBounces),
            width >= 1 && height >= 1 && max_bounces >= 1 ==> res is Ok && res.unwrap().wf()
                && res.unwrap().width == width && res.unwrap().height == height
                && res.unwrap().max_bounces == max_bounces,
    {
        if width == 0 {
            return Err(ConfigError::ZeroWidth);
        }
        if height == 0 {
            return Err(ConfigError::ZeroHeight);
        }
        if max_bounces == 0 {
            return Err(ConfigError::ZeroBounces);
        }
        let den: i64 = (width as i64 + height as i64) * SCALE;
        let tol: i64 = match fp_div(SCALE / 100, den) {
            Some(t) => t,
            None => 0,
        };
        proof {
            lemma_div_pos_is_pos(iabs(10 * (SCALE as int)), iabs(den as int));
        }
        Ok(Config { width, height, max_bounces, tol })
    }
}

/// The colour the engine assigns to pixel `(i, j)` for a scene, camera
/// and configuration.
pub open spec fn pixel_color_spec(
    objs: Seq<Primitive>,
    cam: Camera,
    cfg: Config,
    i: int,
    j: int,
) -> Color {
    trace_outcome(
        objs,
        camera_ray_spec(cam, i, j, cfg.width as int, cfg.height as int, cfg.max_bounces as int),
        cfg.tol as int,
    )
}

/// The background gradient of pixel `(i, j)` in a `w` by `h` image.
pub open spec fn gradient_spec(i: int, j: int, w: int, h: int) -> Color {
    if w < 1 || h < 1 {
        background_spec()
    } else {
        Color {
            r: (255 * j / h) as u8,
            g: (255 * i / w) as u8,
            b: (255 * (i + j) / (w + h)) as u8,
            a: 255,
        }
    }
}

/// `k * num / den` stays within `[0, k]` for `0 <= num <= den`.
proof fn lemma_scaled_frac_le(k: int, num: int, den: int)
    requires
        0 <= k,
        0 <= num <= den,
        0 < den,
    ensures
        0 <= k * num / den <= k,
{
    lemma_mul_inequality(num, den, k);
    assert(num * k == k * num) by (nonlinear_arith);
    assert(den * k == k * den) by (nonlinear_arith);
    lemma_div_is_ordered(k * num, k * den, den);
    lemma_div_multiples_vanish(k, den);
    lemma_div_pos_is_pos(k * num, den);
}

/// The frame renderer, the engine's whole surface to a presentation
/// layer: one camera ray per pixel, each traced through the scene, its
/// colour written to a fresh canvas.
pub fn render_frame(scene: &Scene, camera: &Camera, config: &Config) -> (canvas: Canvas)
    requires
        scene.wf(),
        camera.wf(),
        config.wf(),
    ensures
        canvas_dims(canvas) == (config.width as nat, config.height as nat),
        canvas_pixels(canvas).dom() == grid(config.width as nat, config.height as nat),
        forall|i: int, j: int|
            0 <= i < config.width && 0 <= j < config.height ==> canvas_pixels(canvas)[(i, j)]
                == pixel_color_spec(scene@, *camera, *config, i, j),
{
    let w: u32 = config.width;
    let h: u32 = config.height;
    let mut canvas = Canvas::new(w, h);
    proof {
        assert(canvas_pixels(canvas).dom() =~= grid(w as nat, h as nat));
    }
    let mut j: u32 = 0;
    while j < h
        invariant
            0 <= j <= h,
            scene.wf(),
            camera.wf(),
            config.wf(),
            w == config.width,
            h == config.height,
            canvas_dims(canvas) == (w as nat, h as nat),
            canvas_pixels(canvas).dom() == grid(w as nat, h as nat),
            forall|x: int, y: int|
                0 <= x < w && 0 <= y < j ==> canvas_pixels(canvas)[(x, y)] == pixel_color_spec(
                    scene@,
                    *camera,
                    *config,
                    x,
                    y,
                ),
        decreases h - j,
    {
        let mut i: u32 = 0;
        while i < w
            invariant
                0 <= i <= w,
                0 <= j < h,
                scene.wf(),
                camera.wf(),
                config.wf(),
                w == config.width,
                h == config.height,
                canvas_dims(canvas) == (w as nat, h as nat),
                canvas_pixels(canvas).dom() == grid(w as nat, h as nat),
                forall|x: int, y: int|
                    0 <= x < w && 0 <= y < j ==> canvas_pixels(canvas)[(x, y)] == pixel_color_spec(
                        scene@,
                        *camera,
                        *config,
                        x,
                        y,
                    ),
                forall|x: int|
                    0 <= x < i ==> canvas_pixels(canvas)[(x, j as int)] == pixel_color_spec(
                        scene@,
                        *camera,
                        *config,
                        x,
                        j as int,
                    ),
            decreases w - i,
        {
            let ray: Ray = camera.ray_for_pixel(i, j, w, h, config.max_bounces);
            let c: Color = trace_pixel(scene, ray, config.tol);
            canvas.put(i, j, c);
            proof {
                assert(canvas_pixels(canvas).dom() =~= grid(w as nat, h as nat));
            }
            i = i + 1;
        }
        j = j + 1;
    }
    canvas
}

/// The tracer: a scene, a camera pose, the configuration, and the canvas
/// frames are rendered into.
pub struct Tracer {
    pub scene: Scene,
    pub camera: Camera,
    pub config: Config,
    pub canvas: Canvas,
}

/// The demonstration world: two tilted planes and two spheres.
pub open spec fn demo_world() -> Seq<Primitive> {
    seq![
        Primitive::Plane(Plane { a: 1000, b: 2000, c: 3000, d: 4000 }),
        Primitive::Plane(Plane { a: 0, b: 1000, c: 2000, d: 3000 }),
        Primitive::Sphere(Sphere { x0: -7000i64, y0: 2000, z0: 0, r: 3000 }),
        Primitive::Sphere(Sphere { x0: -5000i64, y0: 0, z0: 0, r: 4000 }),
    ]
}

impl Tracer {
    pub open spec fn wf(self) -> bool {
        &&& self.scene.wf()
        &&& self.camera.wf()
        &&& self.config.wf()
        &&& canvas_dims(self.canvas) == (self.config.width as nat, self.config.height as nat)
        &&& canvas_pixels(self.canvas).dom() == grid(
            self.config.width as nat,
            self.config.height as nat,
        )
    }

    pub fn new(config: Config, camera: Camera) -> (t: Tracer)
        requires
            config.wf(),
            camera.wf(),
        ensures
            t.wf(),
            t.scene@ == Seq::<Primitive>::empty(),
            t.config == config,
            t.camera == camera,
            canvas_pixels(t.canvas) == Map::new(
                |p: (int, int)| 0 <= p.0 < config.width as int && 0 <= p.1 < config.height as int,
                |p: (int, int)| Color { r: 0, g: 0, b: 0, a: 0 },
            ),
    {
        let canvas = Canvas::new(config.width, config.height);
        proof {
            assert(canvas_pixels(canvas).dom() =~= grid(
                config.width as nat,
                config.height as nat,
            ));
        }
        Tracer { scene: Scene::new(), camera, config, canvas }
    }

    /// Append one primitive to the scene.
    pub fn add_object(&mut self, object: Primitive)
        ensures
            final(self).scene@ == old(self).scene@.push(object),
            final(self).camera == old(self).camera,
            final(self).config == old(self).config,
            final(self).canvas == old(self).canvas,
    {
        self.scene.add(object);
    }

    /// Populate the demonstration world.
    pub fn create_world(&mut self)
        ensures
            final(self).scene@ == old(self).scene@ + demo_world(),
            final(self).camera == old(self).camera,
            final(self).config == old(self).config,
            final(self).canvas == old(self).canvas,
    {
        self.add_object(Primitive::Plane(Plane { a: 1000, b: 2000, c: 3000, d: 4000 }));
        self.add_object(Primitive::Plane(Plane { a: 0, b: 1000, c: 2000, d: 3000 }));
        self.add_object(Primitive::Sphere(Sphere { x0: -7000i64, y0: 2000, z0: 0, r: 3000 }));
        self.add_object(Primitive::Sphere(Sphere { x0: -5000i64, y0: 0, z0: 0, r: 4000 }));
        proof {
            assert(self.scene@ =~= old(self).scene@ + demo_world());
        }
    }

    /// The colour of one ray's full bounce path through this scene.
    pub fn recursive_trace(&self, r: Ray) -> (c: Color)
        requires
            self.wf(),
            r@.wf(),
        ensures
            c == trace_outcome(self.scene@, r@, self.config.tol as int),
    {
        trace_pixel(&self.scene, r, self.config.tol)
    }

    /// Render the frame into the tracer's own canvas.
    pub fn set_hit_img(&mut self)
        requires
            old(self).wf(),
        ensures
            final(self).wf(),
            final(self).scene == old(self).scene,
            final(self).camera == old(self).camera,
            final(self).config == old(self).config,
            forall|i: int, j: int|
                0 <= i < old(self).config.width && 0 <= j < old(self).config.height
                    ==> canvas_pixels(final(self).canvas)[(i, j)] == pixel_color_spec(
                    old(self).scene@,
                    old(self).camera,
                    old(self).config,
                    i,
                    j,
                ),
    {
        self.canvas = render_frame(&self.scene, &self.camera, &self.config);
    }

    /// Paint the background gradient over the whole canvas.
    pub fn draw_background(&mut self)
        requires
            old(self).wf(),
        ensures
            final(self).wf(),
            final(self).scene == old(self).scene,
            final(self).camera == old(self).camera,
            final(self).config == old(self).config,
            forall|i: int, j: int|
                0 <= i < old(self).config.width && 0 <= j < old(self).config.height
                    ==> canvas_pixels(final(self).canvas)[(i, j)] == gradient_spec(
                    i,
                    j,
                    old(self).config.width as int,
                    old(self).config.height as int,
                ),
    {
        let w: u32 = self.config.width;
        let h: u32 = self.config.height;
        let mut j: u32 = 0;
        while j < h
            invariant
                0 <= j <= h,
                self.wf(),
                w == self.config.width,
                h == self.config.height,
                self.scene == old(self).scene,
                self.camera == old(self).camera,
                self.config == old(self).config,
                forall|x: int, y: int|
                    0 <= x < w && 0 <= y < j ==> canvas_pixels(self.canvas)[(x, y)]
                        == gradient_spec(x, y, w as int, h as int),
            decreases h - j,
        {
            let mut i: u32 = 0;
            while i < w
                invariant
                    0 <= i <= w,
                    0 <= j < h,
                    self.wf(),
                    w == self.config.width,
                    h == self.config.height,
                    self.scene == old(self).scene,
                    self.camera == old(self).camera,
                    self.config == old(self).config,
                    forall|x: int, y: int|
                        0 <= x < w && 0 <= y < j ==> canvas_pixels(self.canvas)[(x, y)]
                            == gradient_spec(x, y, w as int, h as int),
                    forall|x: int|
                        0 <= x < i ==> canvas_pixels(self.canvas)[(x, j as int)]
                            == gradient_spec(x, j as int, w as int, h as int),
                decreases w - i,
            {
                proof {
                    lemma_scaled_frac_le(255, j as int, h as int);
                    lemma_scaled_frac_le(255, i as int, w as int);
                    lemma_scaled_frac_le(255, i as int + j as int, w as int + h as int);
                }
                let cr: u32 = 255 * j / h;
                let cg: u32 = 255 * i / w;
                let cb: u32 = 255 * (i + j) / (w + h);
                let c = Color { r: cr as u8, g: cg as u8, b: cb as u8, a: 255 };
                self.canvas.put(i, j, c);
                proof {
                    assert(canvas_pixels(self.canvas).dom() =~= grid(w as nat, h as nat));
                }
                i = i + 1;
            }
            j = j + 1;
        }
    }
}

} // verus!
