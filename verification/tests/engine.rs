use toy_tracer::vec3::Vec3;
use toy_tracer::world::{Plane, Sphere, Primitive};
use toy_tracer::camera::Camera;
use toy_tracer::canvas::{Canvas, Color};
use toy_tracer::tracer::{Config, ConfigError, Tracer, background_color};

fn v(x: i64, y: i64, z: i64) -> Vec3 {
    Vec3 { x, y, z }
}

fn straight_down_z_camera() -> Camera {
    // eye at (0,0,-5) looking along +z with zero field-of-view spread:
    // all four corners coincide one unit ahead of the eye
    Camera {
        origin: v(0, 0, -5000),
        ul: v(0, 0, -4000),
        ur: v(0, 0, -4000),
        ll: v(0, 0, -4000),
        lr: v(0, 0, -4000),
    }
}

#[test]
fn config_rejects_zero_width() {
    assert_eq!(Config::new(0, 10, 5).unwrap_err(), ConfigError::ZeroWidth);
}

#[test]
fn config_rejects_zero_height() {
    assert_eq!(Config::new(10, 0, 5).unwrap_err(), ConfigError::ZeroHeight);
}

#[test]
fn config_rejects_zero_bounces() {
    assert_eq!(Config::new(10, 10, 0).unwrap_err(), ConfigError::ZeroBounces);
}

#[test]
fn config_accepts_and_derives_the_tolerance() {
    let cfg = Config::new(3, 3, 5).unwrap();
    assert_eq!((cfg.width, cfg.height, cfg.max_bounces), (3, 3, 5));
    // 0.01 / 6 truncates to one raw unit
    assert_eq!(cfg.tol, 1);
    let cfg = Config::new(512, 512, 5).unwrap();
    // below one raw unit at this resolution
    assert_eq!(cfg.tol, 0);
}

#[test]
fn corner_pixels_reproduce_the_corner_directions() {
    let cam = Camera {
        origin: v(0, 0, 0),
        ul: v(-1000, -1000, 1000),
        ur: v(1000, -1000, 1000),
        ll: v(-1000, 1000, 1000),
        lr: v(1000, 1000, 1000),
    };
    assert_eq!(cam.ray_for_pixel(0, 0, 4, 4, 5).d, v(-1000, -1000, 1000));
    assert_eq!(cam.ray_for_pixel(3, 0, 4, 4, 5).d, v(1000, -1000, 1000));
    assert_eq!(cam.ray_for_pixel(0, 3, 4, 4, 5).d, v(-1000, 1000, 1000));
    assert_eq!(cam.ray_for_pixel(3, 3, 4, 4, 5).d, v(1000, 1000, 1000));
    let r = cam.ray_for_pixel(0, 0, 4, 4, 5);
    assert_eq!(r.o, v(0, 0, 0));
    assert_eq!(r.count, 5);
    assert_eq!(r.distances, vec![0i64; 5]);
}

#[test]
fn interior_pixel_interpolates() {
    let cam = Camera {
        origin: v(0, 0, 0),
        ul: v(-1000, -1000, 1000),
        ur: v(1000, -1000, 1000),
        ll: v(-1000, 1000, 1000),
        lr: v(1000, 1000, 1000),
    };
    // one third of the way in each direction, truncated
    assert_eq!(cam.ray_for_pixel(1, 1, 4, 4, 5).d, v(-334, -334, 1000));
}

#[test]
fn single_plane_hit_then_escape_is_tinted_by_distance() {
    // the XY plane, camera at (0,0,-5) looking straight down +z: the
    // centre ray crosses at t == 5, reflects with its z sign flipped,
    // escapes on the next bounce, and is tinted by the distance
    let cfg = Config::new(3, 3, 5).unwrap();
    let mut tracer = Tracer::new(cfg, straight_down_z_camera());
    tracer.add_object(Primitive::Plane(Plane { a: 0, b: 0, c: 1000, d: 0 }));
    let ray = tracer.camera.ray_for_pixel(1, 1, 3, 3, 5);
    assert_eq!(ray.d, v(0, 0, 1000));
    let c = tracer.recursive_trace(ray);
    assert_eq!(c, Color { r: 12, g: 25, b: 51, a: 255 });
}

#[test]
fn empty_scene_renders_the_background_everywhere() {
    let cfg = Config::new(4, 4, 5).unwrap();
    let mut tracer = Tracer::new(cfg, straight_down_z_camera());
    tracer.set_hit_img();
    let bg = background_color();
    for &(x, y) in &[(0u32, 0u32), (3, 0), (0, 3), (3, 3), (1, 2)] {
        assert_eq!(tracer.canvas.get(x, y), bg);
    }
}

#[test]
fn mirror_trap_exhausts_the_budget_and_terminates() {
    // two parallel mirrors facing each other: the ray ping-pongs until
    // the budget runs out and takes the background colour
    let cfg = Config::new(3, 3, 5).unwrap();
    let mut tracer = Tracer::new(cfg, straight_down_z_camera());
    tracer.add_object(Primitive::Plane(Plane { a: 0, b: 0, c: 1000, d: -5000 }));
    tracer.add_object(Primitive::Plane(Plane { a: 0, b: 0, c: -1000, d: -5000 }));
    let ray = tracer.camera.ray_for_pixel(1, 1, 3, 3, 5);
    let c = tracer.recursive_trace(ray);
    assert_eq!(c, background_color());
}

#[test]
fn nearest_hit_wins_regardless_of_scene_order() {
    // planes at z == 8 and z == 5, the farther first in the scene; the
    // nearer one must decide the pixel (tint of 10 units travelled from
    // z == -5, not of 13)
    let cfg = Config::new(3, 3, 5).unwrap();
    let mut tracer = Tracer::new(cfg, straight_down_z_camera());
    tracer.add_object(Primitive::Plane(Plane { a: 0, b: 0, c: 1000, d: -8000 }));
    tracer.add_object(Primitive::Plane(Plane { a: 0, b: 0, c: 1000, d: -5000 }));
    let ray = tracer.camera.ray_for_pixel(1, 1, 3, 3, 5);
    let c = tracer.recursive_trace(ray);
    assert_eq!(c, Color { r: 6, g: 12, b: 25, a: 255 });
}

#[test]
fn tracer_starts_with_a_zeroed_canvas() {
    let cfg = Config::new(4, 4, 5).unwrap();
    let tracer = Tracer::new(cfg, straight_down_z_camera());
    assert_eq!(tracer.canvas.width(), 4);
    assert_eq!(tracer.canvas.height(), 4);
    assert_eq!(tracer.canvas.get(0, 0), Color { r: 0, g: 0, b: 0, a: 0 });
    assert_eq!(tracer.canvas.get(3, 3), Color { r: 0, g: 0, b: 0, a: 0 });
}

#[test]
fn sphere_scene_full_trace() {
    // a unit sphere dead ahead: first bounce at the far pole, then the
    // ray is trapped between the poles until the budget runs out
    let cfg = Config::new(3, 3, 5).unwrap();
    let mut tracer = Tracer::new(cfg, straight_down_z_camera());
    tracer.add_object(Primitive::Sphere(Sphere { x0: 0, y0: 0, z0: 0, r: 1000 }));
    let ray = tracer.camera.ray_for_pixel(1, 1, 3, 3, 5);
    let c = tracer.recursive_trace(ray);
    assert_eq!(c, background_color());
}

#[test]
fn create_world_populates_the_demo_scene() {
    let cfg = Config::new(4, 4, 5).unwrap();
    let mut tracer = Tracer::new(cfg, straight_down_z_camera());
    tracer.create_world();
    assert_eq!(tracer.scene.len(), 4);
    assert_eq!(tracer.scene.get(0).get_location(), (4000, 4000, 4000));
    assert_eq!(tracer.scene.get(2).get_location(), (-7000, 2000, 0));
    assert_eq!(tracer.scene.get(3).get_location(), (-5000, 0, 0));
}

#[test]
fn background_gradient_values() {
    let cfg = Config::new(4, 4, 5).unwrap();
    let mut tracer = Tracer::new(cfg, straight_down_z_camera());
    tracer.draw_background();
    assert_eq!(tracer.canvas.get(0, 0), Color { r: 0, g: 0, b: 0, a: 255 });
    assert_eq!(tracer.canvas.get(3, 3), Color { r: 191, g: 191, b: 191, a: 255 });
    assert_eq!(tracer.canvas.get(1, 2), Color { r: 127, g: 63, b: 95, a: 255 });
}

#[test]
fn canvas_starts_zeroed_and_keeps_what_is_put() {
    let mut canvas = Canvas::new(2, 2);
    assert_eq!(canvas.width(), 2);
    assert_eq!(canvas.height(), 2);
    assert_eq!(canvas.get(1, 1), Color { r: 0, g: 0, b: 0, a: 0 });
    let c = Color { r: 9, g: 8, b: 7, a: 6 };
    canvas.put(1, 0, c);
    assert_eq!(canvas.get(1, 0), c);
    assert_eq!(canvas.get(0, 0), Color { r: 0, g: 0, b: 0, a: 0 });
}

#[test]
fn canvas_raw_layout_is_row_major_rgba() {
    let mut canvas = Canvas::new(2, 2);
    canvas.put(1, 0, Color { r: 1, g: 2, b: 3, a: 4 });
    canvas.put(0, 1, Color { r: 5, g: 6, b: 7, a: 8 });
    let bytes = canvas.to_raw();
    assert_eq!(bytes.len(), 16);
    assert_eq!(&bytes[4..8], &[1, 2, 3, 4]);
    assert_eq!(&bytes[8..12], &[5, 6, 7, 8]);
    assert_eq!(&bytes[0..4], &[0, 0, 0, 0]);
}
