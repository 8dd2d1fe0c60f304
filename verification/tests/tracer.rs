//! End-to-end behavior of the tracer: intersection, scattering, the
//! integrator, the interaction state machine and whole-frame rendering.

use raytrace::color::Color;
use raytrace::image::{Image, InputEvent, State};
use raytrace::hittable::HitRecord;
use raytrace::material::Material;
use raytrace::ray::Ray;
use raytrace::rng::Rng64;
use raytrace::sphere::Sphere;
use raytrace::vector::Vector;

const FX_MAX: i64 = 1_000_000_000_000_000_000;

fn gray_lambertian() -> Material {
    Material::new_lambertian(Color::new(500_000, 500_000, 500_000))
}

/// A small image whose scene is replaced by the given spheres.
fn image_with_world(world: Vec<Sphere>, seed: u64) -> Image {
    let mut im = Image::new_with_seed(16, 12, 2, 3, seed);
    im.world = world;
    im
}

#[test]
fn miss_returns_sky_gradient_independent_of_scene() {
    // A ray pointing straight up: the gradient parameter is one, so the
    // color is exactly the sky blue, whatever the scene holds.
    let ray = Ray::new(Vector::new(0, 10_000_000, 0), Vector::new(0, 1_000_000, 0));

    let empty = image_with_world(vec![], 1);
    let mut rng = Rng64::new(99);
    let c1 = empty.ray_color(&ray, 5, &mut rng);
    assert_eq!(c1, Color::new(500_000, 700_000, 1_000_000));
    // A miss consults no randomness.
    assert_eq!(rng.state, Rng64::new(99).state);

    // A sphere nowhere near the ray's path changes nothing.
    let aside = image_with_world(
        vec![Sphere::new(Vector::new(0, -50_000_000, 0), 1_000_000, gray_lambertian())],
        1,
    );
    let mut rng2 = Rng64::new(7);
    let c2 = aside.ray_color(&ray, 5, &mut rng2);
    assert_eq!(c1, c2);

    // A downward ray blends toward white instead.
    let down = Ray::new(Vector::new(0, 10_000_000, 0), Vector::new(0, -1_000_000, 0));
    let c3 = empty.ray_color(&down, 5, &mut rng);
    assert_eq!(c3, Color::new(1_000_000, 1_000_000, 1_000_000));
}

#[test]
fn head_on_hit_has_antiparallel_normal_and_front_face() {
    let sphere = Sphere::new(Vector::new(0, 0, -2_000_000), 1_000_000, gray_lambertian());
    let ray = Ray::new(Vector::new(0, 0, 0), Vector::new(0, 0, -1_000_000));
    let mut rec = HitRecord::new();
    let hit = sphere.hit(&ray, 1_000, FX_MAX, &mut rec);
    assert!(hit);
    assert_eq!(rec.t, Some(1_000_000));
    assert_eq!(rec.point, Some(Vector::new(0, 0, -1_000_000)));
    assert_eq!(rec.front_face, Some(true));
    // The stored normal is exactly the incoming direction negated.
    assert_eq!(rec.normal, Some(Vector::new(0, 0, 1_000_000)));
}

#[test]
fn ray_from_inside_reports_back_face_with_inward_normal() {
    let sphere = Sphere::new(Vector::new(0, 0, 0), 2_000_000, gray_lambertian());
    let ray = Ray::new(Vector::new(0, 0, 0), Vector::new(0, 0, -1_000_000));
    let mut rec = HitRecord::new();
    let hit = sphere.hit(&ray, 1_000, FX_MAX, &mut rec);
    assert!(hit);
    assert_eq!(rec.t, Some(2_000_000));
    assert_eq!(rec.front_face, Some(false));
    // The geometric outward normal at the hit is (0,0,-1); the record
    // stores it negated, pointing back inward.
    assert_eq!(rec.normal, Some(Vector::new(0, 0, 1_000_000)));
}

#[test]
fn nearest_of_two_overlapping_spheres_wins() {
    let near = Sphere::new(Vector::new(0, 0, -3_000_000), 1_000_000, gray_lambertian());
    let far = Sphere::new(
        Vector::new(0, 0, -4_000_000),
        1_500_000,
        Material::new_metal(Color::new(900_000, 900_000, 900_000), 0),
    );
    let ray = Ray::new(Vector::new(0, 0, 0), Vector::new(0, 0, -1_000_000));

    // Whichever order the scene lists them in, the nearer root is reported.
    for world in [vec![near, far], vec![far, near]] {
        let im = image_with_world(world, 3);
        let mut rec = HitRecord::new();
        let hit = im.hit(&ray, 1_000, FX_MAX, &mut rec);
        assert!(hit);
        assert_eq!(rec.t, Some(2_000_000));
        assert_eq!(rec.point, Some(Vector::new(0, 0, -2_000_000)));
    }
}

#[test]
fn same_seed_renders_identical_frames() {
    let mut im1 = Image::new_with_seed(16, 12, 2, 3, 42);
    let mut im2 = Image::new_with_seed(16, 12, 2, 3, 42);
    let len = 16 * 12 * 4;
    // Different prior contents: a full static pass overwrites every byte.
    let mut f1: Vec<u8> = vec![0; len];
    let mut f2: Vec<u8> = vec![170; len];
    im1.draw(&mut f1);
    im2.draw(&mut f2);
    assert_eq!(f1, f2);
    assert!(im1.full_rendered);

    // Once fully rendered, a further draw touches nothing.
    let snapshot = f1.clone();
    im1.draw(&mut f1);
    assert_eq!(f1, snapshot);
}

#[test]
fn different_seeds_differ_somewhere() {
    let mut im1 = Image::new_with_seed(12, 8, 2, 3, 1);
    let mut im2 = Image::new_with_seed(12, 8, 2, 3, 2);
    let len = 12 * 8 * 4;
    let mut f1: Vec<u8> = vec![0; len];
    let mut f2: Vec<u8> = vec![0; len];
    im1.draw(&mut f1);
    im2.draw(&mut f2);
    assert_ne!(f1, f2);
}

#[test]
fn depth_zero_is_pure_white_without_recursing() {
    let im = image_with_world(
        vec![Sphere::new(Vector::new(0, 0, -2_000_000), 1_000_000, gray_lambertian())],
        5,
    );
    // Even a ray aimed straight at a sphere comes back white at depth 0,
    // and the sampler state is untouched.
    let ray = Ray::new(Vector::new(0, 0, 0), Vector::new(0, 0, -1_000_000));
    let mut rng = Rng64::new(123);
    let c = im.ray_color(&ray, 0, &mut rng);
    assert_eq!(c, Color::new(1_000_000, 1_000_000, 1_000_000));
    assert_eq!(rng.state, 123);
}

#[test]
fn diffuse_sphere_scene_renders_darker_than_sky() {
    // One diffuse sphere of radius 0.5 at (0,0,-1) over a ground sphere of
    // radius 100 at (0,-100.5,-1), viewed from the origin.
    let mut im = Image::new_with_seed(24, 16, 10, 8, 11);
    im.world = vec![
        Sphere::new(Vector::new(0, 0, -1_000_000), 500_000, gray_lambertian()),
        Sphere::new(
            Vector::new(0, -100_500_000, -1_000_000),
            100_000_000,
            Material::new_lambertian(Color::new(800_000, 800_000, 0)),
        ),
    ];
    im.update_position_and_look(Vector::new(0, 0, 0), Vector::new(0, 0, -1_000_000));

    // The image center lands on the sphere; the top edge is sky.
    let on_sphere = im.get_pixel_color(12, 8, 10).pixels(10);
    let on_sky = im.get_pixel_color(12, 15, 10).pixels(10);
    let sphere_sum = on_sphere.0 as u32 + on_sphere.1 as u32 + on_sphere.2 as u32;
    let sky_sum = on_sky.0 as u32 + on_sky.1 as u32 + on_sky.2 as u32;
    assert!(sphere_sum < sky_sum, "sphere {sphere_sum} vs sky {sky_sum}");
}

#[test]
fn zero_fuzz_metal_reflects_exactly_and_reproducibly() {
    let metal = Material::new_metal(Color::new(900_000, 800_000, 700_000), 0);
    let sphere = Sphere::new(Vector::new(0, 2_000_000, -2_000_000), 1_000_000, metal);
    // A diagonal ray: unit direction has equal parts forward and up.
    let ray = Ray::new(Vector::new(0, 0, 0), Vector::new(0, 1_000_000, -1_000_000));
    let mut rec = HitRecord::new();
    assert!(sphere.hit(&ray, 1_000, FX_MAX, &mut rec));

    let mut att1 = Color::new_black();
    let mut scat1 = Ray::new(Vector::new_empty(), Vector::new_empty());
    let mut rng1 = Rng64::new(1);
    let ok1 = metal.scatter_metal(&ray, &rec, &mut att1, &mut scat1, &mut rng1);

    let mut att2 = Color::new_black();
    let mut scat2 = Ray::new(Vector::new_empty(), Vector::new_empty());
    let mut rng2 = Rng64::new(987654321);
    let ok2 = metal.scatter_metal(&ray, &rec, &mut att2, &mut scat2, &mut rng2);

    // With zero fuzz the perturbation term vanishes: the direction is the
    // exact reflection, identical under any sampler seed.
    assert_eq!(ok1, ok2);
    assert_eq!(scat1.direction, scat2.direction);
    let expected = ray.direction.unit_vector().reflect(&rec.normal.unwrap());
    assert_eq!(scat1.direction, expected);
    assert_eq!(att1, Color::new(900_000, 800_000, 700_000));
}

#[test]
fn metal_fuzz_is_capped_at_one() {
    let m = Material::new_metal(Color::new(500_000, 500_000, 500_000), 2_000_000);
    assert_eq!(m.fuzz, 1_000_000);
    let kept = Material::new_metal(Color::new(500_000, 500_000, 500_000), 300_000);
    assert_eq!(kept.fuzz, 300_000);
}

#[test]
fn dielectric_always_scatters() {
    let glass = Material::new_dielectric(Color::new(1_000_000, 1_000_000, 1_000_000), 1_500_000);
    let sphere = Sphere::new(Vector::new(0, 0, -2_000_000), 1_000_000, glass);
    let ray = Ray::new(Vector::new(0, 0, 0), Vector::new(0, 0, -1_000_000));
    let mut rec = HitRecord::new();
    assert!(sphere.hit(&ray, 1_000, FX_MAX, &mut rec));

    let mut att = Color::new_black();
    let mut scat = Ray::new(Vector::new_empty(), Vector::new_empty());
    let mut rng = Rng64::new(5);
    let ok = glass.scatter(&ray, &rec, &mut att, &mut scat, &mut rng);
    assert!(ok);
    assert_eq!(att, Color::new(1_000_000, 1_000_000, 1_000_000));
}

#[test]
fn panning_moves_viewpoint_by_scaled_deltas() {
    let mut im = Image::new_with_seed(100, 50, 1, 1, 7);
    im.handle_device(&InputEvent::Button { button: 1, pressed: true });
    assert_eq!(im.state, State::Panning);
    assert_eq!(im.steps, 3);

    // dx of 50 pixels over a 100-pixel width, times 3: 1.5 units.
    im.handle_device(&InputEvent::MouseMotion { dx: 50_000_000, dy: 25_000_000 });
    assert_eq!(im.look_at, Vector::new(-1_500_000, 1_500_000, 0));
    assert_eq!(im.look_from, Vector::new(-1_500_000, 3_500_000, 4_000_000));
    assert!(!im.full_rendered);

    im.handle_device(&InputEvent::Button { button: 1, pressed: false });
    assert_eq!(im.state, State::Static);
}

#[test]
fn right_button_rotates_and_other_buttons_are_ignored() {
    let mut im = Image::new_with_seed(10, 10, 1, 1, 7);
    im.handle_device(&InputEvent::Button { button: 3, pressed: true });
    assert_eq!(im.state, State::Rotating);
    im.handle_device(&InputEvent::Button { button: 2, pressed: true });
    assert_eq!(im.state, State::Rotating);
    // Motion while rotating only invalidates the frame.
    let at = im.look_at;
    im.handle_device(&InputEvent::MouseMotion { dx: 9_000_000, dy: 9_000_000 });
    assert_eq!(im.look_at, at);
    assert!(!im.full_rendered);
    im.handle_device(&InputEvent::Button { button: 3, pressed: false });
    assert_eq!(im.state, State::Static);
}

#[test]
fn scroll_dollies_along_view_axis() {
    let mut im = Image::new_with_seed(10, 10, 1, 1, 7);
    // 120 device units is one click, which moves both viewpoint points by
    // one unit along the view axis. From (0,2,4) toward (0,0,0) the unit
    // view axis is (0, 2, 4)/sqrt(20), truncated on the fixed-point scale.
    let axis = im.look_from.sub(im.look_at).unit_vector();
    assert_eq!(axis, Vector::new(0, 447_213, 894_427));
    im.handle_device(&InputEvent::MouseWheel { delta: 120_000_000 });
    assert_eq!(im.look_from, Vector::new(0, 2_447_213, 4_894_427));
    assert_eq!(im.look_at, Vector::new(0, 447_213, 894_427));
    assert!(!im.full_rendered);

    // The displacement scales with the delta: half a click, half a unit.
    let mut im2 = Image::new_with_seed(10, 10, 1, 1, 7);
    im2.handle_device(&InputEvent::MouseWheel { delta: 60_000_000 });
    assert_eq!(im2.look_at, Vector::new(0, 223_606, 447_213));
}

#[test]
fn resize_rebuilds_or_is_ignored() {
    let mut im = Image::new_with_seed(10, 10, 1, 1, 7);
    let cam = im.camera;
    im.resize(0, 24);
    assert_eq!(im.width(), 10);
    assert_eq!(im.height(), 10);
    assert_eq!(im.camera, cam);

    im.resize(20, 10);
    assert_eq!(im.width(), 20);
    assert_eq!(im.height(), 10);
    assert_ne!(im.camera, cam);
    assert!(!im.full_rendered);
}

#[test]
fn clear_zeroes_only_unfinished_frames() {
    let mut im = Image::new_with_seed(4, 4, 1, 1, 7);
    let mut frame: Vec<u8> = vec![9; 64];
    im.clear(&mut frame);
    assert!(frame.iter().all(|b| *b == 0));

    im.full_rendered = true;
    let mut frame2: Vec<u8> = vec![9; 64];
    im.clear(&mut frame2);
    assert!(frame2.iter().all(|b| *b == 9));
}

#[test]
fn interactive_pass_leaves_off_grid_pixels_alone() {
    let mut im = Image::new_with_seed(8, 8, 2, 3, 21);
    im.state = State::Panning;
    let mut frame: Vec<u8> = vec![7; 8 * 8 * 4];
    im.draw(&mut frame);
    assert!(!im.full_rendered);
    assert_eq!(im.steps, 3);
    // Pixel (1, 1) is off the stride-3 grid: its bytes are untouched.
    let p = 1 + 8 * (8 - 1 - 1);
    assert_eq!(&frame[4 * p..4 * p + 4], &[7, 7, 7, 7]);
    // Pixel (0, 0) sits on the grid: alpha was written.
    let q = 0 + 8 * (8 - 1 - 0);
    assert_eq!(frame[4 * q + 3], 255);
}

#[test]
fn pixel_bytes_quantize_with_gamma() {
    // Full white over one sample: clamped just below one, scaled to 255.
    assert_eq!(Color::new(1_000_000, 1_000_000, 1_000_000).pixels(1), (255, 255, 255));
    // Black stays black.
    assert_eq!(Color::new_black().pixels(1), (0, 0, 0));
    // A quarter intensity gamma-corrects to one half: byte 128.
    assert_eq!(Color::new(250_000, 0, 0).pixels(1), (128, 0, 0));
    // Averaging: two samples of one half each.
    assert_eq!(Color::new(1_000_000, 0, 0).pixels(2), (181, 0, 0));
}

#[test]
fn seeded_sampler_is_reproducible() {
    let mut a = Rng64::new(5);
    let mut b = Rng64::new(5);
    for _ in 0..10 {
        assert_eq!(a.next_u64(), b.next_u64());
    }
    let u = a.next_unit();
    assert!((0..1_000_000).contains(&u));
    let r = a.next_range(-3_000_000, 3_000_000);
    assert!((-3_000_000..3_000_000).contains(&r));
}

#[test]
fn canonical_scene_has_its_feature_spheres() {
    let mut rng = Rng64::new(1);
    let world = raytrace::image::random_world(&mut rng);
    assert!(world.len() >= 4);
    assert_eq!(world[0].center, Vector::new(0, -1_000_000_000, 0));
    assert_eq!(world[0].radius, 1_000_000_000);
    assert_eq!(world[1].center, Vector::new(0, 1_000_000, 0));
    assert_eq!(world[2].center, Vector::new(-4_000_000, 1_000_000, 0));
    assert_eq!(world[3].center, Vector::new(4_000_000, 1_000_000, 0));
    for s in world.iter().skip(4) {
        assert_eq!(s.radius, 200_000);
        assert_eq!(s.center.y(), 200_000);
    }
}

#[test]
fn degrees_convert_exactly_at_half_turn() {
    // 180 degrees is pi radians on the fixed-point scale.
    assert_eq!(raytrace::camera::degree_to_radian(180_000_000), raytrace::camera::PI_FX);
    assert_eq!(raytrace::camera::degree_to_radian(0), 0);
}

#[test]
fn perpendicular_refraction_passes_straight_through() {
    // A ray meeting the surface head-on refracts without bending, for any
    // refraction ratio.
    let ud = Vector::new(0, 0, -1_000_000);
    let n = Vector::new(0, 0, 1_000_000);
    for eta in [500_000, 666_666, 1_500_000] {
        assert_eq!(ud.refract(&n, eta), ud);
    }
}

#[test]
fn entropy_seeded_image_is_well_formed() {
    // The entropy-seeded constructor behaves like the explicit one in
    // everything but the seed.
    let im = Image::new(9, 7, 4, 6);
    assert_eq!(im.width(), 9);
    assert_eq!(im.height(), 7);
    assert_eq!(im.max_samples(), 4);
    assert_eq!(im.max_depth(), 6);
    assert_eq!(im.state, State::Static);
    assert!(!im.full_rendered);
    assert!(im.world.len() >= 4);
}

#[test]
fn cross_product_is_standard_and_orthogonal() {
    // The case that separates the standard formula from a transposed one:
    // (0,0,1) x (1,0,0) is (0,1,0), with a zero first component.
    let a = Vector::new(0, 0, 1_000_000);
    let b = Vector::new(1_000_000, 0, 0);
    assert_eq!(a.cross(&b), Vector::new(0, 1_000_000, 0));

    // An exact integer case: (1,2,3) x (4,5,6) = (-3, 6, -3), orthogonal
    // to both factors.
    let p = Vector::new(1_000_000, 2_000_000, 3_000_000);
    let q = Vector::new(4_000_000, 5_000_000, 6_000_000);
    let c = p.cross(&q);
    assert_eq!(c, Vector::new(-3_000_000, 6_000_000, -3_000_000));
    assert_eq!(c.dot(&p), 0);
    assert_eq!(c.dot(&q), 0);

    // A vector crossed with itself vanishes.
    assert_eq!(p.cross(&p), Vector::new_empty());
}

#[test]
fn camera_viewport_basis_is_orthogonal() {
    // The viewport edges stay orthogonal to the view direction and to each
    // other, up to fixed-point rounding.
    let im = Image::new_with_seed(32, 24, 1, 1, 13);
    let cam = im.camera;
    let w = im.look_from.sub(im.look_at).unit_vector();
    let tolerance = 10_000; // 0.01 on vectors of magnitude one to four
    assert!(cam.horizontal.dot(&w).abs() < tolerance);
    assert!(cam.vertical.dot(&w).abs() < tolerance);
    assert!(cam.horizontal.dot(&cam.vertical).abs() < tolerance);
}

#[test]
fn scattered_field_clears_all_three_feature_spheres() {
    let mut rng = Rng64::new(6);
    let world = raytrace::image::random_world(&mut rng);
    let features = [
        Vector::new(0, 1_000_000, 0),
        Vector::new(-4_000_000, 1_000_000, 0),
        Vector::new(4_000_000, 1_000_000, 0),
    ];
    for s in world.iter().skip(4) {
        for f in features {
            assert!(s.center.sub(f).length() > 900_000);
        }
    }
}
