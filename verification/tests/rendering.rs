//! The colour estimator, pixel encoding, and end-to-end rendering.

use rand::SeedableRng;

use raytracer::camera::Camera;
use raytracer::colour::Colour;
use raytracer::fixed::{Fix, SCALE};
use raytracer::hittable::Hittable;
use raytracer::hittable_list::HittableList;
use raytracer::lambertian::Lambertian;
use raytracer::material::Material;
use raytracer::metal::Metal;
use raytracer::point3::Point3;
use raytracer::ray::Ray;
use raytracer::render::{ray_colour, render, render_row};
use raytracer::sphere::Sphere;
use raytracer::vec3::Vec3;

fn fx(units: i64) -> Fix {
    Fix::from_int(units)
}

fn vec(x: Fix, y: Fix, z: Fix) -> Vec3 {
    Vec3 { x, y, z }
}

fn rng_with(seed: u64) -> rand::rngs::StdRng {
    rand::rngs::StdRng::seed_from_u64(seed)
}

fn one_sphere_world() -> HittableList {
    let half = Fix { raw: SCALE / 2 };
    let albedo = Colour::new(half, half, half);
    let sphere = Sphere::new(
        Point3::new(fx(0), fx(0), fx(-1)),
        Fix { raw: SCALE / 2 },
        Material::Lambertian(Lambertian::new(&albedo)),
    );
    let mut world = HittableList::new();
    world.add(Hittable::Sphere(sphere));
    world
}

#[test]
fn depth_zero_returns_black_regardless_of_scene() {
    let world = one_sphere_world();
    let mut rng = rng_with(7);
    let ray = Ray::new(Point3::new(fx(0), fx(0), fx(0)), vec(fx(0), fx(0), fx(-1)));
    let c = ray_colour(&ray, &world, 0, &mut rng);
    assert_eq!((c.r().raw, c.g().raw, c.b().raw), (0, 0, 0));
    let c2 = ray_colour(&ray, &world, -3, &mut rng);
    assert_eq!((c2.r().raw, c2.g().raw, c2.b().raw), (0, 0, 0));
}

#[test]
fn missing_camera_ray_returns_the_background_gradient() {
    let world = one_sphere_world();
    let empty = HittableList::new();
    let cam = Camera::new();
    let mut rng = rng_with(7);
    // The middle of the top edge points well above the sphere.
    let ray = cam.get_ray(Fix { raw: SCALE / 2 }, fx(1));
    let c = ray_colour(&ray, &world, 8, &mut rng);
    // Not black and not the sphere's albedo: the white/sky-blue blend keeps
    // the blue channel at full intensity.
    assert_eq!(c.b().raw, SCALE);
    assert!(c.r().raw > 0);
    assert!(c.g().raw > c.r().raw);
    // The background depends on the direction alone: an empty scene gives
    // the same colour for the same ray.
    let expected = ray_colour(&ray, &empty, 8, &mut rng);
    assert_eq!(c, expected);
}

#[test]
fn fuzzless_metal_bounces_to_the_background_deterministically() {
    let albedo = Colour::new(Fix { raw: 52428 }, Fix { raw: 52428 }, Fix { raw: 52428 });
    let sphere = Sphere::new(
        Point3::new(fx(0), fx(0), fx(-1)),
        Fix { raw: SCALE / 2 },
        Material::Metal(Metal::new(&albedo, Fix { raw: 0 })),
    );
    let mut world = HittableList::new();
    world.add(Hittable::Sphere(sphere));
    let mut rng = rng_with(7);
    let ray = Ray::new(Point3::new(fx(0), fx(0), fx(0)), vec(fx(0), fx(0), fx(-1)));
    // The mirror bounce goes straight back up the axis and misses, so the
    // result is the albedo times the background at direction (0, 0, 1).
    let c = ray_colour(&ray, &world, 4, &mut rng);
    let up = Ray::new(Point3::new(fx(0), fx(0), fx(0)), vec(fx(0), fx(0), fx(1)));
    let empty = HittableList::new();
    let background = ray_colour(&up, &empty, 4, &mut rng);
    let expected = albedo.mul(background);
    assert_eq!(c, expected);
    // The bounced ray was attenuated: strictly darker than the background.
    assert!(c.b().raw < background.b().raw);
}

#[test]
fn absorbed_rays_are_black() {
    // With a depth budget of 1 a diffuse hit recurses once into depth 0,
    // which is black, so the attenuated result is black too.
    let world = one_sphere_world();
    let mut rng = rng_with(11);
    let ray = Ray::new(Point3::new(fx(0), fx(0), fx(0)), vec(fx(0), fx(0), fx(-1)));
    let c = ray_colour(&ray, &world, 1, &mut rng);
    assert_eq!((c.r().raw, c.g().raw, c.b().raw), (0, 0, 0));
}

#[test]
fn estimates_stay_within_unit_intensity_under_unit_albedos() {
    // Every albedo in this scene is at most one, so no estimate can exceed
    // full intensity on any channel, whatever the draws were.
    let world = one_sphere_world();
    let cam = Camera::new();
    let mut rng = rng_with(21);
    for step in 0..16i64 {
        let u = Fix { raw: step * SCALE / 16 };
        let v = Fix { raw: (15 - step) * SCALE / 16 };
        let ray = cam.get_ray(u, v);
        let c = ray_colour(&ray, &world, 8, &mut rng);
        for i in 0..3 {
            let ch = c.channels.index(i).raw;
            assert!(0 <= ch && ch <= SCALE, "channel raw was {}", ch);
        }
    }
}

#[test]
fn full_intensity_clamps_to_255_not_256() {
    let one = fx(1);
    let c = Colour::new(one, one, one);
    assert_eq!(c.pixel_triple(), (255, 255, 255));
    // Averaging one sample of full intensity and gamma-correcting keeps it
    // at full intensity; the clamp before scaling still caps at 255.
    assert_eq!(c.gamma_corrected(1).pixel_triple(), (255, 255, 255));
}

#[test]
fn gamma_correction_takes_the_square_root_of_the_average() {
    // Two samples summing to 0.5: average 0.25, square root 0.5.
    let c = Colour::new(Fix { raw: SCALE / 2 }, fx(0), fx(2));
    let g = c.gamma_corrected(2);
    assert_eq!(g.r().raw, SCALE / 2);
    assert_eq!(g.g().raw, 0);
    assert_eq!(g.b().raw, SCALE);
    // 0.5 scales to 128 of 256.
    assert_eq!(g.pixel_triple().0, 128);
}

#[test]
fn pixel_string_formats_the_encoded_triple() {
    let one = fx(1);
    assert_eq!(Colour::new(one, one, one).pixel_string(), "255 255 255\n");
    let c = Colour::new(fx(0), Fix { raw: SCALE / 2 }, Fix { raw: 2560 });
    assert_eq!(c.pixel_string(), "0 128 10\n");
}

#[test]
fn negative_channels_encode_to_zero() {
    let c = Colour::new(fx(-1), fx(0), fx(1));
    assert_eq!(c.pixel_triple(), (0, 0, 255));
}

#[test]
fn render_emits_one_triple_per_pixel_in_row_major_order() {
    let world = one_sphere_world();
    let cam = Camera::new();
    let mut rng = rng_with(5);
    let pixels = render(&cam, &world, 4, 2, 1, 4, &mut rng);
    assert_eq!(pixels.len(), 8);
    let mut rng_top = rng_with(5);
    let top_row = render_row(&cam, &world, 1, 4, 2, 1, 4, &mut rng_top);
    // The first emitted row is the top scanline (j = height − 1), drawn
    // from the same generator state.
    assert_eq!(&pixels[..4], &top_row[..]);
}

#[test]
fn seeded_renders_are_reproducible() {
    let world = one_sphere_world();
    let cam = Camera::new();
    let mut rng1 = rng_with(42);
    let mut rng2 = rng_with(42);
    let first = render(&cam, &world, 4, 2, 2, 4, &mut rng1);
    let second = render(&cam, &world, 4, 2, 2, 4, &mut rng2);
    assert_eq!(first, second);
    // A different seed is allowed to differ (and here does not have to),
    // but the stream it feeds is still in range: every triple is a valid
    // pixel by construction.
    let mut rng3 = rng_with(43);
    let third = render(&cam, &world, 4, 2, 2, 4, &mut rng3);
    assert_eq!(third.len(), 8);
}

#[test]
fn random_samples_stay_in_their_ranges() {
    let mut rng = rng_with(3);
    for _ in 0..200 {
        let v = Vec3::random(&mut rng);
        for i in 0..3 {
            let c = v.index(i).raw;
            assert!(0 <= c && c < SCALE);
        }
        let w = Vec3::random_in_range(fx(-1), fx(1), &mut rng);
        for i in 0..3 {
            let c = w.index(i).raw;
            assert!(-SCALE <= c && c < SCALE);
        }
        let p = Vec3::random_in_unit_sphere(&mut rng);
        let l2 = p.length_squared().raw;
        assert!(0 < l2 && l2 < SCALE);
        // Normalizing a tiny draw can truncate coarsely, so the bound on
        // the unit vector's length is loose; it is never degenerate.
        let u = Vec3::random_unit_vector(&mut rng);
        let len = u.length().raw;
        assert!(0 < len && len <= 2 * SCALE + 256, "unit length raw was {}", len);
    }
}

#[test]
fn material_dispatch_scatters_from_the_contact_point() {
    let world = one_sphere_world();
    let mut rng = rng_with(9);
    let ray = Ray::new(Point3::new(fx(0), fx(0), fx(0)), vec(fx(0), fx(0), fx(-1)));
    let hit = world.hit(&ray, Fix { raw: 65 }, Fix { raw: i64::MAX }).expect("aimed at the sphere");
    let s = hit.material.scatter(&ray, &hit, &mut rng).expect("diffuse surfaces always scatter");
    assert_eq!(s.scattered.origin, hit.p);
    assert_eq!(s.attenuation.r().raw, SCALE / 2);
}
