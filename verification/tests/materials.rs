//! Material scattering: diffuse surfaces never absorb; metals absorb
//! exactly when the perturbed reflection dips below the surface.

use raytracer::colour::Colour;
use raytracer::fixed::{Fix, SCALE};
use raytracer::hittable::Hit;
use raytracer::lambertian::Lambertian;
use raytracer::metal::Metal;
use raytracer::point3::Point3;
use raytracer::ray::Ray;
use raytracer::vec3::Vec3;

fn fx(units: i64) -> Fix {
    Fix::from_int(units)
}

fn vec(x: Fix, y: Fix, z: Fix) -> Vec3 {
    Vec3 { x, y, z }
}

fn upward_hit() -> Hit {
    let mut hit = Hit::new();
    hit.p = Point3::new(fx(0), fx(0), fx(-1));
    hit.normal = vec(fx(0), fx(1), fx(0));
    hit
}

#[test]
fn lambertian_always_scatters() {
    let albedo = Colour::new(fx(1), fx(0), fx(0));
    let mat = Lambertian::new(&albedo);
    let ray = Ray::new(Point3::new(fx(0), fx(0), fx(0)), vec(fx(0), fx(-1), fx(0)));
    let hit = upward_hit();
    let sample = vec(fx(0), fx(0), fx(1));
    let s = mat.scatter(&ray, &hit, sample).expect("a diffuse surface never absorbs");
    assert_eq!(s.attenuation, albedo);
    assert_eq!(s.scattered.origin, hit.p);
    // Direction: normal plus the sample.
    assert_eq!(
        (s.scattered.direction.x.raw, s.scattered.direction.y.raw, s.scattered.direction.z.raw),
        (0, SCALE, SCALE),
    );
}

#[test]
fn lambertian_falls_back_to_the_normal_on_a_degenerate_sample() {
    let mat = Lambertian::new(&Colour::new(fx(1), fx(1), fx(1)));
    let ray = Ray::new(Point3::new(fx(0), fx(0), fx(0)), vec(fx(0), fx(-1), fx(0)));
    let hit = upward_hit();
    // The sample exactly cancels the normal.
    let sample = vec(fx(0), fx(-1), fx(0));
    let s = mat.scatter(&ray, &hit, sample).expect("still scatters");
    assert_eq!(
        (s.scattered.direction.x.raw, s.scattered.direction.y.raw, s.scattered.direction.z.raw),
        (0, SCALE, 0),
    );
}

#[test]
fn metal_reflects_about_the_normal() {
    let albedo = Colour::new(fx(1), fx(1), fx(1));
    let mat = Metal::new(&albedo, Fix { raw: 0 });
    let ray = Ray::new(Point3::new(fx(0), fx(1), fx(0)), vec(fx(0), fx(-1), fx(0)));
    let hit = upward_hit();
    let sample = vec(fx(1), fx(1), fx(1));  // ignored: fuzz is zero
    let s = mat.scatter(&ray, &hit, sample).expect("a head-on reflection points away");
    assert_eq!(
        (s.scattered.direction.x.raw, s.scattered.direction.y.raw, s.scattered.direction.z.raw),
        (0, SCALE, 0),
    );
    assert_eq!(s.attenuation, albedo);
}

#[test]
fn metal_absorbs_exactly_when_the_reflection_dips_below_the_surface() {
    let albedo = Colour::new(fx(1), fx(1), fx(1));
    let mat = Metal::new(&albedo, fx(1));
    let ray = Ray::new(Point3::new(fx(0), fx(1), fx(0)), vec(fx(0), fx(-1), fx(0)));
    let hit = upward_hit();
    // Reflection is (0, 1, 0); a fuzz sample of (0, -2, 0) drags it to
    // (0, -1, 0), below the surface: absorbed.
    let below = mat.scatter(&ray, &hit, vec(fx(0), fx(-2), fx(0)));
    assert!(below.is_none());
    // A fuzz sample of (0, -1, 0) lands exactly on the surface plane:
    // still absorbed (the dot product is zero, not positive).
    let grazing = mat.scatter(&ray, &hit, vec(fx(0), fx(-1), fx(0)));
    assert!(grazing.is_none());
    // A gentler sample keeps the reflection above the surface: scattered.
    let above = mat.scatter(&ray, &hit, vec(Fix { raw: SCALE / 4 }, fx(0), fx(0)));
    assert!(above.is_some());
}

#[test]
fn metal_fuzz_is_clamped_at_construction() {
    let albedo = Colour::new(fx(1), fx(1), fx(1));
    assert_eq!(Metal::new(&albedo, fx(3)).fuzz.raw, SCALE);
    assert_eq!(Metal::new(&albedo, fx(-3)).fuzz.raw, 0);
    assert_eq!(Metal::new(&albedo, Fix { raw: 1234 }).fuzz.raw, 1234);
}
