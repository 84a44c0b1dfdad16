//! Ray/sphere intersection, face-normal orientation, the scene aggregate
//! and the camera.

use raytracer::colour::Colour;
use raytracer::fixed::{Fix, MAX_RAW, SCALE};
use raytracer::hittable::{Hit, Hittable};
use raytracer::hittable_list::HittableList;
use raytracer::lambertian::Lambertian;
use raytracer::material::Material;
use raytracer::point3::Point3;
use raytracer::ray::Ray;
use raytracer::sphere::Sphere;
use raytracer::vec3::Vec3;

fn fx(units: i64) -> Fix {
    Fix::from_int(units)
}

fn raw(v: i64) -> Fix {
    Fix { raw: v }
}

fn vec(x: Fix, y: Fix, z: Fix) -> Vec3 {
    Vec3 { x, y, z }
}

fn grey() -> Material {
    let half = raw(SCALE / 2);
    Material::Lambertian(Lambertian::new(&Colour::new(half, half, half)))
}

fn unit_sphere_at_minus_one() -> Sphere {
    // Center (0, 0, -1), radius 0.5.
    Sphere::new(Point3::new(fx(0), fx(0), fx(-1)), raw(SCALE / 2), grey())
}

fn t_min() -> Fix {
    raw(65)
}

fn t_max() -> Fix {
    raw(MAX_RAW)
}

#[test]
fn ray_through_center_hits_at_distance_minus_radius() {
    let s = unit_sphere_at_minus_one();
    let ray = Ray::new(Point3::new(fx(0), fx(0), fx(0)), vec(fx(0), fx(0), fx(-1)));
    let hit = s.hit(&ray, t_min(), t_max()).expect("the ray aims at the center");
    // distance 1, radius 0.5: entry at t = 0.5, exactly.
    assert_eq!(hit.t.raw, SCALE / 2);
    assert_eq!(hit.p.z().raw, -SCALE / 2);
    assert!(hit.front_face);
    assert_eq!((hit.normal.x.raw, hit.normal.y.raw, hit.normal.z.raw), (0, 0, SCALE));
}

#[test]
fn hit_outside_the_parameter_window_is_rejected() {
    let s = unit_sphere_at_minus_one();
    let ray = Ray::new(Point3::new(fx(0), fx(0), fx(0)), vec(fx(0), fx(0), fx(-1)));
    // Both roots (0.5 and 1.5) lie above an upper bound of 0.25.
    assert!(s.hit(&ray, t_min(), raw(SCALE / 4)).is_none());
    // Both roots lie below a lower bound of 2.
    assert!(s.hit(&ray, fx(2), t_max()).is_none());
}

#[test]
fn tangent_ray_has_zero_discriminant_and_one_accepted_root() {
    // Sphere of radius 1 at (0, 0, -2); the ray grazes it at x = 1.
    let s = Sphere::new(Point3::new(fx(0), fx(0), fx(-2)), fx(1), grey());
    let ray = Ray::new(Point3::new(fx(1), fx(0), fx(0)), vec(fx(0), fx(0), fx(-1)));
    let hit = s.hit(&ray, t_min(), t_max()).expect("a tangent ray touches");
    // The double root: t = 2, exactly.
    assert_eq!(hit.t.raw, 2 * SCALE);
}

#[test]
fn missing_ray_yields_no_hit() {
    let s = unit_sphere_at_minus_one();
    let ray = Ray::new(Point3::new(fx(0), fx(0), fx(0)), vec(fx(0), fx(1), fx(0)));
    assert!(s.hit(&ray, t_min(), t_max()).is_none());
}

#[test]
fn ray_from_inside_strikes_the_back_face() {
    let s = unit_sphere_at_minus_one();
    // Start at the sphere's center: the near root is behind the origin.
    let ray = Ray::new(Point3::new(fx(0), fx(0), fx(-1)), vec(fx(0), fx(0), fx(-1)));
    let hit = s.hit(&ray, t_min(), t_max()).expect("exits through the far wall");
    assert_eq!(hit.t.raw, SCALE / 2);
    assert!(!hit.front_face);
    // The stored normal is the outward normal negated: it faces the ray.
    assert_eq!((hit.normal.x.raw, hit.normal.y.raw, hit.normal.z.raw), (0, 0, SCALE));
}

#[test]
fn set_face_normal_orients_against_the_ray() {
    let mut hit = Hit::new();
    let outward = vec(fx(0), fx(0), fx(1));

    let from_outside = Ray::new(Point3::new(fx(0), fx(0), fx(0)), vec(fx(0), fx(0), fx(-1)));
    hit.set_face_normal(&from_outside, &outward);
    assert!(hit.front_face);
    assert_eq!((hit.normal.x.raw, hit.normal.y.raw, hit.normal.z.raw), (0, 0, SCALE));

    let from_inside = Ray::new(Point3::new(fx(0), fx(0), fx(0)), vec(fx(0), fx(0), fx(1)));
    hit.set_face_normal(&from_inside, &outward);
    assert!(!hit.front_face);
    assert_eq!((hit.normal.x.raw, hit.normal.y.raw, hit.normal.z.raw), (0, 0, -SCALE));
}

#[test]
fn list_returns_the_nearest_hit_regardless_of_insertion_order() {
    let near = Sphere::new(Point3::new(fx(0), fx(0), fx(-1)), raw(SCALE / 2), grey());
    let far_albedo = Colour::new(fx(1), fx(0), fx(0));
    let far = Sphere::new(
        Point3::new(fx(0), fx(0), fx(-3)),
        raw(SCALE / 2),
        Material::Lambertian(Lambertian::new(&far_albedo)),
    );
    let ray = Ray::new(Point3::new(fx(0), fx(0), fx(0)), vec(fx(0), fx(0), fx(-1)));

    let mut world = HittableList::new();
    world.add(Hittable::Sphere(far));
    world.add(Hittable::Sphere(near));
    let hit = world.hit(&ray, t_min(), t_max()).expect("two spheres on the axis");
    assert_eq!(hit.t.raw, SCALE / 2);
    assert_eq!(hit.material, near.material);

    let mut world2 = HittableList::new();
    world2.add(Hittable::Sphere(near));
    world2.add(Hittable::Sphere(far));
    let hit2 = world2.hit(&ray, t_min(), t_max()).expect("same spheres, swapped order");
    assert_eq!(hit2.t.raw, SCALE / 2);
    assert_eq!(hit2.material, near.material);
}

#[test]
fn exactly_equal_hits_tie_break_toward_the_later_surface() {
    let albedo_a = Colour::new(fx(1), fx(0), fx(0));
    let albedo_b = Colour::new(fx(0), fx(1), fx(0));
    let a = Sphere::new(
        Point3::new(fx(0), fx(0), fx(-1)),
        raw(SCALE / 2),
        Material::Lambertian(Lambertian::new(&albedo_a)),
    );
    let b = Sphere::new(
        Point3::new(fx(0), fx(0), fx(-1)),
        raw(SCALE / 2),
        Material::Lambertian(Lambertian::new(&albedo_b)),
    );
    let ray = Ray::new(Point3::new(fx(0), fx(0), fx(0)), vec(fx(0), fx(0), fx(-1)));
    let mut world = HittableList::new();
    world.add(Hittable::Sphere(a));
    world.add(Hittable::Sphere(b));
    let hit = world.hit(&ray, t_min(), t_max()).expect("both spheres coincide");
    assert_eq!(hit.t.raw, SCALE / 2);
    assert_eq!(hit.material, b.material);
}

#[test]
fn empty_list_never_hits() {
    let world = HittableList::new();
    let ray = Ray::new(Point3::new(fx(0), fx(0), fx(0)), vec(fx(0), fx(0), fx(-1)));
    assert!(world.hit(&ray, t_min(), t_max()).is_none());
}

#[test]
fn clear_empties_the_scene() {
    let mut world = HittableList::new();
    world.add(Hittable::Sphere(unit_sphere_at_minus_one()));
    world.clear();
    let ray = Ray::new(Point3::new(fx(0), fx(0), fx(0)), vec(fx(0), fx(0), fx(-1)));
    assert!(world.hit(&ray, t_min(), t_max()).is_none());
}

#[test]
fn camera_viewport_matches_the_16_by_9_aspect() {
    let cam = raytracer::camera::Camera::new();
    let ray = cam.get_ray(raw(SCALE / 2), fx(1));
    // The middle of the top edge: straight up at the viewport's height.
    assert_eq!(ray.direction.x.raw, 0);
    assert_eq!(ray.direction.y.raw, SCALE);
    assert_eq!(ray.direction.z.raw, -SCALE);
}

#[test]
fn ray_at_evaluates_the_parametric_point() {
    let ray = Ray::new(Point3::new(fx(1), fx(2), fx(3)), vec(fx(1), fx(0), fx(-2)));
    let p = ray.at(raw(SCALE / 2));
    assert_eq!((p.x().raw, p.y().raw, p.z().raw), (3 * SCALE / 2, 2 * SCALE, 2 * SCALE));
    assert_eq!(ray.origin(), ray.origin);
    assert_eq!(ray.direction(), ray.direction);
}
