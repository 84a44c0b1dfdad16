//! Vector algebra: lengths, normalization, dot and cross products.

use raytracer::fixed::{Fix, SCALE};
use raytracer::vec3::Vec3;

fn fx(units: i64) -> Fix {
    Fix::from_int(units)
}

fn vec(x: i64, y: i64, z: i64) -> Vec3 {
    Vec3 { x: fx(x), y: fx(y), z: fx(z) }
}

#[test]
fn length_of_a_3_4_0_vector_is_5() {
    let v = vec(3, 4, 0);
    assert_eq!(v.length().raw, 5 * SCALE);
}

#[test]
fn length_is_sqrt_of_dot_with_self() {
    let v = vec(1, 2, 3);
    let dot = v.dot(v);
    assert_eq!(v.length().raw, dot.sqrt().raw);
    assert_eq!(v.length_squared().raw, dot.raw);
}

#[test]
fn unit_vector_has_length_close_to_one() {
    let v = vec(1, 2, 3);
    let len = v.unit_vector().length();
    assert!((len.raw - SCALE).abs() <= 8, "length raw was {}", len.raw);
}

#[test]
fn unit_vector_of_axis_vector_is_exactly_unit() {
    let v = vec(7, 0, 0);
    let u = v.unit_vector();
    assert_eq!((u.x.raw, u.y.raw, u.z.raw), (SCALE, 0, 0));
    assert_eq!(u.length().raw, SCALE);
}

#[test]
fn cross_product_is_orthogonal_to_both_factors() {
    let u = vec(1, 2, 3);
    let v = vec(4, 5, 6);
    let c = u.cross(v);
    assert_eq!(c.dot(u).raw, 0);
    assert_eq!(c.dot(v).raw, 0);
}

#[test]
fn cross_product_of_fractional_vectors_is_orthogonal_within_truncation() {
    let u = Vec3 { x: Fix { raw: 32768 }, y: Fix { raw: 16384 }, z: Fix { raw: -49152 } };
    let v = Vec3 { x: Fix { raw: 8192 }, y: Fix { raw: -65536 }, z: Fix { raw: 24576 } };
    let c = u.cross(v);
    assert!(c.dot(u).raw.abs() <= 4, "residual was {}", c.dot(u).raw);
    assert!(c.dot(v).raw.abs() <= 4, "residual was {}", c.dot(v).raw);
}

#[test]
fn cross_product_of_basis_vectors() {
    let x = vec(1, 0, 0);
    let y = vec(0, 1, 0);
    let c = x.cross(y);
    assert_eq!((c.x.raw, c.y.raw, c.z.raw), (0, 0, SCALE));
}

#[test]
fn index_reads_the_selected_component() {
    let v = vec(9, 8, 7);
    assert_eq!(v.index(0).raw, 9 * SCALE);
    assert_eq!(v.index(1).raw, 8 * SCALE);
    assert_eq!(v.index(2).raw, 7 * SCALE);
}

#[test]
fn set_replaces_the_selected_component() {
    let mut v = vec(9, 8, 7);
    v.set(1, fx(5));
    assert_eq!((v.x.raw, v.y.raw, v.z.raw), (9 * SCALE, 5 * SCALE, 7 * SCALE));
}

#[test]
fn reflect_mirrors_about_the_normal() {
    // A straight-down vector reflects straight up about an upward normal.
    let v = vec(0, -1, 0);
    let n = vec(0, 1, 0);
    let r = v.reflect(&n);
    assert_eq!((r.x.raw, r.y.raw, r.z.raw), (0, SCALE, 0));
}

#[test]
fn near_zero_detects_only_the_zero_vector() {
    assert!(vec(0, 0, 0).near_zero());
    assert!(!Vec3 { x: Fix { raw: 1 }, y: Fix { raw: 0 }, z: Fix { raw: 0 } }.near_zero());
}

#[test]
fn fixed_point_arithmetic_rounds_toward_zero_and_saturates() {
    let a = Fix { raw: 3 * SCALE / 2 };
    let b = Fix { raw: SCALE / 2 };
    assert_eq!(a.mul(b).raw, 3 * SCALE / 4);
    assert_eq!(a.div(b).raw, 3 * SCALE);
    assert_eq!(Fix { raw: i64::MAX }.add(Fix { raw: i64::MAX }).raw, i64::MAX);
    assert_eq!(Fix { raw: -5 * SCALE }.mul(Fix { raw: SCALE / 4 }).raw, -5 * SCALE / 4);
    assert_eq!(fx(9).sqrt().raw, 3 * SCALE);
}
