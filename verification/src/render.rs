//! The colour estimator and the per-pixel sampling drivers.
//!
//! `ray_colour` recursively follows a ray through the scene up to a depth
//! limit: a hit defers to the struck surface's material and attenuates the
//! recursive colour; a miss yields the vertical background gradient between
//! white and sky blue.  The drivers draw jittered camera rays per pixel,
//! average, gamma-correct and encode, emitting rows from the top scanline
//! downward and pixels left to right within a row.

use vstd::prelude::*;

use crate::camera::{camera_ray_dir, Camera};
use crate::colour::{encode_channel, gamma_channel, Colour};
use crate::fixed::{
    clip, fx_add, fx_clamp, fx_div, fx_mul, fx_sub, lemma_fx_mul_le, lemma_fx_mul_nonneg,
    lemma_tdiv_exact, Fix, MAX_RAW, SCALE,
};
use crate::hittable::Hittable;
use crate::hittable_list::{albedos_in_unit, list_hit_t, HittableList};
use crate::ray::Ray;
use crate::vec3::{v_add, v_len2, v_mul, v_scale, v_unit, V3};

verus! {

/// The lower ray-parameter bound used against the scene: a small epsilon
/// (about a thousandth of a unit) that keeps a bounced ray from striking
/// the surface it just left.
pub const T_MIN_RAW: i64 = 65;

/// Half a unit, in raw units.
pub const HALF_RAW: i64 = 32768;

/// The sky-blue the background gradient blends toward: red channel.
pub const SKY_R_RAW: i64 = 32768;

/// The sky-blue the background gradient blends toward: green channel.
pub const SKY_G_RAW: i64 = 45875;

/// The sky-blue the background gradient blends toward: blue channel.
pub const SKY_B_RAW: i64 = 65536;

/// The blend parameter of the background gradient: half of one plus the
/// vertical component of the normalized direction, clamped into `[0, 1]`.
/// A direction of zero squared length cannot be normalized and blends at
/// the midpoint.
pub open spec fn background_t(dir: V3) -> int {
    let uy = if v_len2(dir) == 0 {
        0int
    } else {
        v_unit(dir).1
    };
    fx_clamp(fx_mul(HALF_RAW as int, fx_add(uy, SCALE as int)), 0, SCALE as int)
}

/// The background colour a missing ray returns: the linear gradient
/// `(1 − t)·white + t·skyblue` over the blend parameter.
pub open spec fn background(dir: V3) -> V3 {
    let t = background_t(dir);
    v_add(
        v_scale((SCALE as int, SCALE as int, SCALE as int), fx_sub(SCALE as int, t)),
        v_scale((SKY_R_RAW as int, SKY_G_RAW as int, SKY_B_RAW as int), t),
    )
}

/// Background channels are never negative.
pub proof fn lemma_background_nonneg(dir: V3)
    ensures
        background(dir).0 >= 0,
        background(dir).1 >= 0,
        background(dir).2 >= 0,
{
    let t = background_t(dir);
    lemma_fx_mul_nonneg(SCALE as int, fx_sub(SCALE as int, t));
    lemma_fx_mul_nonneg(SKY_R_RAW as int, t);
    lemma_fx_mul_nonneg(SKY_G_RAW as int, t);
    lemma_fx_mul_nonneg(SKY_B_RAW as int, t);
}

/// Background channels never exceed one unit: the gradient blends two
/// colours whose channels are at most full intensity.
pub proof fn lemma_background_le_one(dir: V3)
    ensures
        background(dir).0 <= SCALE,
        background(dir).1 <= SCALE,
        background(dir).2 <= SCALE,
{
    let t = background_t(dir);
    let white_part = fx_sub(SCALE as int, t);
    assert((SCALE as int) * white_part == white_part * (SCALE as int)) by (nonlinear_arith);
    lemma_tdiv_exact(white_part, SCALE as int);
    assert(fx_mul(SCALE as int, white_part) == white_part);
    lemma_fx_mul_le(SKY_R_RAW as int, t);
    lemma_fx_mul_le(SKY_G_RAW as int, t);
    lemma_fx_mul_le(SKY_B_RAW as int, t);
}

/// What `ray_colour` guarantees of an estimate `c` for a ray, whatever the
/// random draws along the bounce chain were: channels are nonnegative (and
/// at most one unit when every albedo in the scene is a genuine reflected
/// fraction); an exhausted depth budget gives black; a miss gives the
/// background gradient exactly; a hit gives black (absorption somewhere
/// along the chain) or the winning surface's albedo attenuating some
/// nonnegative colour.
pub open spec fn colour_estimate_ok(world: Seq<Hittable>, orig: V3, dir: V3, depth: int, c: V3) -> bool {
    &&& c.0 >= 0 && c.1 >= 0 && c.2 >= 0
    &&& (albedos_in_unit(world) ==> c.0 <= SCALE && c.1 <= SCALE && c.2 <= SCALE)
    &&& (depth <= 0 ==> c == (0int, 0int, 0int))
    &&& (depth > 0 ==> match list_hit_t(world, orig, dir, T_MIN_RAW as int, MAX_RAW as int) {
        None => c == background(dir),
        Some((idx, t)) => c == (0int, 0int, 0int) || exists|rec: V3|
            #![trigger v_mul(world[idx].material_of().albedo_v(), rec)]
            {
                &&& rec.0 >= 0 && rec.1 >= 0 && rec.2 >= 0
                &&& c == v_mul(world[idx].material_of().albedo_v(), rec)
            },
    })
}

/// Estimate the colour carried back along a ray.
///
/// With no depth budget left the estimate is black, whatever the scene
/// holds.  Otherwise the nearest surface within `[T_MIN_RAW, MAX_RAW]`
/// scatters or absorbs the ray; a miss returns the background gradient
/// exactly, and a hit returns black or the winning surface's albedo
/// attenuating some nonnegative colour.  Channels are never negative, and
/// never exceed one unit when every albedo in the scene does not.
pub fn ray_colour(ray: &Ray, world: &HittableList, depth: i64, rng: &mut rand::rngs::StdRng) -> (c:
    Colour)
    requires
        world.wf(),
    ensures
        colour_estimate_ok(world@, ray.origin@, ray.direction@, depth as int, c@),
    decreases (if depth <= 0 { 0int } else { depth as int }),
{
    let zero = Fix { raw: 0 };
    if depth <= 0 {
        return Colour::new(zero, zero, zero);
    }

    let hit_res = world.hit(ray, Fix { raw: T_MIN_RAW }, Fix { raw: MAX_RAW });
    match hit_res {
        Some(hit) => {
            let ghost lh = list_hit_t(
                world@,
                ray.origin@,
                ray.direction@,
                T_MIN_RAW as int,
                MAX_RAW as int,
            );
            let ghost idx = lh.unwrap().0;
            proof {
                assert(world@[idx].wf());
                match world@[idx] {
                    Hittable::Sphere(s) => {
                        assert(hit.material == s.material);
                        assert(hit.material.wf());
                        assert(world@[idx].material_of() == hit.material);
                    },
                }
            }
            let scatter_res = hit.material.scatter(ray, &hit, rng);
            match scatter_res {
                Some(scatter) => {
                    let rec = ray_colour(&scatter.scattered, world, depth - 1, rng);
                    let out = scatter.attenuation.mul(rec);
                    proof {
                        lemma_fx_mul_nonneg(scatter.attenuation@.0, rec@.0);
                        lemma_fx_mul_nonneg(scatter.attenuation@.1, rec@.1);
                        lemma_fx_mul_nonneg(scatter.attenuation@.2, rec@.2);
                        // The result is the winning material's albedo
                        // attenuating the recursive estimate.
                        assert(out@ == v_mul(world@[idx].material_of().albedo_v(), rec@));
                        if albedos_in_unit(world@) {
                            assert(world@[idx].material_of().albedo_in_unit());
                            lemma_fx_mul_le(scatter.attenuation@.0, rec@.0);
                            lemma_fx_mul_le(scatter.attenuation@.1, rec@.1);
                            lemma_fx_mul_le(scatter.attenuation@.2, rec@.2);
                        }
                    }
                    out
                },
                None => Colour::new(zero, zero, zero),
            }
        },
        None => {
            let one = Fix { raw: SCALE };
            let ls = ray.direction().length_squared();
            let uy = if ls.raw == 0 {
                zero
            } else {
                ray.direction().unit_vector().y
            };
            let t = Fix { raw: HALF_RAW }.mul(uy.add(one)).clamp(zero, one);
            let white = Colour::new(one, one, one);
            let sky = Colour::new(
                Fix { raw: SKY_R_RAW },
                Fix { raw: SKY_G_RAW },
                Fix { raw: SKY_B_RAW },
            );
            let c = white.scale(one.sub(t)).add(sky.scale(t));
            proof {
                lemma_background_nonneg(ray.direction@);
                lemma_background_le_one(ray.direction@);
            }
            c
        },
    }
}

/// The normalized viewport coordinate of pixel index `n` under a jitter
/// fraction `f`: `(n + f) / (extent − 1)`.
pub open spec fn jitter_coord(n: int, extent: int, f: int) -> int {
    fx_div(fx_add(clip(n * (SCALE as int)), f), clip((extent - 1) * (SCALE as int)))
}

/// One per-pixel sample is accounted for: some jitter pair in `[0, 1)`
/// produced a camera ray through pixel `(i, j)`, and the sample satisfies
/// everything `ray_colour` guarantees of that ray's estimate — in
/// particular, it is exactly the background gradient whenever that ray
/// misses the scene.
pub open spec fn pixel_sample_ok(
    cam: Camera,
    world: Seq<Hittable>,
    i: int,
    j: int,
    image_width: int,
    image_height: int,
    depth: int,
    s: V3,
) -> bool {
    exists|uf: int, vf: int|
        #![trigger jitter_coord(i, image_width, uf), jitter_coord(j, image_height, vf)]
        {
            &&& 0 <= uf < SCALE && 0 <= vf < SCALE
            &&& colour_estimate_ok(
                world,
                cam.origin@,
                camera_ray_dir(
                    cam,
                    jitter_coord(i, image_width, uf),
                    jitter_coord(j, image_height, vf),
                ),
                depth,
                s,
            )
        }
}

/// The component-wise sum of a sequence of colour samples, accumulated
/// left to right.
pub open spec fn v3_sum(samples: Seq<V3>) -> V3
    decreases samples.len(),
{
    if samples.len() == 0 {
        (0int, 0int, 0int)
    } else {
        v_add(v3_sum(samples.drop_last()), samples.last())
    }
}

/// What a rendered pixel guarantees: it is the clamp-before-scale encoding
/// of the gamma-corrected average of the sum of exactly `samples_per_pixel`
/// samples, each accounted for by a jittered camera ray through pixel
/// `(i, j)` as `pixel_sample_ok` states.
pub open spec fn rendered_pixel_ok(
    cam: Camera,
    world: Seq<Hittable>,
    i: int,
    j: int,
    image_width: int,
    image_height: int,
    samples_per_pixel: int,
    depth: int,
    p: (u8, u8, u8),
) -> bool {
    exists|samples: Seq<V3>|
        #![trigger v3_sum(samples)]
        {
            &&& samples.len() == samples_per_pixel
            &&& forall|k: int|
                0 <= k < samples.len() ==> pixel_sample_ok(
                    cam,
                    world,
                    i,
                    j,
                    image_width,
                    image_height,
                    depth,
                    #[trigger] samples[k],
                )
            &&& p.0 == encode_channel(gamma_channel(v3_sum(samples).0, samples_per_pixel))
            &&& p.1 == encode_channel(gamma_channel(v3_sum(samples).1, samples_per_pixel))
            &&& p.2 == encode_channel(gamma_channel(v3_sum(samples).2, samples_per_pixel))
        }
}

/// Render one pixel: draw the configured number of jittered camera rays,
/// accumulate their colour estimates, average, gamma-correct and encode
/// one discrete RGB triple.  Whatever the random draws were, the emitted
/// triple is accounted for sample by sample, as `rendered_pixel_ok` states.
pub fn render_pixel(
    camera: &Camera,
    world: &HittableList,
    i: usize,
    j: usize,
    image_width: usize,
    image_height: usize,
    samples_per_pixel: u32,
    max_depth: i64,
    rng: &mut rand::rngs::StdRng,
) -> (p: (u8, u8, u8))
    requires
        world.wf(),
        2 <= image_width <= 100_000,
        2 <= image_height <= 100_000,
        i < image_width,
        j < image_height,
        samples_per_pixel >= 1,
    ensures
        rendered_pixel_ok(
            *camera,
            world@,
            i as int,
            j as int,
            image_width as int,
            image_height as int,
            samples_per_pixel as int,
            max_depth as int,
            p,
        ),
{
    let zero = Fix { raw: 0 };
    let mut pixel_colour = Colour::new(zero, zero, zero);
    let mut s: u32 = 0;
    let ghost mut samples: Seq<V3> = Seq::empty();
    let w_minus_one = Fix::from_int((image_width - 1) as i64);
    let h_minus_one = Fix::from_int((image_height - 1) as i64);
    proof {
        assert((SCALE as int) <= (image_width - 1) * (SCALE as int) <= 100_000 * (SCALE as int))
            by (nonlinear_arith)
            requires
                1 <= image_width - 1 <= 100_000,
        ;
        assert((SCALE as int) <= (image_height - 1) * (SCALE as int) <= 100_000 * (SCALE as int))
            by (nonlinear_arith)
            requires
                1 <= image_height - 1 <= 100_000,
        ;
    }
    while s < samples_per_pixel
        invariant
            world.wf(),
            i <= 100_000,
            j <= 100_000,
            w_minus_one@ == clip((image_width - 1) * (SCALE as int)),
            h_minus_one@ == clip((image_height - 1) * (SCALE as int)),
            w_minus_one@ > 0,
            h_minus_one@ > 0,
            pixel_colour@.0 >= 0 && pixel_colour@.1 >= 0 && pixel_colour@.2 >= 0,
            s <= samples_per_pixel,
            samples.len() == s,
            pixel_colour@ == v3_sum(samples),
            forall|k: int|
                0 <= k < samples.len() ==> pixel_sample_ok(
                    *camera,
                    world@,
                    i as int,
                    j as int,
                    image_width as int,
                    image_height as int,
                    max_depth as int,
                    #[trigger] samples[k],
                ),
        decreases samples_per_pixel - s,
    {
        let fu = crate::rng::random_fraction(rng);
        let fv = crate::rng::random_fraction(rng);
        let u = Fix::from_int(i as i64).add(fu).div(w_minus_one);
        let v = Fix::from_int(j as i64).add(fv).div(h_minus_one);
        let ray = camera.get_ray(u, v);
        let sample = ray_colour(&ray, world, max_depth, rng);
        pixel_colour = pixel_colour.add(sample);
        proof {
            // The drawn jitters witness this sample's accounting.
            assert(u@ == jitter_coord(i as int, image_width as int, fu@));
            assert(v@ == jitter_coord(j as int, image_height as int, fv@));
            assert(pixel_sample_ok(
                *camera,
                world@,
                i as int,
                j as int,
                image_width as int,
                image_height as int,
                max_depth as int,
                sample@,
            ));
            let prev = samples;
            samples = samples.push(sample@);
            assert(samples.drop_last() =~= prev);
        }
        s = s + 1;
    }
    let averaged = pixel_colour.gamma_corrected(samples_per_pixel as i64);
    let p = averaged.pixel_triple();
    proof {
        assert(samples.len() == samples_per_pixel && p.0 == encode_channel(
            gamma_channel(v3_sum(samples).0, samples_per_pixel as int),
        ) && p.1 == encode_channel(gamma_channel(v3_sum(samples).1, samples_per_pixel as int))
            && p.2 == encode_channel(gamma_channel(v3_sum(samples).2, samples_per_pixel as int)));
    }
    p
}

/// Render one scanline, left to right: the pixel at column `x` is the
/// rendering of pixel `(x, j)` in the sense of `rendered_pixel_ok`.
pub fn render_row(
    camera: &Camera,
    world: &HittableList,
    j: usize,
    image_width: usize,
    image_height: usize,
    samples_per_pixel: u32,
    max_depth: i64,
    rng: &mut rand::rngs::StdRng,
) -> (row: Vec<(u8, u8, u8)>)
    requires
        world.wf(),
        2 <= image_width <= 100_000,
        2 <= image_height <= 100_000,
        j < image_height,
        samples_per_pixel >= 1,
    ensures
        row@.len() == image_width,
        forall|x: int|
            0 <= x < image_width ==> rendered_pixel_ok(
                *camera,
                world@,
                x,
                j as int,
                image_width as int,
                image_height as int,
                samples_per_pixel as int,
                max_depth as int,
                #[trigger] row@[x],
            ),
{
    let mut row: Vec<(u8, u8, u8)> = Vec::new();
    let mut i: usize = 0;
    while i < image_width
        invariant
            world.wf(),
            2 <= image_width <= 100_000,
            2 <= image_height <= 100_000,
            j < image_height,
            samples_per_pixel >= 1,
            i <= image_width,
            row@.len() == i,
            forall|x: int|
                0 <= x < i ==> rendered_pixel_ok(
                    *camera,
                    world@,
                    x,
                    j as int,
                    image_width as int,
                    image_height as int,
                    samples_per_pixel as int,
                    max_depth as int,
                    #[trigger] row@[x],
                ),
        decreases image_width - i,
    {
        let p = render_pixel(
            camera,
            world,
            i,
            j,
            image_width,
            image_height,
            samples_per_pixel,
            max_depth,
            rng,
        );
        row.push(p);
        i = i + 1;
    }
    row
}

/// Render the full image: rows from the top scanline (`j = height − 1`)
/// downward, pixels left to right within each row, one RGB triple per
/// pixel.
pub fn render(
    camera: &Camera,
    world: &HittableList,
    image_width: usize,
    image_height: usize,
    samples_per_pixel: u32,
    max_depth: i64,
    rng: &mut rand::rngs::StdRng,
) -> (pixels: Vec<(u8, u8, u8)>)
    requires
        world.wf(),
        2 <= image_width <= 100_000,
        2 <= image_height <= 100_000,
        samples_per_pixel >= 1,
        image_width * image_height <= usize::MAX,
    ensures
        pixels@.len() == image_width * image_height,
        forall|k: int|
            0 <= k < pixels@.len() ==> rendered_pixel_ok(
                *camera,
                world@,
                k % (image_width as int),
                image_height - 1 - k / (image_width as int),
                image_width as int,
                image_height as int,
                samples_per_pixel as int,
                max_depth as int,
                #[trigger] pixels@[k],
            ),
{
    let mut pixels: Vec<(u8, u8, u8)> = Vec::new();
    let mut j: usize = image_height;
    while j > 0
        invariant
            world.wf(),
            2 <= image_width <= 100_000,
            2 <= image_height <= 100_000,
            samples_per_pixel >= 1,
            image_width * image_height <= usize::MAX,
            j <= image_height,
            pixels@.len() == (image_height - j) * image_width,
            forall|k: int|
                0 <= k < pixels@.len() ==> rendered_pixel_ok(
                    *camera,
                    world@,
                    k % (image_width as int),
                    image_height - 1 - k / (image_width as int),
                    image_width as int,
                    image_height as int,
                    samples_per_pixel as int,
                    max_depth as int,
                    #[trigger] pixels@[k],
                ),
        decreases j,
    {
        j = j - 1;
        let mut row = render_row(
            camera,
            world,
            j,
            image_width,
            image_height,
            samples_per_pixel,
            max_depth,
            rng,
        );
        let ghost old_len = pixels@.len() as int;
        let ghost row_snap = row@;
        proof {
            assert((image_height - j) * image_width <= image_height * image_width
                && (image_height - (j + 1)) * image_width + image_width == (image_height - j)
                * image_width && image_height * image_width == image_width * image_height)
                by (nonlinear_arith)
                requires
                    0 <= j < image_height,
                    image_width >= 2,
            ;
        }
        pixels.append(&mut row);
        proof {
            let w = image_width as int;
            assert forall|k: int| 0 <= k < pixels@.len() implies rendered_pixel_ok(
                *camera,
                world@,
                k % w,
                image_height - 1 - k / w,
                image_width as int,
                image_height as int,
                samples_per_pixel as int,
                max_depth as int,
                #[trigger] pixels@[k],
            ) by {
                if k >= old_len {
                    // The appended block is row `j`: index arithmetic puts
                    // every new element at row j, column k − old_len.
                    vstd::arithmetic::div_mod::lemma_fundamental_div_mod_converse(
                        k,
                        w,
                        image_height - 1 - j,
                        k - old_len,
                    );
                    assert(pixels@[k] == row_snap[k - old_len]);
                }
            }
        }
    }
    proof {
        assert(image_height as int * image_width as int == image_width as int
            * image_height as int) by (nonlinear_arith);
    }
    pixels
}

} // verus!
