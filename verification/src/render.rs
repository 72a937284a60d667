//! Light transport and the sampling loop: the recursive `ray_color`
//! function, tone-mapping/quantization of accumulated pixel sums, and the
//! per-pixel Monte Carlo render loop that yields the image as quantized
//! RGB triples in the writer's row order (top row first).

use vstd::prelude::*;
use vstd::arithmetic::div_mod::lemma_fundamental_div_mod_converse;
use crate::fx::{
    Fx, FX_ONE, FX_MAX, fx_add_v, fx_sub_v, fx_mul_v, fx_div_v, fx_sqrt_v, sat_i,
    lemma_fx_mul_le_right,
};
use crate::vec3::{Vec3, V3i, v3i, vwf, vadd_v, vmul_v, vscale_v, unit_v, len2_v, color_wf};
use crate::ray::{Ray, RayV};
use crate::hittable::{HittableList, HitRecord, list_hit, sphere_rec_v, SphereV};
use crate::material::scatter_outcome;
use crate::camera::{Camera, CameraV, get_ray_v};
use crate::rng::RandomSource;

verus! {

/// The intersection epsilon in raw units (about 0.001): hits closer than
/// this are ignored to avoid self-intersection of bounced rays.
pub const T_MIN_RAW: i64 = 66;

/// The sky color at the top of the background gradient.
pub open spec fn sky_blue_v() -> V3i {
    v3i(32768, 45875, FX_ONE as int)
}

/// The background gradient: blend white toward sky blue by
/// `t = (unit_direction.y + 1) / 2`, with `t` clamped into `[0, 1]` so
/// the blend stays convex even when truncated normalization leaves the
/// unit direction slightly long.
pub open spec fn background_v(r: RayV) -> V3i {
    let unit = unit_v(r.dir);
    let t = clamp_v(fx_mul_v(fx_add_v(unit.y, FX_ONE as int), 32768), 0, FX_ONE as int);
    vadd_v(
        vscale_v(v3i(FX_ONE as int, FX_ONE as int, FX_ONE as int), fx_sub_v(FX_ONE as int, t)),
        vscale_v(sky_blue_v(), t),
    )
}

/// The colors the light transport admits for a ray: black once the bounce
/// budget is exhausted or for a degenerate (zero squared-length)
/// direction; the exact background gradient on a miss; and on the nearest
/// hit, for some outcome the hit material admits (`scatter_outcome`),
/// either black -- where the material may absorb or the outgoing
/// direction degenerates -- or the attenuation times a color admissible
/// for the scattered ray one bounce down.
/// Whether each step of an outcome trace is one the hit material at that
/// bounce admits (`scatter_outcome`); quantifier-free, so it can be
/// unfolded bounce by bounce.
pub open spec fn path_ok(r: RayV, objs: Seq<SphereV>, depth: int, outs: Seq<Option<(V3i, V3i)>>) -> bool
    decreases depth,
{
    if depth <= 0 || len2_v(r.dir) == 0 || list_hit(
        objs,
        r,
        T_MIN_RAW as int,
        FX_MAX as int,
    ).is_none() {
        true
    } else {
        let hit = list_hit(objs, r, T_MIN_RAW as int, FX_MAX as int).unwrap();
        let rec = sphere_rec_v(objs[hit.0], r, hit.1);
        &&& outs.len() > 0
        &&& scatter_outcome(rec.mat, r.dir, rec, outs[0])
        &&& match outs[0] {
            None => true,
            Some((att, dir)) => len2_v(dir) == 0 || path_ok(
                RayV { orig: rec.p, dir: dir },
                objs,
                depth - 1,
                outs.drop_first(),
            ),
        }
    }
}

/// The color the light transport yields along an outcome trace: black
/// once the bounce budget is exhausted or the direction degenerates, the
/// exact background gradient on a miss, black where the trace's outcome
/// absorbs or scatters degenerately, and otherwise the attenuation times
/// the color one bounce down.
pub open spec fn path_color(r: RayV, objs: Seq<SphereV>, depth: int, outs: Seq<Option<(V3i, V3i)>>) -> V3i
    decreases depth,
{
    if depth <= 0 || len2_v(r.dir) == 0 {
        v3i(0, 0, 0)
    } else if list_hit(objs, r, T_MIN_RAW as int, FX_MAX as int).is_none() {
        background_v(r)
    } else {
        let hit = list_hit(objs, r, T_MIN_RAW as int, FX_MAX as int).unwrap();
        let rec = sphere_rec_v(objs[hit.0], r, hit.1);
        if outs.len() == 0 {
            v3i(0, 0, 0)
        } else {
            match outs[0] {
                None => v3i(0, 0, 0),
                Some((att, dir)) => if len2_v(dir) == 0 {
                    v3i(0, 0, 0)
                } else {
                    vmul_v(
                        att,
                        path_color(RayV { orig: rec.p, dir: dir }, objs, depth - 1, outs.drop_first()),
                    )
                },
            }
        }
    }
}

/// The colors the light transport admits for a ray: those produced by
/// some trace of outcomes the materials along the path admit.
pub open spec fn admissible_color(r: RayV, objs: Seq<SphereV>, depth: int, c: V3i) -> bool {
    exists|outs: Seq<Option<(V3i, V3i)>>|
        #[trigger] path_ok(r, objs, depth, outs) && c == path_color(r, objs, depth, outs)
}

/// The color carried back along a ray: black once the bounce budget is
/// exhausted, and black for a direction of zero squared length (which can
/// strike nothing); otherwise, on the nearest hit (past the
/// self-intersection epsilon), the material's attenuation times the color
/// of the scattered ray (black when the material absorbs, or when the
/// scattered direction degenerates); and on a miss, the background
/// gradient.  Whatever the scene, every channel of the result stays in
/// the unit interval: the base cases are black or a convex blend of white
/// and sky blue, and each bounce scales by a fractional attenuation.
#[verifier::rlimit(60)]
pub fn ray_color(r: Ray, world: &HittableList, depth: i64, rng: &mut RandomSource) -> (c: Vec3)
    requires
        r.wf(),
        world.wf(),
    ensures
        c.wf(),
        color_wf(c@),
        admissible_color(r@, world@, depth as int, c@),
        depth <= 0 ==> c@ == v3i(0, 0, 0),
        depth > 0 && len2_v(r@.dir) == 0 ==> c@ == v3i(0, 0, 0),
        depth > 0 && len2_v(r@.dir) > 0 && list_hit(
            world@,
            r@,
            T_MIN_RAW as int,
            FX_MAX as int,
        ).is_none() ==> c@ == background_v(r@),
    decreases depth,
{
    let ghost empty_trace = Seq::<Option<(V3i, V3i)>>::empty();
    if depth <= 0 {
        proof {
            assert(path_ok(r@, world@, depth as int, empty_trace));
            assert(path_color(r@, world@, depth as int, empty_trace) == v3i(0, 0, 0));
        }
        return Vec3::zero();
    }
    if r.direction.length_squared().raw == 0 {
        proof {
            assert(path_ok(r@, world@, depth as int, empty_trace));
            assert(path_color(r@, world@, depth as int, empty_trace) == v3i(0, 0, 0));
        }
        return Vec3::zero();
    }
    let mut rec = HitRecord::default();
    if world.hit(r, Fx { raw: T_MIN_RAW }, Fx { raw: FX_MAX }, &mut rec) {
        let ghost hit = list_hit(world@, r@, T_MIN_RAW as int, FX_MAX as int).unwrap();
        let ghost srec = sphere_rec_v(world@[hit.0], r@, hit.1);
        match rec.mat.scatter(r, &rec, rng) {
            Some((attenuation, scattered)) => {
                let l2 = scattered.direction.length_squared();
                if l2.raw > 0 {
                    let bounced = ray_color(scattered, world, depth - 1, rng);
                    proof {
                        lemma_fx_mul_le_right(attenuation@.x, bounced@.x);
                        lemma_fx_mul_le_right(attenuation@.y, bounced@.y);
                        lemma_fx_mul_le_right(attenuation@.z, bounced@.z);
                    }
                    let out = attenuation.mul(bounced);
                    proof {
                        assert(scatter_outcome(
                            srec.mat,
                            r@.dir,
                            srec,
                            Some((attenuation@, scattered@.dir)),
                        ));
                        assert(scattered@ == (RayV { orig: srec.p, dir: scattered@.dir }));
                        assert((depth - 1) as int == depth as int - 1);
                        let sub = choose|outs: Seq<Option<(V3i, V3i)>>|
                            #[trigger] path_ok(scattered@, world@, (depth - 1) as int, outs)
                                && bounced@ == path_color(scattered@, world@, (depth - 1) as int, outs);
                        let trace = seq![Some((attenuation@, scattered@.dir))].add(sub);
                        assert(trace[0] == Some((attenuation@, scattered@.dir)));
                        assert(trace.drop_first() =~= sub);
                        assert(path_ok(r@, world@, depth as int, trace));
                        assert(out@ == vmul_v(attenuation@, bounced@));
                        assert(path_color(r@, world@, depth as int, trace) == out@);
                        assert(admissible_color(r@, world@, depth as int, out@));
                    }
                    return out;
                }
                proof {
                    assert(scatter_outcome(
                        srec.mat,
                        r@.dir,
                        srec,
                        Some((attenuation@, scattered@.dir)),
                    ));
                    let trace = seq![Some((attenuation@, scattered@.dir))];
                    assert(path_ok(r@, world@, depth as int, trace));
                    assert(path_color(r@, world@, depth as int, trace) == v3i(0, 0, 0));
                    assert(admissible_color(r@, world@, depth as int, v3i(0, 0, 0)));
                }
                return Vec3::zero();
            },
            None => {
                proof {
                    let trace = seq![None::<(V3i, V3i)>];
                    assert(scatter_outcome(srec.mat, r@.dir, srec, None));
                    assert(path_ok(r@, world@, depth as int, trace));
                    assert(path_color(r@, world@, depth as int, trace) == v3i(0, 0, 0));
                    assert(admissible_color(r@, world@, depth as int, v3i(0, 0, 0)));
                }
                return Vec3::zero();
            },
        }
    }
    let one = Fx::one();
    let unit_direction = Vec3::unit_vector(r.direction);
    let t = clamp(unit_direction.y.add(one).mul(Fx { raw: 32768 }), Fx::zero(), one);
    let white = Vec3 { x: one, y: one, z: one };
    let sky = Vec3 { x: Fx { raw: 32768 }, y: Fx { raw: 45875 }, z: one };
    let omt = one.sub(t);
    proof {
        lemma_fx_mul_le_right(white@.x, omt.raw as int);
        lemma_fx_mul_le_right(white@.y, omt.raw as int);
        lemma_fx_mul_le_right(white@.z, omt.raw as int);
        lemma_fx_mul_le_right(sky@.x, t.raw as int);
        lemma_fx_mul_le_right(sky@.y, t.raw as int);
        lemma_fx_mul_le_right(sky@.z, t.raw as int);
    }
    let bg = white.mul_s(omt).add(sky.mul_s(t));
    proof {
        assert(path_ok(r@, world@, depth as int, empty_trace));
        assert(path_color(r@, world@, depth as int, empty_trace) == background_v(r@));
        assert(admissible_color(r@, world@, depth as int, bg@));
    }
    bg
}

pub open spec fn clamp_v(x: int, lo: int, hi: int) -> int {
    if x < lo {
        lo
    } else if x > hi {
        hi
    } else {
        x
    }
}

/// Keep a scalar within `[min, max]`.
pub fn clamp(x: Fx, min: Fx, max: Fx) -> (r: Fx)
    requires
        x.wf(),
        min.wf(),
        max.wf(),
    ensures
        r.wf(),
        r.raw as int == clamp_v(x.raw as int, min.raw as int, max.raw as int),
{
    if x.raw < min.raw {
        return min;
    }
    if x.raw > max.raw {
        max
    } else {
        x
    }
}

/// One channel of tone mapping: divide the accumulated sum by the sample
/// count, gamma-correct by a square root (negative sums, which cannot
/// arise from real sampling, clamp to zero first), clamp into
/// `[0, 0.999]`, and scale to an 8-bit value by truncation.
pub open spec fn quantize_channel_v(c: int, spp: int) -> int {
    let v = fx_div_v(c, sat_i(spp * (FX_ONE as int)));
    let v0 = if v < 0 {
        0
    } else {
        v
    };
    let g = fx_sqrt_v(v0);
    let cl = clamp_v(g, 0, 65470);
    256 * cl / (FX_ONE as int)
}

pub fn quantize_channel(c: Fx, samples_per_pixel: i64) -> (b: u8)
    requires
        c.wf(),
        1 <= samples_per_pixel,
    ensures
        b as int == quantize_channel_v(c.raw as int, samples_per_pixel as int),
{
    let spp = Fx::from_int(samples_per_pixel);
    let v = c.div(spp);
    let v0 = if v.raw < 0 {
        Fx::zero()
    } else {
        v
    };
    let g = v0.sqrt();
    let cl = clamp(g, Fx::zero(), Fx { raw: 65470 });
    let m = (256u64 * (cl.raw as u64)) / 65536u64;
    m as u8
}

/// Tone-map one accumulated pixel sum into a quantized RGB triple, as the
/// output writer expects it.
pub fn write_color(pixel_color: Vec3, samples_per_pixel: i64) -> (rgb: (u8, u8, u8))
    requires
        pixel_color.wf(),
        1 <= samples_per_pixel,
    ensures
        rgb.0 as int == quantize_channel_v(pixel_color@.x, samples_per_pixel as int),
        rgb.1 as int == quantize_channel_v(pixel_color@.y, samples_per_pixel as int),
        rgb.2 as int == quantize_channel_v(pixel_color@.z, samples_per_pixel as int),
{
    let r = quantize_channel(pixel_color.x, samples_per_pixel);
    let g = quantize_channel(pixel_color.y, samples_per_pixel);
    let b = quantize_channel(pixel_color.z, samples_per_pixel);
    (r, g, b)
}

/// One admissible camera sample for the pixel at column `col`, image row
/// `j` (counted from the bottom edge): for some jitters in `[0, 1)` and
/// some unit-disk lens sample, a color the light transport admits for the
/// resulting camera ray.  `wm1`/`hm1` are the raw scalar values of
/// width - 1 and height - 1.
pub open spec fn admissible_sample(
    cam: CameraV,
    objs: Seq<SphereV>,
    col: int,
    j: int,
    wm1: int,
    hm1: int,
    depth: int,
    sc: V3i,
) -> bool {
    exists|j1: int, j2: int, p: V3i|
        0 <= j1 < FX_ONE && 0 <= j2 < FX_ONE && vwf(p) && len2_v(p) < FX_ONE && p.z == 0
            && #[trigger] admissible_color(
            get_ray_v(
                cam,
                fx_div_v(fx_add_v(sat_i(col * (FX_ONE as int)), j1), wm1),
                fx_div_v(fx_add_v(sat_i(j * (FX_ONE as int)), j2), hm1),
                p,
            ),
            objs,
            depth,
            sc,
        )
}

/// The saturating sum of a sequence of sample colors, as the sampling
/// loop accumulates it.
pub open spec fn color_sum(samples: Seq<V3i>) -> V3i
    decreases samples.len(),
{
    if samples.len() == 0 {
        v3i(0, 0, 0)
    } else {
        vadd_v(color_sum(samples.drop_last()), samples.last())
    }
}

/// A pixel value the renderer admits at column `col`, image row `j`: the
/// tone-mapped quantization of the sum of `spp` admissible samples.
pub open spec fn admissible_pixel(
    cam: CameraV,
    objs: Seq<SphereV>,
    col: int,
    j: int,
    wm1: int,
    hm1: int,
    depth: int,
    spp: int,
    px: (u8, u8, u8),
) -> bool {
    exists|samples: Seq<V3i>|
        #![trigger color_sum(samples)]
        {
            &&& samples.len() == spp
            &&& (forall|i: int|
                0 <= i < samples.len() ==> admissible_sample(
                    cam,
                    objs,
                    col,
                    j,
                    wm1,
                    hm1,
                    depth,
                    #[trigger] samples[i],
                ))
            &&& px.0 as int == quantize_channel_v(color_sum(samples).x, spp)
            &&& px.1 as int == quantize_channel_v(color_sum(samples).y, spp)
            &&& px.2 as int == quantize_channel_v(color_sum(samples).z, spp)
        }
}

/// Render the scene: for every pixel, top row first and left to right
/// within a row, average `samples_per_pixel` jittered camera rays traced
/// through `ray_color`, tone-map, and emit one RGB triple per pixel --
/// every emitted pixel is `admissible_pixel` for its own column and row.
/// A degenerate camera ray (zero squared-length direction) contributes
/// black.  The image dimension bounds keep every fixed-point coordinate
/// exact and the buffer within addressable size.
pub fn render(
    world: &HittableList,
    cam: &Camera,
    image_width: u32,
    image_height: u32,
    samples_per_pixel: u32,
    max_depth: i64,
    rng: &mut RandomSource,
) -> (pixels: Vec<(u8, u8, u8)>)
    requires
        world.wf(),
        cam.wf(),
        2 <= image_width <= 16384,
        2 <= image_height <= 16384,
        1 <= samples_per_pixel <= 100000,
    ensures
        pixels.len() == image_width * image_height,
        forall|k: int|
            0 <= k < pixels@.len() ==> admissible_pixel(
                cam@,
                world@,
                k % (image_width as int),
                image_height - 1 - k / (image_width as int),
                sat_i((image_width - 1) * (FX_ONE as int)),
                sat_i((image_height - 1) * (FX_ONE as int)),
                max_depth as int,
                samples_per_pixel as int,
                #[trigger] pixels@[k],
            ),
{
    let mut pixels: Vec<(u8, u8, u8)> = Vec::new();
    proof {
        assert(65536 <= (image_width - 1) * (FX_ONE as int) <= 0x4000_0000_0000) by (nonlinear_arith)
            requires
                1 <= image_width - 1 <= 16383,
                FX_ONE as int == 65536,
        ;
        assert(65536 <= (image_height - 1) * (FX_ONE as int) <= 0x4000_0000_0000)
            by (nonlinear_arith)
            requires
                1 <= image_height - 1 <= 16383,
                FX_ONE as int == 65536,
        ;
    }
    let wm1 = Fx::from_int((image_width - 1) as i64);
    let hm1 = Fx::from_int((image_height - 1) as i64);
    let mut row: u32 = 0;
    while row < image_height
        invariant
            world.wf(),
            cam.wf(),
            2 <= image_width <= 16384,
            2 <= image_height <= 16384,
            1 <= samples_per_pixel <= 100000,
            row <= image_height,
            pixels.len() == row * image_width,
            wm1.wf(),
            wm1.raw >= 65536,
            wm1.raw as int == sat_i((image_width - 1) * (FX_ONE as int)),
            hm1.wf(),
            hm1.raw >= 65536,
            hm1.raw as int == sat_i((image_height - 1) * (FX_ONE as int)),
            forall|k: int|
                0 <= k < pixels@.len() ==> admissible_pixel(
                    cam@,
                    world@,
                    k % (image_width as int),
                    image_height - 1 - k / (image_width as int),
                    wm1.raw as int,
                    hm1.raw as int,
                    max_depth as int,
                    samples_per_pixel as int,
                    #[trigger] pixels@[k],
                ),
        decreases image_height - row,
    {
        let j = image_height - 1 - row;
        let mut col: u32 = 0;
        while col < image_width
            invariant
                world.wf(),
                cam.wf(),
                2 <= image_width <= 16384,
                2 <= image_height <= 16384,
                1 <= samples_per_pixel <= 100000,
                row < image_height,
                j == image_height - 1 - row,
                col <= image_width,
                pixels.len() == row * image_width + col,
                wm1.wf(),
                wm1.raw >= 65536,
                wm1.raw as int == sat_i((image_width - 1) * (FX_ONE as int)),
                hm1.wf(),
                hm1.raw >= 65536,
                hm1.raw as int == sat_i((image_height - 1) * (FX_ONE as int)),
                forall|k: int|
                    0 <= k < pixels@.len() ==> admissible_pixel(
                        cam@,
                        world@,
                        k % (image_width as int),
                        image_height - 1 - k / (image_width as int),
                        wm1.raw as int,
                        hm1.raw as int,
                        max_depth as int,
                        samples_per_pixel as int,
                        #[trigger] pixels@[k],
                    ),
            decreases image_width - col,
        {
            let mut pixel_color = Vec3::zero();
            let ghost mut samples = Seq::<V3i>::empty();
            let mut s: u32 = 0;
            while s < samples_per_pixel
                invariant
                    world.wf(),
                    cam.wf(),
                    pixel_color.wf(),
                    s <= samples_per_pixel,
                    row < image_height,
                    image_height <= 16384,
                    j == image_height - 1 - row,
                    col < image_width,
                    image_width <= 16384,
                    wm1.wf(),
                    wm1.raw >= 65536,
                    hm1.wf(),
                    hm1.raw >= 65536,
                    samples.len() == s,
                    pixel_color@ == color_sum(samples),
                    forall|i: int|
                        0 <= i < samples.len() ==> admissible_sample(
                            cam@,
                            world@,
                            col as int,
                            j as int,
                            wm1.raw as int,
                            hm1.raw as int,
                            max_depth as int,
                            #[trigger] samples[i],
                        ),
                decreases samples_per_pixel - s,
            {
                let j1 = rng.next_unit();
                let j2 = rng.next_unit();
                let u = Fx::from_int(col as i64).add(j1).div(wm1);
                let v = Fx::from_int(j as i64).add(j2).div(hm1);
                let r = cam.get_ray(u, v, rng);
                let sample_color = ray_color(r, world, max_depth, rng);
                proof {
                    let p = choose|p: V3i|
                        vwf(p) && len2_v(p) < FX_ONE && p.z == 0 && r@ == get_ray_v(
                            cam@,
                            u.raw as int,
                            v.raw as int,
                            p,
                        );
                    assert(admissible_color(
                        get_ray_v(
                            cam@,
                            fx_div_v(
                                fx_add_v(sat_i(col as int * (FX_ONE as int)), j1.raw as int),
                                wm1.raw as int,
                            ),
                            fx_div_v(
                                fx_add_v(sat_i(j as int * (FX_ONE as int)), j2.raw as int),
                                hm1.raw as int,
                            ),
                            p,
                        ),
                        world@,
                        max_depth as int,
                        sample_color@,
                    ));
                    assert(admissible_sample(
                        cam@,
                        world@,
                        col as int,
                        j as int,
                        wm1.raw as int,
                        hm1.raw as int,
                        max_depth as int,
                        sample_color@,
                    ));
                }
                pixel_color.add_assign(sample_color);
                proof {
                    let prev = samples;
                    samples = samples.push(sample_color@);
                    assert(samples.drop_last() =~= prev);
                    assert(samples.last() == sample_color@);
                    assert(color_sum(samples) == vadd_v(color_sum(prev), sample_color@));
                    assert forall|i: int| 0 <= i < samples.len() implies admissible_sample(
                        cam@,
                        world@,
                        col as int,
                        j as int,
                        wm1.raw as int,
                        hm1.raw as int,
                        max_depth as int,
                        #[trigger] samples[i],
                    ) by {
                        if i < prev.len() {
                            assert(samples[i] == prev[i]);
                        } else {
                            assert(samples[i] == sample_color@);
                        }
                    }
                }
                s = s + 1;
            }
            let rgb = write_color(pixel_color, samples_per_pixel as i64);
            proof {
                assert(admissible_pixel(
                    cam@,
                    world@,
                    col as int,
                    j as int,
                    wm1.raw as int,
                    hm1.raw as int,
                    max_depth as int,
                    samples_per_pixel as int,
                    rgb,
                ));
            }
            pixels.push(rgb);
            proof {
                let k0 = pixels@.len() - 1;
                assert(k0 == row * image_width + col);
                lemma_fundamental_div_mod_converse(
                    k0,
                    image_width as int,
                    row as int,
                    col as int,
                );
                assert(k0 % (image_width as int) == col as int);
                assert(k0 / (image_width as int) == row as int);
                assert(pixels@[k0] == rgb);
                assert forall|k: int| 0 <= k < pixels@.len() implies admissible_pixel(
                    cam@,
                    world@,
                    k % (image_width as int),
                    image_height - 1 - k / (image_width as int),
                    wm1.raw as int,
                    hm1.raw as int,
                    max_depth as int,
                    samples_per_pixel as int,
                    #[trigger] pixels@[k],
                ) by {
                    if k < k0 {
                        assert(pixels@[k] == pixels@.subrange(0, k0)[k]);
                    }
                }
            }
            col = col + 1;
        }
        proof {
            assert((row + 1) * image_width == row * image_width + image_width) by (nonlinear_arith);
        }
        row = row + 1;
    }
    proof {
        assert(image_height * image_width == image_width * image_height) by (nonlinear_arith);
    }
    pixels
}

} // verus!



