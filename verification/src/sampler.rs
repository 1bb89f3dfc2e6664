//! The per-pixel sampling driver and the plain-text image serializer.
//!
//! Rows are rendered strictly from the top scanline down; within a row the
//! pixel columns run in parallel and are reassembled in left-to-right
//! order. Averaging, gamma correction, clamping and 8-bit quantization are
//! verified against exact fixed-point contracts; the serializer's output
//! is pinned byte for byte.

use vstd::prelude::*;

use crate::camera::{spec_get_ray, CamV, Camera};
use crate::fixed::{fx_add, fx_div, fx_sqrt, Fx, SCALE};
use crate::hit::World;
use crate::integrator::{black3, possible_radiance, ray_color, Background};
use crate::material::Material;
use crate::rng::random_unit;
use crate::sphere::Sphere;
use crate::vec3::{add3, len3, V3, Vec3};
use rayon::iter::{IndexedParallelIterator, IntoParallelIterator, ParallelIterator};

verus! {

/// The largest channel value before quantization, about 0.999: colors are
/// clamped here so a channel never quantizes past 255.
pub const CLAMP_MAX: i64 = 65470;

/// What the sampler consumes: image dimensions, the per-pixel sample
/// count, the bounce budget, and the background choice.
#[derive(Clone, Copy, Debug)]
pub struct RenderConfig {
    pub width: u32,
    pub height: u32,
    pub samples_per_pixel: u32,
    pub max_depth: u32,
    pub background: Background,
}

/// One 8-bit channel from an accumulated channel sum: divide by the sample
/// count, gamma correct by square root, clamp to `[0, 0.999]`, and scale to
/// `[0, 255]` by truncation.
pub open spec fn spec_channel(sum: int, n: int) -> int {
    let mean = fx_div(sum, n * SCALE);
    let g = fx_sqrt(mean);
    let c = if g < 0 {
        0
    } else if g > CLAMP_MAX {
        CLAMP_MAX as int
    } else {
        g
    };
    c / 256
}

/// The viewport fraction for pixel index `idx` jittered by `jit`, over an
/// axis of `extent` pixels: `(idx + jit) / (extent - 1)` in fixed point.
pub open spec fn spec_pixel_frac(idx: int, jit: int, extent: int) -> int {
    fx_div(fx_add(idx * SCALE, jit), (extent - 1) * SCALE)
}

/// One sampling step for pixel `(i, j)` under concrete draws: jitters in
/// `[0, 1)`, a lens sample inside the unit disc, and `c` a possible
/// radiance of the jittered camera ray at the configured bounce budget.
pub open spec fn sample_step(
    spheres: Seq<Sphere>,
    materials: Seq<Material>,
    cam: CamV,
    cfg: RenderConfig,
    i: int,
    j: int,
    ujit: int,
    vjit: int,
    d: V3,
    c: V3,
) -> bool {
    &&& 0 <= ujit < SCALE
    &&& 0 <= vjit < SCALE
    &&& len3(d) < SCALE
    &&& d.z == 0
    &&& possible_radiance(
        spheres,
        materials,
        cfg.background,
        spec_get_ray(
            cam,
            spec_pixel_frac(i, ujit, cfg.width as int),
            spec_pixel_frac(j, vjit, cfg.height as int),
            d,
        ),
        cfg.max_depth as nat,
        c,
    )
}

/// `c` is a color one sample of pixel `(i, j)` can contribute: the
/// outcome of some jitters, lens sample and radiance draws.
pub open spec fn sample_admitted(
    spheres: Seq<Sphere>,
    materials: Seq<Material>,
    cam: CamV,
    cfg: RenderConfig,
    i: int,
    j: int,
    c: V3,
) -> bool {
    exists|ujit: int, vjit: int, d: V3|
        sample_step(spheres, materials, cam, cfg, i, j, ujit, vjit, d, c)
}

/// The left-to-right sum of a sequence of colors, starting from black.
pub open spec fn sum3(cs: Seq<V3>) -> V3
    decreases cs.len(),
{
    if cs.len() == 0 {
        black3()
    } else {
        add3(sum3(cs.drop_last()), cs.last())
    }
}

/// `acc` is a possible accumulation for pixel `(i, j)`: the sum of `n`
/// colors, each one a sample the pixel admits.
pub open spec fn possible_sample_sum(
    spheres: Seq<Sphere>,
    materials: Seq<Material>,
    cam: CamV,
    cfg: RenderConfig,
    i: int,
    j: int,
    n: nat,
    acc: V3,
) -> bool {
    exists|cs: Seq<V3>|
        cs.len() == n && (forall|k: int|
            0 <= k < cs.len() ==> sample_admitted(
                spheres,
                materials,
                cam,
                cfg,
                i,
                j,
                #[trigger] cs[k],
            )) && acc == sum3(cs)
}

/// `px` is a pixel the sampler can produce at `(i, j)`: the channel-wise
/// quantization of some possible accumulation over the configured sample
/// count.
pub open spec fn pixel_sampled(
    spheres: Seq<Sphere>,
    materials: Seq<Material>,
    cam: CamV,
    cfg: RenderConfig,
    i: int,
    j: int,
    px: (u8, u8, u8),
) -> bool {
    exists|acc: V3|
        #![trigger possible_sample_sum(spheres, materials, cam, cfg, i, j, cfg.samples_per_pixel as nat, acc)]
        possible_sample_sum(spheres, materials, cam, cfg, i, j, cfg.samples_per_pixel as nat, acc)
            && px.0 as int == spec_channel(acc.x, cfg.samples_per_pixel as int) && px.1 as int
            == spec_channel(acc.y, cfg.samples_per_pixel as int) && px.2 as int == spec_channel(
            acc.z,
            cfg.samples_per_pixel as int,
        )
}

/// An empty accumulation is black.
pub proof fn lemma_sum_empty(
    spheres: Seq<Sphere>,
    materials: Seq<Material>,
    cam: CamV,
    cfg: RenderConfig,
    i: int,
    j: int,
)
    ensures
        possible_sample_sum(spheres, materials, cam, cfg, i, j, 0, black3()),
{
    let cs = Seq::<V3>::empty();
    assert(cs.len() == 0 && (forall|k: int|
        0 <= k < cs.len() ==> sample_admitted(spheres, materials, cam, cfg, i, j, #[trigger] cs[k]))
        && black3() == sum3(cs));
}

/// Extending a possible accumulation by one admitted sample gives a
/// possible accumulation of one more sample.
pub proof fn lemma_sum_extend(
    spheres: Seq<Sphere>,
    materials: Seq<Material>,
    cam: CamV,
    cfg: RenderConfig,
    i: int,
    j: int,
    n: nat,
    acc: V3,
    ujit: int,
    vjit: int,
    d: V3,
    c: V3,
)
    requires
        possible_sample_sum(spheres, materials, cam, cfg, i, j, n, acc),
        sample_step(spheres, materials, cam, cfg, i, j, ujit, vjit, d, c),
    ensures
        possible_sample_sum(spheres, materials, cam, cfg, i, j, n + 1, add3(acc, c)),
{
    let cs = choose|cs: Seq<V3>|
        cs.len() == n && (forall|k: int|
            0 <= k < cs.len() ==> sample_admitted(
                spheres,
                materials,
                cam,
                cfg,
                i,
                j,
                #[trigger] cs[k],
            )) && acc == sum3(cs);
    let cs2 = cs.push(c);
    assert(cs2.drop_last() =~= cs);
    assert(cs2.last() == c);
    assert(sample_admitted(spheres, materials, cam, cfg, i, j, c));
    assert forall|k: int| 0 <= k < cs2.len() implies sample_admitted(
        spheres,
        materials,
        cam,
        cfg,
        i,
        j,
        #[trigger] cs2[k],
    ) by {
        if k < cs.len() {
            assert(cs2[k] == cs[k]);
        }
    }
    assert(add3(acc, c) == sum3(cs2));
}

/// The decimal digits of a nonnegative integer, as ASCII bytes.
pub open spec fn spec_decimal(n: int) -> Seq<u8>
    recommends
        n >= 0,
    decreases n,
{
    if n < 10 {
        seq![(48 + n) as u8]
    } else {
        spec_decimal(n / 10).push((48 + n % 10) as u8)
    }
}

/// One pixel's output line: three space-separated decimal channels and a
/// newline.
pub open spec fn spec_pixel_line(p: (u8, u8, u8)) -> Seq<u8> {
    spec_decimal(p.0 as int) + seq![32u8] + spec_decimal(p.1 as int) + seq![32u8] + spec_decimal(
        p.2 as int,
    ) + seq![10u8]
}

/// A row's pixel lines, left to right.
pub open spec fn spec_row_lines(row: Seq<(u8, u8, u8)>) -> Seq<u8>
    decreases row.len(),
{
    if row.len() == 0 {
        Seq::empty()
    } else {
        spec_row_lines(row.drop_last()) + spec_pixel_line(row.last())
    }
}

/// The rows' pixel lines, top scanline first.
pub open spec fn spec_rows_lines(rows: Seq<Vec<(u8, u8, u8)>>) -> Seq<u8>
    decreases rows.len(),
{
    if rows.len() == 0 {
        Seq::empty()
    } else {
        spec_rows_lines(rows.drop_last()) + spec_row_lines(rows.last()@)
    }
}

/// The image header: the magic line, the decimal dimensions separated by a
/// space, and the channel maximum 255, each line newline-terminated.
pub open spec fn spec_ppm_header(w: int, h: int) -> Seq<u8> {
    seq![80u8, 51u8, 10u8] + spec_decimal(w) + seq![32u8] + spec_decimal(h) + seq![10u8]
        + seq![50u8, 53u8, 53u8, 10u8]
}

/// The decimal digits of `n`, as ASCII bytes.
pub fn decimal_bytes(n: u64) -> (v: Vec<u8>)
    ensures
        v@ == spec_decimal(n as int),
    decreases n,
{
    if n < 10 {
        let mut v: Vec<u8> = Vec::new();
        v.push(48 + n as u8);
        proof {
            assert(v@ =~= spec_decimal(n as int));
        }
        v
    } else {
        let mut v = decimal_bytes(n / 10);
        v.push(48 + (n % 10) as u8);
        v
    }
}

/// One 8-bit channel from an accumulated channel sum.
fn quantize(sum: Fx, samples: u32) -> (b: u8)
    ensures
        b as int == spec_channel(sum@, samples as int),
{
    let mean = sum.div(Fx::from_u32(samples));
    let g = mean.sqrt();
    let c: i64 = if g.raw < 0 {
        0
    } else if g.raw > CLAMP_MAX {
        CLAMP_MAX
    } else {
        g.raw
    };
    ((c as u64) / 256) as u8
}

impl Vec3 {
    /// The "R G B" output line of this color after averaging over the
    /// sample count, gamma correction, clamping and quantization.
    pub fn format_color(self, samples_per_pixel: u32) -> (line: Vec<u8>)
        ensures
            line@ == spec_pixel_line(
                (
                    spec_channel(self@.x, samples_per_pixel as int) as u8,
                    spec_channel(self@.y, samples_per_pixel as int) as u8,
                    spec_channel(self@.z, samples_per_pixel as int) as u8,
                ),
            ),
    {
        let r = quantize(self.x(), samples_per_pixel);
        let g = quantize(self.y(), samples_per_pixel);
        let b = quantize(self.z(), samples_per_pixel);
        let mut line = decimal_bytes(r as u64);
        line.push(32);
        let mut gd = decimal_bytes(g as u64);
        line.append(&mut gd);
        line.push(32);
        let mut bd = decimal_bytes(b as u64);
        line.append(&mut bd);
        line.push(10);
        proof {
            assert(line@ =~= spec_pixel_line((r, g, b)));
        }
        line
    }
}

/// One pixel: sum `samples_per_pixel` radiance estimates through jittered
/// rays, then quantize the averaged color. The result is always the
/// quantization of a sum of admitted samples — each the radiance of a
/// possible camera ray through this pixel under some draws; which sum
/// occurs depends on the draws.
pub fn render_pixel(world: &World, cam: &Camera, cfg: &RenderConfig, i: u32, j: u32) -> (px: (
    u8,
    u8,
    u8,
))
    requires
        world.wf(),
        cfg.width >= 1,
        cfg.height >= 1,
    ensures
        pixel_sampled(world.spheres@, world.materials@, cam@, *cfg, i as int, j as int, px),
{
    let mut pixel_color = Vec3::zero();
    proof {
        lemma_sum_empty(world.spheres@, world.materials@, cam@, *cfg, i as int, j as int);
    }
    let mut s: u32 = 0;
    while s < cfg.samples_per_pixel
        invariant
            world.wf(),
            cfg.width >= 1,
            cfg.height >= 1,
            s <= cfg.samples_per_pixel,
            possible_sample_sum(
                world.spheres@,
                world.materials@,
                cam@,
                *cfg,
                i as int,
                j as int,
                s as nat,
                pixel_color@,
            ),
        decreases cfg.samples_per_pixel - s,
    {
        let ur = random_unit();
        let vr = random_unit();
        let u = Fx::from_u32(i).add(ur).div(Fx::from_u32(cfg.width - 1));
        let v = Fx::from_u32(j).add(vr).div(Fx::from_u32(cfg.height - 1));
        let ray = cam.get_ray(u, v);
        let sample = ray_color(&ray, world, cfg.background, cfg.max_depth);
        let next = pixel_color.add(sample);
        proof {
            let d = choose|d: V3|
                len3(d) < SCALE && d.z == 0 && ray@ == spec_get_ray(cam@, u@, v@, d);
            assert(u@ == spec_pixel_frac(i as int, ur@, cfg.width as int));
            assert(v@ == spec_pixel_frac(j as int, vr@, cfg.height as int));
            lemma_sum_extend(
                world.spheres@,
                world.materials@,
                cam@,
                *cfg,
                i as int,
                j as int,
                s as nat,
                pixel_color@,
                ur@,
                vr@,
                d,
                sample@,
            );
        }
        pixel_color = next;
        s = s + 1;
    }
    let px = (
        quantize(pixel_color.x(), cfg.samples_per_pixel),
        quantize(pixel_color.y(), cfg.samples_per_pixel),
        quantize(pixel_color.z(), cfg.samples_per_pixel),
    );
    proof {
        let acc = pixel_color@;
        assert(possible_sample_sum(
            world.spheres@,
            world.materials@,
            cam@,
            *cfg,
            i as int,
            j as int,
            cfg.samples_per_pixel as nat,
            acc,
        ) && px.0 as int == spec_channel(acc.x, cfg.samples_per_pixel as int) && px.1 as int
            == spec_channel(acc.y, cfg.samples_per_pixel as int) && px.2 as int == spec_channel(
            acc.z,
            cfg.samples_per_pixel as int,
        ));
    }
    px
}

/// Relies on rayon's indexed parallel map: collecting `0..width` mapped
/// through a closure into a `Vec` yields exactly one element per index, in
/// index order. The closure only calls the verified `render_pixel` for
/// that column, so each element satisfies `render_pixel`'s postcondition
/// at its own index.
#[verifier::external_body]
fn par_row(world: &World, cam: &Camera, cfg: &RenderConfig, j: u32) -> (row: Vec<(u8, u8, u8)>)
    requires
        world.wf(),
        cfg.width >= 1,
        cfg.height >= 1,
    ensures
        row@.len() == cfg.width,
        forall|x: int|
            0 <= x < row@.len() ==> pixel_sampled(
                world.spheres@,
                world.materials@,
                cam@,
                *cfg,
                x,
                j as int,
                #[trigger] row@[x],
            ),
{
    (0..cfg.width).into_par_iter().map(|i| render_pixel(world, cam, cfg, i, j)).collect()
}

/// One scanline: the pixels of row `j`, columns computed in parallel and
/// reassembled left to right, each one a pixel the sampler admits at its
/// column. Calling this row by row, from `height - 1` down to `0`, is the
/// per-scanline completion signal a progress reporter can hook into.
pub fn render_row(world: &World, cam: &Camera, cfg: &RenderConfig, j: u32) -> (row: Vec<
    (u8, u8, u8),
>)
    requires
        world.wf(),
        cfg.width >= 1,
        cfg.height >= 1,
    ensures
        row@.len() == cfg.width,
        forall|x: int|
            0 <= x < row@.len() ==> pixel_sampled(
                world.spheres@,
                world.materials@,
                cam@,
                *cfg,
                x,
                j as int,
                #[trigger] row@[x],
            ),
{
    par_row(world, cam, cfg, j)
}

/// The full image: scanlines strictly from the top row (`j = height - 1`)
/// down, each finished before the next begins; the pixel at row `k`,
/// column `x` is one the sampler admits for scanline `height - 1 - k` at
/// that column.
pub fn render(world: &World, cam: &Camera, cfg: &RenderConfig) -> (rows: Vec<Vec<(u8, u8, u8)>>)
    requires
        world.wf(),
        cfg.width >= 1,
        cfg.height >= 1,
    ensures
        rows@.len() == cfg.height,
        forall|k: int| 0 <= k < rows@.len() ==> (#[trigger] rows@[k])@.len() == cfg.width,
        forall|k: int, x: int|
            0 <= k < rows@.len() && 0 <= x < cfg.width ==> pixel_sampled(
                world.spheres@,
                world.materials@,
                cam@,
                *cfg,
                x,
                cfg.height - 1 - k,
                #[trigger] rows@[k]@[x],
            ),
{
    let mut rows: Vec<Vec<(u8, u8, u8)>> = Vec::new();
    let mut j: u32 = cfg.height;
    while j > 0
        invariant
            world.wf(),
            cfg.width >= 1,
            cfg.height >= 1,
            j <= cfg.height,
            rows@.len() == cfg.height - j,
            forall|k: int| 0 <= k < rows@.len() ==> (#[trigger] rows@[k])@.len() == cfg.width,
            forall|k: int, x: int|
                0 <= k < rows@.len() && 0 <= x < cfg.width ==> pixel_sampled(
                    world.spheres@,
                    world.materials@,
                    cam@,
                    *cfg,
                    x,
                    cfg.height - 1 - k,
                    #[trigger] rows@[k]@[x],
                ),
        decreases j,
    {
        j = j - 1;
        let row = render_row(world, cam, cfg, j);
        rows.push(row);
    }
    rows
}

/// Serialize pixel rows as a plain-text image: the exact header for the
/// given dimensions, then every pixel line row by row.
pub fn ppm_bytes(rows: &Vec<Vec<(u8, u8, u8)>>, width: u32, height: u32) -> (out: Vec<u8>)
    ensures
        out@ == spec_ppm_header(width as int, height as int) + spec_rows_lines(rows@),
{
    let mut out: Vec<u8> = Vec::new();
    out.push(80);
    out.push(51);
    out.push(10);
    let mut wd = decimal_bytes(width as u64);
    out.append(&mut wd);
    out.push(32);
    let mut hd = decimal_bytes(height as u64);
    out.append(&mut hd);
    out.push(10);
    out.push(50);
    out.push(53);
    out.push(53);
    out.push(10);
    proof {
        assert(out@ =~= spec_ppm_header(width as int, height as int));
    }
    let ghost header = out@;
    let mut k: usize = 0;
    while k < rows.len()
        invariant
            k <= rows@.len(),
            out@ == header + spec_rows_lines(rows@.take(k as int)),
        decreases rows@.len() - k,
    {
        let ghost rows_prefix = rows@.take(k as int);
        let ghost rows_next = rows@.take(k as int + 1);
        proof {
            assert(rows_next.drop_last() =~= rows_prefix);
            assert(rows_next.last() == rows@[k as int]);
        }
        let row = &rows[k];
        let ghost row_start = out@;
        let mut m: usize = 0;
        while m < row.len()
            invariant
                m <= row@.len(),
                out@ == row_start + spec_row_lines(row@.take(m as int)),
            decreases row@.len() - m,
        {
            let ghost row_prefix = row@.take(m as int);
            let ghost row_next = row@.take(m as int + 1);
            proof {
                assert(row_next.drop_last() =~= row_prefix);
                assert(row_next.last() == row@[m as int]);
            }
            let p = row[m];
            let ghost before = out@;
            let mut rd = decimal_bytes(p.0 as u64);
            out.append(&mut rd);
            out.push(32);
            let mut gd = decimal_bytes(p.1 as u64);
            out.append(&mut gd);
            out.push(32);
            let mut bd = decimal_bytes(p.2 as u64);
            out.append(&mut bd);
            out.push(10);
            proof {
                assert(out@ =~= before + spec_pixel_line(p));
                assert(out@ =~= row_start + spec_row_lines(row_next));
            }
            m = m + 1;
        }
        proof {
            assert(row@.take(row@.len() as int) =~= row@);
            assert(out@ =~= header + spec_rows_lines(rows_next));
        }
        k = k + 1;
    }
    proof {
        assert(rows@.take(rows@.len() as int) =~= rows@);
    }
    out
}

/// Render and serialize: the output is exactly the header for the
/// configured dimensions followed by `height` rows of `width` pixel lines
/// each, top scanline first, every pixel one the sampler admits at its
/// coordinates.
pub fn render_ppm(world: &World, cam: &Camera, cfg: &RenderConfig) -> (out: Vec<u8>)
    requires
        world.wf(),
        cfg.width >= 1,
        cfg.height >= 1,
    ensures
        exists|rows: Seq<Vec<(u8, u8, u8)>>|
            rows.len() == cfg.height && (forall|k: int|
                0 <= k < rows.len() ==> (#[trigger] rows[k])@.len() == cfg.width) && (forall|
                k: int,
                x: int,
            |
                0 <= k < rows.len() && 0 <= x < cfg.width ==> pixel_sampled(
                    world.spheres@,
                    world.materials@,
                    cam@,
                    *cfg,
                    x,
                    cfg.height - 1 - k,
                    #[trigger] rows[k]@[x],
                )) && out@ == spec_ppm_header(cfg.width as int, cfg.height as int)
                + spec_rows_lines(rows),
{
    let rows = render(world, cam, cfg);
    let out = ppm_bytes(&rows, cfg.width, cfg.height);
    proof {
        let witness = rows@;
        assert(witness.len() == cfg.height && (forall|k: int|
            0 <= k < witness.len() ==> (#[trigger] witness[k])@.len() == cfg.width) && (forall|
            k: int,
            x: int,
        |
            0 <= k < witness.len() && 0 <= x < cfg.width ==> pixel_sampled(
                world.spheres@,
                world.materials@,
                cam@,
                *cfg,
                x,
                cfg.height - 1 - k,
                #[trigger] witness[k]@[x],
            )) && out@ == spec_ppm_header(cfg.width as int, cfg.height as int) + spec_rows_lines(
            witness,
        ));
    }
    out
}

} // verus!
