//! The raster backend and the per-pixel shading form of the evaluator.
//!
//! The raster backend walks the pixel grid in row-major order, pixel by
//! pixel, and appends four color bytes per pixel to a linear buffer.  The
//! per-pixel form, [`shade_pixel`], is the same mapper, iterator and encoder
//! chain taken for one pixel alone, the shape in which a fragment stage of a
//! graphics pipeline runs it; the two are proven to agree byte for byte.

use crate::color::{color_of, rgba_spec, Rgba};
use crate::coords::{map_coord, map_pixel};
use crate::escape::{escape_count, escape_time, lemma_count_within_budget};
use crate::params::{
    ConfigError, EvaluationParameters, PixelGrid, Viewport, BAILOUT_LIMIT_FACTOR,
    COORD_LIMIT_FACTOR, SCALE_LIMIT,
};
use vstd::arithmetic::div_mod::{lemma_fundamental_div_mod_converse, lemma_multiply_divide_le};
use vstd::arithmetic::mul::lemma_mul_nonnegative;
use vstd::prelude::*;

verus! {

/// The divergence count of pixel `(px, py)` of the grid.
pub open spec fn pixel_count_at(
    v: Viewport,
    p: EvaluationParameters,
    g: PixelGrid,
    px: int,
    py: int,
) -> nat {
    escape_count(
        map_coord(px, g.width as int, v.x_min as int, v.x_size as int),
        map_coord(py, g.height as int, v.y_min as int, v.y_size as int),
        p,
    )
}

/// The divergence field: every pixel's count, row-major.
pub open spec fn field_spec(v: Viewport, p: EvaluationParameters, g: PixelGrid) -> Seq<u32> {
    Seq::new(
        (g.width * g.height) as nat,
        |i: int| pixel_count_at(v, p, g, i % (g.width as int), i / (g.width as int)) as u32,
    )
}

/// Channel `c` of the color encoding of count `n`: red, green, blue, alpha
/// in that order.
pub open spec fn channel_byte(c: int, n: nat) -> u8 {
    if c == 0 {
        rgba_spec(n).r
    } else if c == 1 {
        rgba_spec(n).g
    } else if c == 2 {
        rgba_spec(n).b
    } else {
        rgba_spec(n).a
    }
}

/// The color bytes of a sequence of counts, four per count.
pub open spec fn bytes_of_counts(s: Seq<u32>) -> Seq<u8> {
    Seq::new(4 * s.len(), |i: int| channel_byte(i % 4, s[i / 4] as nat))
}

/// The complete color buffer of a render, as a function of the inputs alone.
pub open spec fn color_buffer_spec(v: Viewport, p: EvaluationParameters, g: PixelGrid) -> Seq<
    u8,
> {
    bytes_of_counts(field_spec(v, p, g))
}

/// The first reason the configuration is rejected, if any.
pub open spec fn validate_spec(v: Viewport, p: EvaluationParameters) -> Option<ConfigError> {
    if !(0 < v.x_size && 0 < v.y_size) {
        Some(ConfigError::NonPositiveViewport)
    } else if p.scaling_factor < 1 {
        Some(ConfigError::NonPositiveScalingFactor)
    } else if SCALE_LIMIT < p.scaling_factor {
        Some(ConfigError::ScalingFactorTooLarge)
    } else if !(0 <= p.bailout <= BAILOUT_LIMIT_FACTOR * p.scaling_factor) {
        Some(ConfigError::BailoutOutOfRange)
    } else if !v.in_range(p.scaling_factor as int) {
        Some(ConfigError::ViewportOutOfRange)
    } else {
        None
    }
}

/// Check a configuration; a render proceeds exactly when this returns
/// nothing.
pub fn validate(v: &Viewport, p: &EvaluationParameters) -> (r: Option<ConfigError>)
    ensures
        r == validate_spec(*v, *p),
        r is None <==> (v.wf() && p.wf() && v.in_range(p.scaling_factor as int)),
{
    if v.x_size <= 0 || v.y_size <= 0 {
        Some(ConfigError::NonPositiveViewport)
    } else if p.scaling_factor < 1 {
        Some(ConfigError::NonPositiveScalingFactor)
    } else if SCALE_LIMIT < p.scaling_factor {
        Some(ConfigError::ScalingFactorTooLarge)
    } else if p.bailout < 0 || BAILOUT_LIMIT_FACTOR * p.scaling_factor < p.bailout {
        Some(ConfigError::BailoutOutOfRange)
    } else {
        let lim: i128 = COORD_LIMIT_FACTOR * p.scaling_factor;
        if v.x_min < -lim || lim - v.x_min < v.x_size || v.y_min < -lim || lim - v.y_min
            < v.y_size {
            Some(ConfigError::ViewportOutOfRange)
        } else {
            None
        }
    }
}

proof fn lemma_grid_index(px: int, py: int, w: int, h: int)
    by (nonlinear_arith)
    requires
        0 <= px < w,
        0 <= py < h,
    ensures
        0 <= py * w + px,
        py * w + px + 1 <= h * w,
        (py + 1) * w == py * w + w,
        h * w == w * h,
{
}

/// Every pixel's divergence count lies between zero and the iteration
/// budget, whatever the viewport and grid.
pub proof fn lemma_field_within_budget(v: Viewport, p: EvaluationParameters, g: PixelGrid)
    ensures
        forall|i: int|
            0 <= i < field_spec(v, p, g).len() ==> #[trigger] field_spec(v, p, g)[i]
                <= p.max_iterations,
{
    assert forall|i: int|
        0 <= i < field_spec(v, p, g).len() implies #[trigger] field_spec(v, p, g)[i]
        <= p.max_iterations by {
        let w = g.width as int;
        lemma_count_within_budget(
            map_coord(i % w, w, v.x_min as int, v.x_size as int),
            map_coord(i / w, g.height as int, v.y_min as int, v.y_size as int),
            p,
        );
    }
}

/// The raster backend's first half: the divergence count of every pixel of
/// the grid, row-major (rows outer, columns inner).
pub fn divergence_field(v: &Viewport, p: &EvaluationParameters, g: &PixelGrid) -> (f: Vec<u32>)
    requires
        v.wf(),
        p.wf(),
        v.in_range(p.scaling_factor as int),
        g.pixel_total() <= usize::MAX,
    ensures
        f@ == field_spec(*v, *p, *g),
        forall|i: int| 0 <= i < f@.len() ==> f@[i] <= p.max_iterations,
{
    let w: u32 = g.width;
    let h: u32 = g.height;
    let mut f: Vec<u32> = Vec::new();
    let mut py: u32 = 0;
    while py < h
        invariant
            w == g.width,
            h == g.height,
            v.wf(),
            p.wf(),
            v.in_range(p.scaling_factor as int),
            g.pixel_total() <= usize::MAX,
            py <= h,
            f@.len() == py * w,
            forall|i: int| 0 <= i < f@.len() ==> f@[i] == field_spec(*v, *p, *g)[i],
            forall|i: int| 0 <= i < f@.len() ==> f@[i] <= p.max_iterations,
        decreases h - py,
    {
        let mut px: u32 = 0;
        while px < w
            invariant
                w == g.width,
                h == g.height,
                v.wf(),
                p.wf(),
                v.in_range(p.scaling_factor as int),
                g.pixel_total() <= usize::MAX,
                py < h,
                px <= w,
                f@.len() == py * w + px,
                forall|i: int| 0 <= i < f@.len() ==> f@[i] == field_spec(*v, *p, *g)[i],
                forall|i: int| 0 <= i < f@.len() ==> f@[i] <= p.max_iterations,
            decreases w - px,
        {
            proof {
                lemma_grid_index(px as int, py as int, w as int, h as int);
            }
            let cx: i128 = map_pixel(px, w, v.x_min, v.x_size);
            let cy: i128 = map_pixel(py, h, v.y_min, v.y_size);
            let n: u32 = escape_time(cx, cy, p);
            proof {
                let k = py as int * w as int + px as int;
                lemma_fundamental_div_mod_converse(k, w as int, py as int, px as int);
                assert(field_spec(*v, *p, *g)[k] == pixel_count_at(
                    *v,
                    *p,
                    *g,
                    px as int,
                    py as int,
                ) as u32);
            }
            f.push(n);
            px = px + 1;
        }
        proof {
            assert((py as int + 1) * (w as int) == py as int * (w as int) + w as int)
                by (nonlinear_arith);
        }
        py = py + 1;
    }
    proof {
        vstd::arithmetic::mul::lemma_mul_is_commutative(h as int, w as int);
        assert(f@ =~= field_spec(*v, *p, *g));
    }
    f
}

/// The raster backend's second half, the encoder pass: four color bytes for
/// each count of a divergence field.
pub fn colorize(field: &Vec<u32>) -> (buf: Vec<u8>)
    requires
        4 * field@.len() <= usize::MAX,
    ensures
        buf@ == bytes_of_counts(field@),
{
    let mut buf: Vec<u8> = Vec::new();
    let mut i: usize = 0;
    while i < field.len()
        invariant
            i <= field@.len(),
            4 * field@.len() <= usize::MAX,
            buf@.len() == 4 * i,
            forall|j: int| 0 <= j < buf@.len() ==> buf@[j] == bytes_of_counts(field@)[j],
        decreases field@.len() - i,
    {
        let c: Rgba = color_of(field[i]);
        proof {
            let k = i as int;
            lemma_fundamental_div_mod_converse(4 * k, 4, k, 0);
            lemma_fundamental_div_mod_converse(4 * k + 1, 4, k, 1);
            lemma_fundamental_div_mod_converse(4 * k + 2, 4, k, 2);
            lemma_fundamental_div_mod_converse(4 * k + 3, 4, k, 3);
        }
        buf.push(c.r);
        buf.push(c.g);
        buf.push(c.b);
        buf.push(c.a);
        i = i + 1;
    }
    proof {
        assert(buf@ =~= bytes_of_counts(field@));
    }
    buf
}

/// The raster backend: the full RGBA color buffer for a grid, row-major,
/// four bytes per pixel, or the reason the configuration was rejected.
pub fn render(v: &Viewport, p: &EvaluationParameters, g: &PixelGrid) -> (r: Result<
    Vec<u8>,
    ConfigError,
>)
    requires
        g.byte_total() <= usize::MAX,
    ensures
        r is Ok <==> validate_spec(*v, *p) is None,
        r is Ok ==> r->Ok_0@ == color_buffer_spec(*v, *p, *g),
        r is Err ==> validate_spec(*v, *p) == Some(r->Err_0),
{
    match validate(v, p) {
        Some(e) => Err(e),
        None => {
            proof {
                lemma_mul_nonnegative(g.width as int, g.height as int);
            }
            let field = divergence_field(v, p, g);
            Ok(colorize(&field))
        },
    }
}

/// The per-pixel shading backend: the color of one pixel, computed
/// independently of every other pixel, as a fragment stage would.
pub fn shade_pixel(px: u32, py: u32, v: &Viewport, p: &EvaluationParameters, g: &PixelGrid) -> (c:
    Rgba)
    requires
        px < g.width,
        py < g.height,
        v.wf(),
        p.wf(),
        v.in_range(p.scaling_factor as int),
    ensures
        c == rgba_spec(pixel_count_at(*v, *p, *g, px as int, py as int)),
{
    let cx: i128 = map_pixel(px, g.width, v.x_min, v.x_size);
    let cy: i128 = map_pixel(py, g.height, v.y_min, v.y_size);
    let n: u32 = escape_time(cx, cy, p);
    color_of(n)
}

/// Cross-backend consistency: for every pixel of the grid, the four bytes
/// the raster backend's buffer holds for that pixel are exactly the
/// channels of the color the per-pixel shading backend computes for it.
pub proof fn lemma_backend_consistency(
    v: Viewport,
    p: EvaluationParameters,
    g: PixelGrid,
    px: int,
    py: int,
)
    requires
        0 <= px < g.width,
        0 <= py < g.height,
    ensures
        ({
            let base = 4 * (py * g.width + px);
            let c = rgba_spec(pixel_count_at(v, p, g, px, py));
            &&& color_buffer_spec(v, p, g).len() == g.byte_total()
            &&& color_buffer_spec(v, p, g)[base] == c.r
            &&& color_buffer_spec(v, p, g)[base + 1] == c.g
            &&& color_buffer_spec(v, p, g)[base + 2] == c.b
            &&& color_buffer_spec(v, p, g)[base + 3] == c.a
        }),
{
    let w = g.width as int;
    let h = g.height as int;
    let k = py * w + px;
    lemma_grid_index(px, py, w, h);
    lemma_fundamental_div_mod_converse(k, w, py, px);
    lemma_fundamental_div_mod_converse(4 * k, 4, k, 0);
    lemma_fundamental_div_mod_converse(4 * k + 1, 4, k, 1);
    lemma_fundamental_div_mod_converse(4 * k + 2, 4, k, 2);
    lemma_fundamental_div_mod_converse(4 * k + 3, 4, k, 3);
    lemma_count_within_budget(
        map_coord(px, g.width as int, v.x_min as int, v.x_size as int),
        map_coord(py, g.height as int, v.y_min as int, v.y_size as int),
        p,
    );
}

/// Rendering is deterministic: the color buffer is a function of viewport,
/// parameters and grid alone, so two renders of the same inputs give
/// byte-identical buffers.
pub proof fn lemma_render_deterministic(
    v: Viewport,
    p: EvaluationParameters,
    g: PixelGrid,
    b1: Seq<u8>,
    b2: Seq<u8>,
)
    requires
        b1 == color_buffer_spec(v, p, g),
        b2 == color_buffer_spec(v, p, g),
    ensures
        b1 == b2,
{
}

/// Sum of a sequence of counts.
pub open spec fn sum_counts(s: Seq<u32>) -> int
    decreases s.len(),
{
    if s.len() == 0 {
        0
    } else {
        sum_counts(s.drop_last()) + s.last()
    }
}

/// The integer-truncated mean iteration count of a divergence field, the
/// raster backend's optional diagnostic.
pub fn mean_iterations(field: &Vec<u32>) -> (m: u32)
    requires
        field@.len() >= 1,
    ensures
        m == sum_counts(field@) / field@.len() as int,
{
    let mut acc: u128 = 0;
    let mut i: usize = 0;
    while i < field.len()
        invariant
            i <= field@.len(),
            acc == sum_counts(field@.take(i as int)),
            acc <= i * 0xffff_ffffu128,
        decreases field@.len() - i,
    {
        proof {
            assert(field@.take(i as int + 1).drop_last() =~= field@.take(i as int));
            assert(field@.take(i as int + 1).last() == field@[i as int]);
        }
        acc = acc + field[i] as u128;
        i = i + 1;
    }
    proof {
        assert(field@.take(field@.len() as int) =~= field@);
        lemma_multiply_divide_le(acc as int, field@.len() as int, 0xffff_ffff);
    }
    let m: u128 = acc / (field.len() as u128);
    m as u32
}

} // verus!
