//! Several overlay sources drawn over each other on one canvas.

use crate::layer_math::{
    across, alpha_over, beyond, bilinear, bilinear_part, byte_part, edge_of_row, on_source, over,
    over_alpha, part_across, part_of, past_pixel, pixels_along, quantize, quantized, row_edge,
    weighted_over, LayerMath,
};
use crate::overlay::{
    contain_fit_render_scale, contained, OverlayFrame, OverlayFrameSource, OverlayPlacement,
};
use crate::planes::blank;
use crate::scalar::{Scalar, HALF, ONE, ZERO};
use vstd::arithmetic::div_mod::{lemma_fundamental_div_mod, lemma_fundamental_div_mod_converse};
use vstd::prelude::*;

verus! {

/// One straight-alpha pixel.
#[derive(Clone, Copy, Debug, PartialEq, Eq, Structural)]
pub struct Pixel {
    pub r: u8,
    pub g: u8,
    pub b: u8,
    pub a: u8,
}

/// The q-th pixel of an image, row by row.
pub open spec fn pixel(rgba: Seq<u8>, q: int) -> Pixel {
    Pixel { r: rgba[4 * q], g: rgba[4 * q + 1], b: rgba[4 * q + 2], a: rgba[4 * q + 3] }
}

/// The image holds its pixels, and they can be numbered.
pub open spec fn shaped(frame: OverlayFrame) -> bool {
    frame.pixels() <= u32::MAX && frame.pixels() * 4 <= frame.rgba@.len()
}

/// The image holds its q-th pixel, which can be numbered.
pub open spec fn holds_pixel(frame: OverlayFrame, q: int) -> bool {
    0 <= q <= u32::MAX && 4 * q + 3 < frame.rgba@.len()
}

/// Every row can be looked through up to the first pixel that shows something:
/// the last one too, which may lack pixels after that.
pub open spec fn scannable(frame: OverlayFrame) -> bool {
    frame.width == 0 || frame.height == 0 || {
        let base = (frame.height - 1) * frame.width;
        &&& base <= u32::MAX
        &&& (base + frame.width) * 4 <= frame.rgba@.len() || last_row_stops(frame)
    }
}

/// The last row holds a pixel that shows something.
pub open spec fn last_row_stops(frame: OverlayFrame) -> bool {
    exists|x: int|
        {
            &&& 0 <= x < frame.width
            &&& 4 * ((frame.height - 1) * frame.width + x) + 3 < frame.rgba@.len()
            &&& #[trigger] pixel(frame.rgba@, (frame.height - 1) * frame.width + x).a != 0
        }
}

/// The image is exactly its pixels.
pub open spec fn canvas_shaped(frame: OverlayFrame) -> bool {
    frame.pixels() <= u32::MAX && frame.rgba@.len() == frame.pixels() * 4
}

pub open spec fn transparent(rgba: Seq<u8>) -> bool {
    forall|k: int| 0 <= k && 4 * k + 3 < rgba.len() ==> #[trigger] rgba[4 * k + 3] == 0
}

/// No pixel shows anything. Bytes after the last whole pixel do not count.
pub fn is_fully_transparent(frame: &OverlayFrame) -> (r: bool)
    ensures
        r == transparent(frame.rgba@),
{
    let n: usize = frame.rgba.len();
    let mut k: usize = 0;
    let mut at: usize = 0;
    while n - at >= 4
        invariant
            n == frame.rgba@.len(),
            at == 4 * k,
            at <= n,
            forall|j: int| 0 <= j < k ==> #[trigger] frame.rgba@[4 * j + 3] == 0,
        decreases n - at,
    {
        if frame.rgba[at + 3] != 0 {
            return false;
        }
        at += 4;
        k += 1;
    }
    true
}

/// The row holds a pixel that shows something.
pub open spec fn row_visible(frame: OverlayFrame, y: int) -> bool {
    exists|x: int| 0 <= x < frame.width && #[trigger] pixel(frame.rgba@, y * frame.width + x).a != 0
}

/// `rows` are the first and the last row that show something.
pub open spec fn visible_span(frame: OverlayFrame, rows: (u32, u32)) -> bool {
    &&& rows.0 <= rows.1 < frame.height
    &&& row_visible(frame, rows.0 as int)
    &&& row_visible(frame, rows.1 as int)
    &&& forall|y: int|
        0 <= y < frame.height && #[trigger] row_visible(frame, y) ==> rows.0 <= y <= rows.1
}

pub open spec fn nothing_visible(frame: OverlayFrame) -> bool {
    forall|y: int| 0 <= y < frame.height ==> !#[trigger] row_visible(frame, y)
}

proof fn row_lies_within(frame: OverlayFrame, y: int)
    requires
        shaped(frame),
        0 <= y < frame.height,
    ensures
        0 <= y * frame.width,
        y * frame.width + frame.width <= frame.pixels(),
{
    assert(0 <= y * frame.width && y * frame.width + frame.width <= frame.width * frame.height)
        by (nonlinear_arith)
        requires
            0 <= y,
            y + 1 <= frame.height,
            frame.width >= 0,
    ;
}

proof fn whole_image_is_scannable(frame: OverlayFrame)
    requires
        shaped(frame),
    ensures
        scannable(frame),
{
    if frame.width > 0 && frame.height > 0 {
        row_lies_within(frame, frame.height - 1);
        assert((frame.height - 1) * frame.width + frame.width == frame.width * frame.height)
            by (nonlinear_arith);
    }
}

/// Whether the image can be looked through.
fn can_scan(frame: &OverlayFrame) -> (r: bool)
    ensures
        r == scannable(*frame),
{
    if frame.width == 0 || frame.height == 0 {
        return true;
    }
    let w: u64 = frame.width as u64;
    let ghost rows = frame.height - 1;
    assert(0 <= rows * w <= 0xffff_ffff * 0xffff_ffff) by (nonlinear_arith)
        requires
            0 <= rows <= 0xffff_ffff,
            0 <= w <= 0xffff_ffff,
    ;
    let base: u64 = (frame.height - 1) as u64 * w;
    if base > u32::MAX as u64 {
        return false;
    }
    let room: usize = frame.rgba.len();
    let mut x: u64 = 0;
    while x < w
        invariant
            w == frame.width,
            frame.height > 0,
            base == (frame.height - 1) * frame.width,
            base <= u32::MAX,
            room == frame.rgba@.len(),
            x <= w,
            forall|k: int| 0 <= k < x ==> #[trigger] pixel(frame.rgba@, base + k).a == 0,
            x == 0 || 4 * (base + x) <= room,
        decreases w - x,
    {
        let at: u64 = (base + x) * 4 + 3;
        if at >= room as u64 {
            assert forall|k: int| 0 <= k < w && 4 * (base + k) + 3 < room implies
                #[trigger] pixel(frame.rgba@, (frame.height - 1) * frame.width + k).a == 0 by {
                assert(k < x);
                assert(pixel(frame.rgba@, base + k).a == 0);
            }
            return false;
        }
        if frame.rgba[at as usize] != 0 {
            assert(pixel(frame.rgba@, (frame.height - 1) * frame.width + x).a != 0);
            return true;
        }
        x += 1;
    }
    true
}

fn row_has_alpha(frame: &OverlayFrame, y: u32) -> (r: bool)
    requires
        scannable(*frame),
        y < frame.height,
    ensures
        r == row_visible(*frame, y as int),
{
    if frame.width == 0 {
        return false;
    }
    let ghost base = (frame.height - 1) * frame.width;
    assert(0 <= y * frame.width && y * frame.width <= base && (y < frame.height - 1 ==> y
        * frame.width + frame.width <= base)) by (nonlinear_arith)
        requires
            0 <= y <= frame.height - 1,
            frame.width >= 0,
            base == (frame.height - 1) * frame.width,
    ;
    let room: usize = frame.rgba.len();
    let row: u64 = y as u64 * frame.width as u64;
    let mut x: u32 = 0;
    while x < frame.width
        invariant
            scannable(*frame),
            frame.width > 0,
            y < frame.height,
            base == (frame.height - 1) * frame.width,
            x <= frame.width,
            room == frame.rgba@.len(),
            row == y * frame.width,
            row <= base <= u32::MAX,
            y < frame.height - 1 ==> row + frame.width <= base,
            y == frame.height - 1 ==> row == base,
            forall|k: int| 0 <= k < x ==> #[trigger] pixel(frame.rgba@, row + k).a == 0,
        decreases frame.width - x,
    {
        let at: u64 = (row + x as u64) * 4 + 3;
        assert(at < frame.rgba@.len()) by {
            if (base + frame.width) * 4 > frame.rgba@.len() {
                let k = choose|k: int|
                    {
                        &&& 0 <= k < frame.width
                        &&& 4 * ((frame.height - 1) * frame.width + k) + 3 < frame.rgba@.len()
                        &&& #[trigger] pixel(
                            frame.rgba@,
                            (frame.height - 1) * frame.width + k,
                        ).a != 0
                    };
                if y == frame.height - 1 && k < x {
                    assert(pixel(frame.rgba@, row + k).a == 0);
                }
            }
        }
        if frame.rgba[at as usize] != 0 {
            assert(pixel(frame.rgba@, y * frame.width + x).a != 0);
            return true;
        }
        x += 1;
    }
    false
}

/// The first and the last row that show something.
pub fn opaque_row_bounds(frame: &OverlayFrame) -> (r: Option<(u32, u32)>)
    requires
        scannable(*frame),
    ensures
        r is None <==> nothing_visible(*frame),
        r matches Some(rows) ==> visible_span(*frame, rows),
{
    let mut first: u32 = 0;
    while first < frame.height && !row_has_alpha(frame, first)
        invariant
            scannable(*frame),
            first <= frame.height,
            forall|y: int| 0 <= y < first ==> !#[trigger] row_visible(*frame, y),
        ensures
            first == frame.height || row_visible(*frame, first as int),
        decreases frame.height - first,
    {
        first += 1;
    }
    if first == frame.height {
        return None;
    }
    let mut last: u32 = frame.height - 1;
    while last > first && !row_has_alpha(frame, last)
        invariant
            scannable(*frame),
            first <= last < frame.height,
            row_visible(*frame, first as int),
            forall|y: int| last < y < frame.height ==> !#[trigger] row_visible(*frame, y),
        ensures
            row_visible(*frame, last as int),
        decreases last,
    {
        last -= 1;
    }
    Some((first, last))
}

/// An opacity that is too faint to divide by: the bits of 0.0001.
pub const FAINT: u32 = 0x38d1_b717;

/// A straight-alpha colour in parts of one.
#[derive(Clone, Copy, Debug, PartialEq, Eq, Structural)]
pub struct Colour {
    pub r: Scalar,
    pub g: Scalar,
    pub b: Scalar,
    pub a: Scalar,
}

/// A source coordinate that a canvas coordinate falls on, and how far it falls
/// towards the next one.
#[derive(Clone, Copy, Debug, PartialEq, Eq, Structural)]
pub struct Tap {
    pub near: u32,
    pub weight: Scalar,
}

/// Where a layer lands on the canvas: a rectangle (`x1`, `y1` exclusive), and
/// for each of its columns and rows where that falls on the source, or that it
/// misses the source.
#[derive(Clone, Debug)]
pub struct Footprint {
    pub x0: u32,
    pub x1: u32,
    pub y0: u32,
    pub y1: u32,
    pub columns: Vec<Option<Tap>>,
    pub rows: Vec<Option<Tap>>,
    /// The layer's image reaches or passes every edge of the canvas.
    pub covers_canvas: bool,
}

pub open spec fn span(from: u32, to: u32) -> nat {
    if from <= to {
        (to - from) as nat
    } else {
        0
    }
}

impl Footprint {
    /// The rectangle lies on the canvas and everything in it on the source.
    pub open spec fn fits(self, canvas: (u32, u32), source: (u32, u32)) -> bool {
        &&& self.x1 <= canvas.0
        &&& self.y1 <= canvas.1
        &&& self.columns@.len() == span(self.x0, self.x1)
        &&& self.rows@.len() == span(self.y0, self.y1)
        &&& forall|i: int|
            0 <= i < self.columns@.len() ==> (#[trigger] self.columns@[i] matches Some(t) ==> t.near
                < source.0)
        &&& forall|i: int|
            0 <= i < self.rows@.len() ==> (#[trigger] self.rows@[i] matches Some(t) ==> t.near
                < source.1)
    }

    pub open spec fn holds(self, x: int, y: int) -> bool {
        self.x0 <= x < self.x1 && self.y0 <= y < self.y1
    }
}

/// What the colour of one canvas pixel is computed from.
#[derive(Clone, Copy, Debug, PartialEq, Eq, Structural)]
pub struct Sample {
    pub top_left: Pixel,
    pub top_right: Pixel,
    pub bottom_left: Pixel,
    pub bottom_right: Pixel,
    pub x_weight: Scalar,
    pub y_weight: Scalar,
    /// The source is a single pixel, which is then the colour everywhere.
    pub flat: bool,
    /// Nothing was drawn on the canvas before this layer.
    pub canvas_is_empty: bool,
    pub below: Pixel,
}

/// `part` is one component of a sample: that of its single pixel, or between
/// those of its four.
pub open spec fn component_of<M: LayerMath>(
    math: M,
    s: Sample,
    four: (u8, u8, u8, u8),
    part: Scalar,
) -> bool {
    if s.flat {
        byte_part(math, four.0, part)
    } else {
        bilinear_part(math, four, s.x_weight, s.y_weight, part)
    }
}

/// `c` is the colour of a sample.
pub open spec fn coloured<M: LayerMath>(math: M, s: Sample, c: Colour) -> bool {
    &&& component_of(
        math,
        s,
        (s.top_left.r, s.top_right.r, s.bottom_left.r, s.bottom_right.r),
        c.r,
    )
    &&& component_of(
        math,
        s,
        (s.top_left.g, s.top_right.g, s.bottom_left.g, s.bottom_right.g),
        c.g,
    )
    &&& component_of(
        math,
        s,
        (s.top_left.b, s.top_right.b, s.bottom_left.b, s.bottom_right.b),
        c.b,
    )
    &&& component_of(
        math,
        s,
        (s.top_left.a, s.top_right.a, s.bottom_left.a, s.bottom_right.a),
        c.a,
    )
}

/// `c` is the colour of a pixel.
pub open spec fn in_parts<M: LayerMath>(math: M, p: Pixel, c: Colour) -> bool {
    &&& byte_part(math, p.r, c.r)
    &&& byte_part(math, p.g, c.g)
    &&& byte_part(math, p.b, c.b)
    &&& byte_part(math, p.a, c.a)
}

/// `byte` is one component of a colour over another.
pub open spec fn component_over<M: LayerMath>(
    math: M,
    component: Scalar,
    alpha: Scalar,
    below: Scalar,
    below_alpha: Scalar,
    out: Scalar,
    byte: u8,
) -> bool {
    exists|x: Scalar|
        {
            &&& #[trigger] weighted_over(math, component, alpha, below, below_alpha, out, x)
            &&& quantized(math, x, byte)
        }
}

/// `p` is the colour `c` over another, together of the opacity `out`. What is
/// too faint is nothing.
pub open spec fn laid_over<M: LayerMath>(
    math: M,
    c: Colour,
    under: Colour,
    out: Scalar,
    p: Pixel,
) -> bool {
    if out.at_most(Scalar { bits: FAINT }) {
        p == (Pixel { r: 0, g: 0, b: 0, a: 0 })
    } else {
        &&& component_over(math, c.r, c.a, under.r, under.a, out, p.r)
        &&& component_over(math, c.g, c.a, under.g, under.a, out, p.g)
        &&& component_over(math, c.b, c.a, under.b, under.a, out, p.b)
        &&& quantized(math, out, p.a)
    }
}

/// `p` is the colour `c` over the pixel `below`.
pub open spec fn over_pixel<M: LayerMath>(math: M, c: Colour, below: Pixel, p: Pixel) -> bool {
    exists|under: Colour, out: Scalar|
        {
            &&& #[trigger] in_parts(math, below, under)
            &&& #[trigger] alpha_over(math, c.a, under.a, out)
            &&& laid_over(math, c, under, out, p)
        }
}

/// `out` is what becomes of the pixel below a sample of the colour `c`: nothing
/// where the colour does not show, the colour itself on an empty canvas.
pub open spec fn mixed_with<M: LayerMath>(
    math: M,
    s: Sample,
    c: Colour,
    out: Option<Pixel>,
) -> bool {
    if c.a.at_most(Scalar { bits: ZERO }) {
        out is None
    } else {
        match out {
            None => false,
            Some(p) => if s.canvas_is_empty {
                &&& quantized(math, c.r, p.r)
                &&& quantized(math, c.g, p.g)
                &&& quantized(math, c.b, p.b)
                &&& quantized(math, c.a, p.a)
            } else {
                over_pixel(math, c, s.below, p)
            },
        }
    }
}

pub open spec fn mixed<M: LayerMath>(math: M, s: Sample, out: Option<Pixel>) -> bool {
    exists|c: Colour| #[trigger] coloured(math, s, c) && mixed_with(math, s, c, out)
}

fn component<M: LayerMath>(s: &Sample, four: (u8, u8, u8, u8), math: &M) -> (part: Scalar)
    ensures
        component_of(*math, *s, four, part),
{
    if s.flat {
        part_of(four.0, math)
    } else {
        bilinear(four, s.x_weight, s.y_weight, math)
    }
}

fn component_byte<M: LayerMath>(
    component: Scalar,
    alpha: Scalar,
    below: Scalar,
    below_alpha: Scalar,
    out: Scalar,
    math: &M,
) -> (byte: u8)
    ensures
        component_over(*math, component, alpha, below, below_alpha, out, byte),
{
    let x: Scalar = over(component, alpha, below, below_alpha, out, math);
    quantize(x, math)
}

/// What becomes of the pixel below a sample, if anything does.
pub fn blend_pixel<M: LayerMath>(s: &Sample, math: &M) -> (out: Option<Pixel>)
    ensures
        mixed(*math, *s, out),
{
    let c = Colour {
        r: component(
            s,
            (s.top_left.r, s.top_right.r, s.bottom_left.r, s.bottom_right.r),
            math,
        ),
        g: component(
            s,
            (s.top_left.g, s.top_right.g, s.bottom_left.g, s.bottom_right.g),
            math,
        ),
        b: component(
            s,
            (s.top_left.b, s.top_right.b, s.bottom_left.b, s.bottom_right.b),
            math,
        ),
        a: component(
            s,
            (s.top_left.a, s.top_right.a, s.bottom_left.a, s.bottom_right.a),
            math,
        ),
    };
    assert(coloured(*math, *s, c));
    if c.a.le(Scalar { bits: ZERO }) {
        return None;
    }
    if s.canvas_is_empty {
        let p = Pixel {
            r: quantize(c.r, math),
            g: quantize(c.g, math),
            b: quantize(c.b, math),
            a: quantize(c.a, math),
        };
        return Some(p);
    }
    let under = Colour {
        r: part_of(s.below.r, math),
        g: part_of(s.below.g, math),
        b: part_of(s.below.b, math),
        a: part_of(s.below.a, math),
    };
    let out: Scalar = over_alpha(c.a, under.a, math);
    let p: Pixel = if out.le(Scalar { bits: FAINT }) {
        Pixel { r: 0, g: 0, b: 0, a: 0 }
    } else {
        Pixel {
            r: component_byte(c.r, c.a, under.r, under.a, out, math),
            g: component_byte(c.g, c.a, under.g, under.a, out, math),
            b: component_byte(c.b, c.a, under.b, under.a, out, math),
            a: quantize(out, math),
        }
    };
    assert(over_pixel(*math, c, s.below, p)) by {
        assert(in_parts(*math, s.below, under));
    }
    Some(p)
}

/// The neighbour of a source coordinate, or the coordinate itself at the edge.
pub open spec fn next_within(near: int, size: int) -> int {
    if near + 1 <= size - 1 {
        near + 1
    } else {
        size - 1
    }
}

/// What the canvas pixel at `x`, `y` is computed from, if the layer reaches it.
pub open spec fn sample_at(
    source: OverlayFrame,
    footprint: Footprint,
    below: Pixel,
    canvas_is_empty: bool,
    x: int,
    y: int,
) -> Option<Sample> {
    if !footprint.holds(x, y) {
        None
    } else {
        match (
            footprint.columns@[x - footprint.x0 as int],
            footprint.rows@[y - footprint.y0 as int],
        ) {
            (Some(column), Some(row)) => {
                let w = source.width as int;
                let right = next_within(column.near as int, w);
                let bottom = next_within(row.near as int, source.height as int);
                Some(
                    Sample {
                        top_left: pixel(source.rgba@, row.near * w + column.near),
                        top_right: pixel(source.rgba@, row.near * w + right),
                        bottom_left: pixel(source.rgba@, bottom * w + column.near),
                        bottom_right: pixel(source.rgba@, bottom * w + right),
                        x_weight: column.weight,
                        y_weight: row.weight,
                        flat: source.width == 1 && source.height == 1,
                        canvas_is_empty,
                        below,
                    },
                )
            },
            _ => None,
        }
    }
}

/// A single pixel that covers a canvas on which nothing was drawn: the
/// rectangle takes its colour as it is.
pub open spec fn fills(source: OverlayFrame, footprint: Footprint, canvas_is_empty: bool) -> bool {
    &&& source.width == 1
    &&& source.height == 1
    &&& canvas_is_empty
    &&& footprint.covers_canvas
}

/// `result` is what becomes of the pixel below a sample.
pub open spec fn blended_to<M: LayerMath>(
    math: M,
    sample: Sample,
    result: Pixel,
) -> bool {
    exists|out: Option<Pixel>|
        #[trigger] mixed(math, sample, out) && result == match out {
            Some(p) => p,
            None => sample.below,
        }
}

/// What becomes of the q-th pixel of a canvas of width `width`.
pub open spec fn pixel_drawn<M: LayerMath>(
    math: M,
    source: OverlayFrame,
    footprint: Footprint,
    canvas_is_empty: bool,
    width: int,
    before: Seq<u8>,
    after: Seq<u8>,
    q: int,
) -> bool {
    let x = q % width;
    let y = q / width;
    let below = pixel(before, q);
    if fills(source, footprint, canvas_is_empty) {
        pixel(after, q) == if footprint.holds(x, y) {
            pixel(source.rgba@, 0)
        } else {
            below
        }
    } else {
        match sample_at(source, footprint, below, canvas_is_empty, x, y) {
            None => pixel(after, q) == below,
            Some(sample) => blended_to(math, sample, pixel(after, q)),
        }
    }
}

/// `after` is `before` with the layer drawn over it: every pixel that the layer
/// reaches is mixed with it, every other pixel is as it was.
pub open spec fn drawn<M: LayerMath>(
    math: M,
    source: OverlayFrame,
    footprint: Footprint,
    canvas_is_empty: bool,
    size: (u32, u32),
    before: Seq<u8>,
    after: Seq<u8>,
) -> bool {
    &&& after.len() == before.len()
    &&& forall|q: int|
        0 <= q < size.0 * size.1 ==> #[trigger] pixel_drawn(
            math,
            source,
            footprint,
            canvas_is_empty,
            size.0 as int,
            before,
            after,
            q,
        )
}

/// The last of the four pixels that a colour is computed from.
pub open spec fn furthest(source: OverlayFrame, column: Tap, row: Tap) -> int {
    next_within(row.near as int, source.height as int) * source.width + next_within(
        column.near as int,
        source.width as int,
    )
}

/// The image holds every pixel that drawing it there reads.
pub open spec fn reads_within(source: OverlayFrame, footprint: Footprint) -> bool {
    &&& source.width == 1 && source.height == 1 ==> holds_pixel(source, 0)
    &&& forall|i: int, j: int|
        0 <= i < footprint.columns@.len() && 0 <= j < footprint.rows@.len() ==> #[trigger]
            tap_read(source, footprint.columns@[i], footprint.rows@[j])
}

pub open spec fn tap_read(source: OverlayFrame, column: Option<Tap>, row: Option<Tap>) -> bool {
    match (column, row) {
        (Some(c), Some(r)) => holds_pixel(source, furthest(source, c, r)),
        _ => true,
    }
}

proof fn whole_image_is_read_within(source: OverlayFrame, footprint: Footprint, canvas: (u32, u32))
    requires
        shaped(source),
        footprint.fits(canvas, (source.width, source.height)),
    ensures
        reads_within(source, footprint),
{
    assert forall|i: int, j: int|
        0 <= i < footprint.columns@.len() && 0 <= j < footprint.rows@.len() implies #[trigger]
        tap_read(source, footprint.columns@[i], footprint.rows@[j]) by {
        match (footprint.columns@[i], footprint.rows@[j]) {
            (Some(c), Some(r)) => {
                row_lies_within(source, next_within(r.near as int, source.height as int));
            },
            _ => {},
        }
    }
}

/// Whether the image holds every pixel that drawing it there reads.
fn holds_what_is_read(source: &OverlayFrame, footprint: &Footprint, Ghost(canvas): Ghost<
    (u32, u32),
>) -> (r: bool)
    requires
        footprint.fits(canvas, (source.width, source.height)),
    ensures
        r == reads_within(*source, *footprint),
{
    let room: u64 = source.rgba.len() as u64;
    if source.width == 1 && source.height == 1 && room < 4 {
        return false;
    }
    let w: u64 = source.width as u64;
    let mut j: usize = 0;
    while j < footprint.rows.len()
        invariant
            footprint.fits(canvas, (source.width, source.height)),
            room == source.rgba@.len(),
            w == source.width,
            j <= footprint.rows@.len(),
            forall|i: int, k: int|
                0 <= i < footprint.columns@.len() && 0 <= k < j ==> #[trigger] tap_read(
                    *source,
                    footprint.columns@[i],
                    footprint.rows@[k],
                ),
        decreases footprint.rows@.len() - j,
    {
        let mut i: usize = 0;
        while i < footprint.columns.len()
            invariant
                footprint.fits(canvas, (source.width, source.height)),
                room == source.rgba@.len(),
                w == source.width,
                j < footprint.rows@.len(),
                i <= footprint.columns@.len(),
                forall|k: int|
                    0 <= k < i ==> #[trigger] tap_read(
                        *source,
                        footprint.columns@[k],
                        footprint.rows@[j as int],
                    ),
            decreases footprint.columns@.len() - i,
        {
            match (footprint.columns[i], footprint.rows[j]) {
                (Some(c), Some(r)) => {
                    let right: u32 = if c.near < source.width - 1 {
                        c.near + 1
                    } else {
                        source.width - 1
                    };
                    let bottom: u32 = if r.near < source.height - 1 {
                        r.near + 1
                    } else {
                        source.height - 1
                    };
                    assert(0 <= bottom * w <= 0xffff_fffe * 0xffff_ffff) by (nonlinear_arith)
                        requires
                            0 <= bottom <= 0xffff_fffe,
                            0 <= w <= 0xffff_ffff,
                    ;
                    let q: u64 = bottom as u64 * w + right as u64;
                    assert(q == furthest(*source, c, r));
                    if q > u32::MAX as u64 || q * 4 + 3 >= room {
                        assert(!tap_read(
                            *source,
                            footprint.columns@[i as int],
                            footprint.rows@[j as int],
                        ));
                        return false;
                    }
                },
                _ => {},
            }
            i += 1;
        }
        j += 1;
    }
    true
}

fn read_pixel(rgba: &Vec<u8>, q: u32) -> (p: Pixel)
    requires
        4 * q + 3 < rgba@.len(),
    ensures
        p == pixel(rgba@, q as int),
{
    let room: usize = rgba.len();
    let at: usize = q as usize * 4;
    Pixel { r: rgba[at], g: rgba[at + 1], b: rgba[at + 2], a: rgba[at + 3] }
}

fn write_pixel(rgba: &mut Vec<u8>, q: u32, p: Pixel)
    requires
        4 * q + 3 < old(rgba)@.len(),
    ensures
        final(rgba)@.len() == old(rgba)@.len(),
        pixel(final(rgba)@, q as int) == p,
        forall|k: int|
            k != q && 0 <= k && 4 * k + 3 < old(rgba)@.len() ==> #[trigger] pixel(final(rgba)@, k)
                == pixel(old(rgba)@, k),
{
    let room: usize = rgba.len();
    let at: usize = q as usize * 4;
    rgba[at] = p.r;
    rgba[at + 1] = p.g;
    rgba[at + 2] = p.b;
    rgba[at + 3] = p.a;
}

fn sample_source(
    source: &OverlayFrame,
    column: Tap,
    row: Tap,
    canvas_is_empty: bool,
    below: Pixel,
) -> (s: Sample)
    requires
        column.near < source.width,
        row.near < source.height,
        holds_pixel(*source, furthest(*source, column, row)),
    ensures
        ({
            let w = source.width as int;
            let right = next_within(column.near as int, w);
            let bottom = next_within(row.near as int, source.height as int);
            s == Sample {
                top_left: pixel(source.rgba@, row.near * w + column.near),
                top_right: pixel(source.rgba@, row.near * w + right),
                bottom_left: pixel(source.rgba@, bottom * w + column.near),
                bottom_right: pixel(source.rgba@, bottom * w + right),
                x_weight: column.weight,
                y_weight: row.weight,
                flat: source.width == 1 && source.height == 1,
                canvas_is_empty,
                below,
            }
        }),
{
    let w: u32 = source.width;
    let right: u32 = if column.near < w - 1 {
        column.near + 1
    } else {
        w - 1
    };
    let bottom: u32 = if row.near < source.height - 1 {
        row.near + 1
    } else {
        source.height - 1
    };
    assert(0 <= row.near * w <= bottom * w) by (nonlinear_arith)
        requires
            0 <= row.near <= bottom,
            w >= 0,
    ;
    Sample {
        top_left: read_pixel(&source.rgba, row.near * w + column.near),
        top_right: read_pixel(&source.rgba, row.near * w + right),
        bottom_left: read_pixel(&source.rgba, bottom * w + column.near),
        bottom_right: read_pixel(&source.rgba, bottom * w + right),
        x_weight: column.weight,
        y_weight: row.weight,
        flat: source.width == 1 && source.height == 1,
        canvas_is_empty,
        below,
    }
}

/// The q-th pixel comes before `x`, `y` in reading order.
spec fn reached(q: int, width: int, x: int, y: int) -> bool {
    q / width < y || (q / width == y && q % width < x)
}

/// The q-th pixel is drawn, or it is still to come and untouched.
spec fn drawn_up_to<M: LayerMath>(
    math: M,
    source: OverlayFrame,
    footprint: Footprint,
    canvas_is_empty: bool,
    width: int,
    before: Seq<u8>,
    after: Seq<u8>,
    q: int,
    x: int,
    y: int,
) -> bool {
    if reached(q, width, x, y) {
        pixel_drawn(math, source, footprint, canvas_is_empty, width, before, after, q)
    } else {
        pixel(after, q) == pixel(before, q)
    }
}

/// Draws a layer on the canvas.
pub fn blend_footprint<M: LayerMath>(
    canvas: &mut OverlayFrame,
    source: &OverlayFrame,
    footprint: &Footprint,
    canvas_is_empty: bool,
    math: &M,
)
    requires
        canvas_shaped(*old(canvas)),
        reads_within(*source, *footprint),
        footprint.fits((old(canvas).width, old(canvas).height), (source.width, source.height)),
    ensures
        final(canvas).width == old(canvas).width,
        final(canvas).height == old(canvas).height,
        final(canvas).design_size == old(canvas).design_size,
        drawn(
            *math,
            *source,
            *footprint,
            canvas_is_empty,
            (old(canvas).width, old(canvas).height),
            old(canvas).rgba@,
            final(canvas).rgba@,
        ),
{
    let ghost before = canvas.rgba@;
    let room: usize = canvas.rgba.len();
    let w: u32 = canvas.width;
    let h: u32 = canvas.height;
    let fill: bool = source.width == 1 && source.height == 1 && canvas_is_empty
        && footprint.covers_canvas;
    if footprint.x0 >= footprint.x1 || footprint.y0 >= footprint.y1 {
        return;
    }
    let mut y: u32 = footprint.y0;
    while y < footprint.y1
        invariant
            footprint.x0 < footprint.x1,
            footprint.y0 <= y <= footprint.y1,
            footprint.fits((w, h), (source.width, source.height)),
            fill == fills(*source, *footprint, canvas_is_empty),
            reads_within(*source, *footprint),
            canvas.width == w,
            canvas.height == h,
            canvas.design_size == old(canvas).design_size,
            w > 0,
            w * h <= u32::MAX,
            room == w * h * 4,
            before.len() == room,
            canvas.rgba@.len() == room,
            forall|q: int|
                0 <= q < w * h ==> #[trigger] drawn_up_to(
                    *math,
                    *source,
                    *footprint,
                    canvas_is_empty,
                    w as int,
                    before,
                    canvas.rgba@,
                    q,
                    footprint.x0 as int,
                    y as int,
                ),
        decreases footprint.y1 - y,
    {
        assert(y * w + w <= w * h && 0 <= y * w) by (nonlinear_arith)
            requires
                y + 1 <= h,
                w >= 0,
                y >= 0,
        ;
        let row: Option<Tap> = footprint.rows[(y - footprint.y0) as usize];
        let mut x: u32 = footprint.x0;
        while x < footprint.x1
            invariant
                footprint.x0 <= x <= footprint.x1,
                footprint.y0 <= y < footprint.y1,
                footprint.fits((w, h), (source.width, source.height)),
                fill == fills(*source, *footprint, canvas_is_empty),
                reads_within(*source, *footprint),
                row == footprint.rows@[y - footprint.y0],
                canvas.width == w,
                canvas.height == h,
                canvas.design_size == old(canvas).design_size,
                w > 0,
                w * h <= u32::MAX,
                room == w * h * 4,
                y * w + w <= w * h,
                0 <= y * w,
                before.len() == room,
                canvas.rgba@.len() == room,
                forall|q: int|
                    0 <= q < w * h ==> #[trigger] drawn_up_to(
                        *math,
                        *source,
                        *footprint,
                        canvas_is_empty,
                        w as int,
                        before,
                        canvas.rgba@,
                        q,
                        x as int,
                        y as int,
                    ),
            decreases footprint.x1 - x,
        {
            let at: u32 = y * w + x;
            let ghost here = canvas.rgba@;
            proof {
                lemma_fundamental_div_mod_converse(at as int, w as int, y as int, x as int);
                assert(drawn_up_to(
                    *math,
                    *source,
                    *footprint,
                    canvas_is_empty,
                    w as int,
                    before,
                    here,
                    at as int,
                    x as int,
                    y as int,
                ));
            }
            if fill {
                write_pixel(&mut canvas.rgba, at, read_pixel(&source.rgba, 0));
            } else {
                match (footprint.columns[(x - footprint.x0) as usize], row) {
                    (Some(column), Some(row_tap)) => {
                        assert(tap_read(
                            *source,
                            footprint.columns@[x - footprint.x0],
                            footprint.rows@[y - footprint.y0],
                        ));
                        let below: Pixel = read_pixel(&canvas.rgba, at);
                        let sample: Sample = sample_source(
                            source,
                            column,
                            row_tap,
                            canvas_is_empty,
                            below,
                        );
                        match blend_pixel(&sample, math) {
                            Some(p) => {
                                write_pixel(&mut canvas.rgba, at, p);
                            },
                            None => {},
                        }
                    },
                    _ => {},
                }
            }
            assert forall|q: int| 0 <= q < w * h implies #[trigger] drawn_up_to(
                *math,
                *source,
                *footprint,
                canvas_is_empty,
                w as int,
                before,
                canvas.rgba@,
                q,
                x + 1,
                y as int,
            ) by {
                if q != at {
                    assert(drawn_up_to(
                        *math,
                        *source,
                        *footprint,
                        canvas_is_empty,
                        w as int,
                        before,
                        here,
                        q,
                        x as int,
                        y as int,
                    ));
                    lemma_fundamental_div_mod(q, w as int);
                    assert(w * y == y * w) by (nonlinear_arith);
                }
            }
            x += 1;
        }
        assert forall|q: int| 0 <= q < w * h implies #[trigger] drawn_up_to(
            *math,
            *source,
            *footprint,
            canvas_is_empty,
            w as int,
            before,
            canvas.rgba@,
            q,
            footprint.x0 as int,
            y + 1,
        ) by {
            assert(drawn_up_to(
                *math,
                *source,
                *footprint,
                canvas_is_empty,
                w as int,
                before,
                canvas.rgba@,
                q,
                x as int,
                y as int,
            ));
        }
        y += 1;
    }
    assert forall|q: int| 0 <= q < w * h implies #[trigger] pixel_drawn(
        *math,
        *source,
        *footprint,
        canvas_is_empty,
        w as int,
        before,
        canvas.rgba@,
        q,
    ) by {
        assert(drawn_up_to(
            *math,
            *source,
            *footprint,
            canvas_is_empty,
            w as int,
            before,
            canvas.rgba@,
            q,
            footprint.x0 as int,
            y as int,
        ));
    }
}

/// What has to be known to say where a layer lands.
#[derive(Clone, Copy, Debug, PartialEq, Eq)]
pub struct PlaceRequest {
    pub design_size: (u32, u32),
    pub source_size: (u32, u32),
    pub output_size: (u32, u32),
    pub placement: OverlayPlacement,
    /// The first and the last source row that show something.
    pub visible_rows: (u32, u32),
}

pub open spec fn place_request(
    source: OverlayFrame,
    placement: OverlayPlacement,
    size: (u32, u32),
    rows: (u32, u32),
) -> PlaceRequest {
    PlaceRequest {
        design_size: source.design_size,
        source_size: (source.width, source.height),
        output_size: size,
        placement,
        visible_rows: rows,
    }
}

/// Where an image lands on the canvas, as numbers: its corner and its size there,
/// its opposite corner, and the size of the canvas.
#[derive(Clone, Copy, Debug, PartialEq, Eq)]
pub struct Placed {
    pub origin: (Scalar, Scalar),
    pub fitted: (Scalar, Scalar),
    pub end: (Scalar, Scalar),
    pub canvas: (Scalar, Scalar),
}

/// Along one side of the canvas, an image is `fitted` long, which is the length of
/// its design times the scale. Its middle is that of the canvas, shifted by a part
/// of the canvas, and it goes from `origin` to `end`.
pub open spec fn side_placed<M: LayerMath>(
    math: M,
    design: u32,
    output: u32,
    scale: Scalar,
    offset: Scalar,
    canvas: Scalar,
    fitted: Scalar,
    origin: Scalar,
    end: Scalar,
) -> bool {
    let half = Scalar { bits: HALF };
    &&& call_ensures(M::whole, (&math, output as u64), canvas)
    &&& call_ensures(M::sum, (&math, origin, fitted), end)
    &&& exists|
        length: Scalar,
        centre: Scalar,
        shift: Scalar,
        middle: Scalar,
        half_fitted: Scalar,
    |
        {
            &&& #[trigger] call_ensures(M::whole, (&math, design as u64), length)
            &&& call_ensures(M::product, (&math, length, scale), fitted)
            &&& #[trigger] call_ensures(M::product, (&math, canvas, half), centre)
            &&& #[trigger] call_ensures(M::product, (&math, offset, canvas), shift)
            &&& #[trigger] call_ensures(M::sum, (&math, centre, shift), middle)
            &&& #[trigger] call_ensures(M::product, (&math, fitted, half), half_fitted)
            &&& call_ensures(M::difference, (&math, middle, half_fitted), origin)
        }
}

/// An image of this design lands at `placed`: it keeps its proportions, fits into
/// the canvas but for the scale of its placement, and has its middle at that of
/// the canvas but for the placement's offset.
pub open spec fn placed_at<M: LayerMath>(
    math: M,
    design_size: (u32, u32),
    output_size: (u32, u32),
    placement: OverlayPlacement,
    placed: Placed,
) -> bool {
    exists|scale: Scalar|
        {
            &&& #[trigger] contained(math, design_size, output_size, placement, scale)
            &&& side_placed(
                math,
                design_size.0,
                output_size.0,
                scale,
                placement.offset.0,
                placed.canvas.0,
                placed.fitted.0,
                placed.origin.0,
                placed.end.0,
            )
            &&& side_placed(
                math,
                design_size.1,
                output_size.1,
                scale,
                placement.offset.1,
                placed.canvas.1,
                placed.fitted.1,
                placed.origin.1,
                placed.end.1,
            )
        }
}

/// The smaller of a whole number and a limit is `at`.
pub open spec fn capped<M: LayerMath>(math: M, x: Scalar, limit: u32, at: u32) -> bool {
    exists|n: u32|
        #[trigger] call_ensures(M::ceil, (&math, x), n) && at == if n < limit {
            n
        } else {
            limit
        }
}

/// The row of an image above one; the first has none.
pub open spec fn row_above(row: u32) -> u32 {
    if row == 0 {
        0
    } else {
        (row - 1) as u32
    }
}

/// `y0` is the first row of the canvas that shows something of an image. An
/// image's row reaches into the one above.
pub open spec fn first_row<M: LayerMath>(
    math: M,
    placed: Placed,
    r: PlaceRequest,
    y0: u32,
) -> bool {
    let zero = Scalar { bits: ZERO };
    exists|edge: Scalar, a: u32, b: u32|
        {
            &&& edge_of_row(
                math,
                placed.origin.1,
                placed.fitted.1,
                row_above(r.visible_rows.0) as u64,
                r.source_size.1,
                edge,
            )
            &&& #[trigger] call_ensures(M::floor, (&math, placed.origin.1.spec_max(zero)), a)
            &&& #[trigger] call_ensures(M::floor, (&math, edge.spec_max(zero)), b)
            &&& y0 == if a < b {
                b
            } else {
                a
            }
        }
}

/// `y1` is the row of the canvas after the last that shows something of an
/// image. An image's row reaches into the one below.
pub open spec fn past_row<M: LayerMath>(
    math: M,
    placed: Placed,
    r: PlaceRequest,
    y1: u32,
) -> bool {
    exists|edge: Scalar, a: u32, b: u32|
        {
            &&& edge_of_row(
                math,
                placed.origin.1,
                placed.fitted.1,
                (r.visible_rows.1 + 2) as u64,
                r.source_size.1,
                edge,
            )
            &&& #[trigger] capped(
                math,
                placed.end.1.spec_min(placed.canvas.1),
                r.output_size.1,
                a,
            )
            &&& #[trigger] capped(math, edge.spec_max(Scalar { bits: ZERO }), r.output_size.1, b)
            &&& y1 == if b < a {
                b
            } else {
                a
            }
        }
}

/// A place on an image, held between its first and its last pixel.
pub open spec fn held_place(raw: Scalar, last: Scalar) -> Scalar {
    raw.spec_max(Scalar { bits: ZERO }).spec_min(last)
}

/// `t` is where a part of an image's side falls on its pixels.
pub open spec fn tap_at<M: LayerMath>(math: M, part: Scalar, size: u32, t: Tap) -> bool {
    exists|raw: Scalar, last: Scalar, n: u32|
        {
            &&& #[trigger] pixels_along(math, part, size, raw)
            &&& #[trigger] call_ensures(M::whole, (&math, (size - 1) as u64), last)
            &&& #[trigger] call_ensures(M::floor, (&math, held_place(raw, last)), n)
            &&& t.near == if n < size {
                n as int
            } else {
                size - 1
            }
            &&& past_pixel(math, held_place(raw, last), t.near, t.weight)
        }
}

/// `tap` is where a pixel of the canvas falls on an image, if it does.
pub open spec fn tapped<M: LayerMath>(
    math: M,
    at: u32,
    origin: Scalar,
    fitted: Scalar,
    size: u32,
    tap: Option<Tap>,
) -> bool {
    exists|part: Scalar|
        {
            &&& #[trigger] part_across(math, at, origin, fitted, part)
            &&& tap_of_part(math, part, size, tap)
        }
}

pub open spec fn tap_of_part<M: LayerMath>(
    math: M,
    part: Scalar,
    size: u32,
    tap: Option<Tap>,
) -> bool {
    if (Scalar { bits: ZERO }).at_most(part) && part.at_most(Scalar { bits: ONE }) {
        tap matches Some(t) && tap_at(math, part, size, t)
    } else {
        tap is None
    }
}

/// An image that lands at `placed` reaches or passes every edge of the canvas.
pub open spec fn covers(placed: Placed) -> bool {
    let zero = Scalar { bits: ZERO };
    &&& placed.origin.0.at_most(zero)
    &&& placed.origin.1.at_most(zero)
    &&& placed.canvas.0.at_most(placed.end.0)
    &&& placed.canvas.1.at_most(placed.end.1)
}

/// `f` is the footprint of an image that lands at `placed`.
pub open spec fn footprint_at<M: LayerMath>(
    math: M,
    placed: Placed,
    r: PlaceRequest,
    f: Footprint,
) -> bool {
    let zero = Scalar { bits: ZERO };
    &&& call_ensures(M::floor, (&math, placed.origin.0.spec_max(zero)), f.x0)
    &&& capped(math, placed.end.0.spec_min(placed.canvas.0), r.output_size.0, f.x1)
    &&& first_row(math, placed, r, f.y0)
    &&& past_row(math, placed, r, f.y1)
    &&& f.columns@.len() == span(f.x0, f.x1)
    &&& forall|i: int|
        0 <= i < f.columns@.len() ==> tapped(
            math,
            (f.x0 + i) as u32,
            placed.origin.0,
            placed.fitted.0,
            r.source_size.0,
            #[trigger] f.columns@[i],
        )
    &&& f.rows@.len() == span(f.y0, f.y1)
    &&& forall|i: int|
        0 <= i < f.rows@.len() ==> tapped(
            math,
            (f.y0 + i) as u32,
            placed.origin.1,
            placed.fitted.1,
            r.source_size.1,
            #[trigger] f.rows@[i],
        )
    &&& f.covers_canvas <==> covers(placed)
}

/// An image that lands at `placed` has extent there.
pub open spec fn has_extent(placed: Placed) -> bool {
    let zero = Scalar { bits: ZERO };
    !placed.fitted.0.at_most(zero) && !placed.fitted.1.at_most(zero)
}

/// An image of this design may be placed so that it has extent, if `extent`, or
/// so that it has none.
pub open spec fn placed_with<M: LayerMath>(
    math: M,
    design_size: (u32, u32),
    output_size: (u32, u32),
    placement: OverlayPlacement,
    extent: bool,
) -> bool {
    exists|placed: Placed|
        {
            &&& #[trigger] placed_at(math, design_size, output_size, placement, placed)
            &&& has_extent(placed) == extent
        }
}

/// An image of this design lands nowhere: its design has no extent, or it has
/// none on the canvas.
pub open spec fn lands_nowhere<M: LayerMath>(
    math: M,
    design_size: (u32, u32),
    output_size: (u32, u32),
    placement: OverlayPlacement,
) -> bool {
    design_size.0 == 0 || design_size.1 == 0 || placed_with(
        math,
        design_size,
        output_size,
        placement,
        false,
    )
}

/// An image of this design lands somewhere.
pub open spec fn lands_somewhere<M: LayerMath>(
    math: M,
    design_size: (u32, u32),
    output_size: (u32, u32),
    placement: OverlayPlacement,
) -> bool {
    &&& design_size.0 != 0
    &&& design_size.1 != 0
    &&& placed_with(math, design_size, output_size, placement, true)
}

pub open spec fn placed_somewhere<M: LayerMath>(math: M, r: PlaceRequest, f: Footprint) -> bool {
    exists|placed: Placed|
        {
            &&& #[trigger] placed_at(math, r.design_size, r.output_size, r.placement, placed)
            &&& has_extent(placed)
            &&& footprint_at(math, placed, r, f)
        }
}

/// `f` is where an image lands, if it does.
pub open spec fn footprint_of<M: LayerMath>(
    math: M,
    r: PlaceRequest,
    f: Option<Footprint>,
) -> bool {
    match f {
        None => lands_nowhere(math, r.design_size, r.output_size, r.placement),
        Some(x) => r.design_size.0 != 0 && r.design_size.1 != 0 && placed_somewhere(math, r, x),
    }
}

fn cap<M: LayerMath>(x: Scalar, limit: u32, math: &M) -> (at: u32)
    ensures
        at <= limit,
        capped(*math, x, limit, at),
{
    let n: u32 = math.ceil(x);
    if n < limit {
        n
    } else {
        limit
    }
}

fn tap<M: LayerMath>(at: u32, origin: Scalar, fitted: Scalar, size: u32, math: &M) -> (t: Option<
    Tap,
>)
    requires
        size > 0,
    ensures
        tapped(*math, at, origin, fitted, size, t),
        t matches Some(x) ==> x.near < size,
{
    let part: Scalar = across(at, origin, fitted, math);
    if !(Scalar { bits: ZERO }).le(part) || !part.le(Scalar { bits: ONE }) {
        return None;
    }
    let raw: Scalar = on_source(part, size, math);
    let last: Scalar = math.whole((size - 1) as u64);
    let at_source: Scalar = raw.max(Scalar { bits: ZERO }).min(last);
    let n: u32 = math.floor(at_source);
    let near: u32 = if n < size {
        n
    } else {
        size - 1
    };
    let t = Tap { near, weight: beyond(at_source, near, math) };
    assert(tap_at(*math, part, size, t)) by {
        assert(call_ensures(M::floor, (math, held_place(raw, last)), n));
    }
    Some(t)
}

fn taps<M: LayerMath>(
    from: u32,
    to: u32,
    origin: Scalar,
    fitted: Scalar,
    size: u32,
    math: &M,
) -> (ts: Vec<Option<Tap>>)
    requires
        size > 0,
    ensures
        ts@.len() == span(from, to),
        forall|i: int|
            0 <= i < ts@.len() ==> tapped(
                *math,
                (from + i) as u32,
                origin,
                fitted,
                size,
                #[trigger] ts@[i],
            ),
        forall|i: int|
            0 <= i < ts@.len() ==> (#[trigger] ts@[i] matches Some(t) ==> t.near < size),
{
    let mut ts: Vec<Option<Tap>> = Vec::new();
    let mut at: u32 = from;
    while at < to
        invariant
            size > 0,
            from <= at,
            at <= to || at == from,
            ts@.len() == at - from,
            forall|i: int|
                0 <= i < ts@.len() ==> tapped(
                    *math,
                    (from + i) as u32,
                    origin,
                    fitted,
                    size,
                    #[trigger] ts@[i],
                ),
            forall|i: int|
                0 <= i < ts@.len() ==> (#[trigger] ts@[i] matches Some(t) ==> t.near < size),
        decreases to - at,
    {
        ts.push(tap(at, origin, fitted, size, math));
        at += 1;
    }
    ts
}

/// Where one side of an image lands: the length of the canvas there, its own
/// length, where it starts and where it ends.
fn place_side<M: LayerMath>(
    design: u32,
    output: u32,
    scale: Scalar,
    offset: Scalar,
    math: &M,
) -> (side: (Scalar, Scalar, Scalar, Scalar))
    ensures
        side_placed(*math, design, output, scale, offset, side.0, side.1, side.2, side.3),
{
    let half = Scalar { bits: HALF };
    let length: Scalar = math.whole(design as u64);
    let canvas: Scalar = math.whole(output as u64);
    let fitted: Scalar = math.product(length, scale);
    let centre: Scalar = math.product(canvas, half);
    let shift: Scalar = math.product(offset, canvas);
    let middle: Scalar = math.sum(centre, shift);
    let half_fitted: Scalar = math.product(fitted, half);
    let origin: Scalar = math.difference(middle, half_fitted);
    let end: Scalar = math.sum(origin, fitted);
    (canvas, fitted, origin, end)
}

/// Where an image of this design lands.
pub fn place<M: LayerMath>(
    design_size: (u32, u32),
    output_size: (u32, u32),
    placement: OverlayPlacement,
    math: &M,
) -> (placed: Placed)
    requires
        design_size.0 != 0,
        design_size.1 != 0,
    ensures
        placed_at(*math, design_size, output_size, placement, placed),
{
    let scale: Scalar = contain_fit_render_scale(design_size, output_size, placement, math);
    let (canvas_w, fitted_w, left, right): (Scalar, Scalar, Scalar, Scalar) = place_side(
        design_size.0,
        output_size.0,
        scale,
        placement.offset.0,
        math,
    );
    let (canvas_h, fitted_h, top, bottom): (Scalar, Scalar, Scalar, Scalar) = place_side(
        design_size.1,
        output_size.1,
        scale,
        placement.offset.1,
        math,
    );
    Placed {
        origin: (left, top),
        fitted: (fitted_w, fitted_h),
        end: (right, bottom),
        canvas: (canvas_w, canvas_h),
    }
}

/// Where an image of this design lands, if it does.
pub fn extent<M: LayerMath>(
    design_size: (u32, u32),
    output_size: (u32, u32),
    placement: OverlayPlacement,
    math: &M,
) -> (placed: Option<Placed>)
    ensures
        match placed {
            None => lands_nowhere(*math, design_size, output_size, placement),
            Some(p) => {
                &&& design_size.0 != 0
                &&& design_size.1 != 0
                &&& placed_at(*math, design_size, output_size, placement, p)
                &&& has_extent(p)
            },
        },
{
    let zero = Scalar { bits: ZERO };
    if design_size.0 == 0 || design_size.1 == 0 {
        return None;
    }
    let placed: Placed = place(design_size, output_size, placement, math);
    if placed.fitted.0.le(zero) || placed.fitted.1.le(zero) {
        return None;
    }
    Some(placed)
}

/// The footprint of an image that lands at `placed`.
fn footprint_from<M: LayerMath>(placed: Placed, r: &PlaceRequest, math: &M) -> (f: Footprint)
    requires
        r.source_size.0 > 0,
        r.source_size.1 > 0,
    ensures
        footprint_at(*math, placed, *r, f),
        f.fits(r.output_size, r.source_size),
{
    let zero = Scalar { bits: ZERO };
    let x0: u32 = math.floor(placed.origin.0.max(zero));
    let x1: u32 = cap(placed.end.0.min(placed.canvas.0), r.output_size.0, math);
    let top: u32 = math.floor(placed.origin.1.max(zero));
    let above: u32 = r.visible_rows.0.saturating_sub(1);
    let first: Scalar = row_edge(
        placed.origin.1,
        placed.fitted.1,
        above as u64,
        r.source_size.1,
        math,
    );
    let shown_top: u32 = math.floor(first.max(zero));
    let y0: u32 = top.max(shown_top);
    assert(first_row(*math, placed, *r, y0));
    let bottom: u32 = cap(placed.end.1.min(placed.canvas.1), r.output_size.1, math);
    let past: Scalar = row_edge(
        placed.origin.1,
        placed.fitted.1,
        r.visible_rows.1 as u64 + 2,
        r.source_size.1,
        math,
    );
    let shown_bottom: u32 = cap(past.max(zero), r.output_size.1, math);
    let y1: u32 = bottom.min(shown_bottom);
    assert(past_row(*math, placed, *r, y1));
    Footprint {
        x0,
        x1,
        y0,
        y1,
        columns: taps(x0, x1, placed.origin.0, placed.fitted.0, r.source_size.0, math),
        rows: taps(y0, y1, placed.origin.1, placed.fitted.1, r.source_size.1, math),
        covers_canvas: placed.origin.0.le(zero) && placed.origin.1.le(zero) && placed.canvas.0.le(
            placed.end.0,
        ) && placed.canvas.1.le(placed.end.1),
    }
}

/// Where an image lands on the canvas.
pub fn footprint<M: LayerMath>(r: &PlaceRequest, math: &M) -> (f: Option<Footprint>)
    requires
        r.source_size.0 > 0,
        r.source_size.1 > 0,
    ensures
        footprint_of(*math, *r, f),
        f matches Some(x) ==> x.fits(r.output_size, r.source_size),
{
    match extent(r.design_size, r.output_size, r.placement, math) {
        Some(placed) => Some(footprint_from(placed, r, math)),
        None => None,
    }
}

/// `after` is the canvas `before` with `source` drawn where it lands. A source
/// that shows nothing, or that lands nowhere, leaves the canvas as it is. The
/// source holds every pixel that was looked at.
pub open spec fn layer_drawn<M: LayerMath>(
    math: M,
    source: OverlayFrame,
    placement: OverlayPlacement,
    canvas_is_empty: bool,
    size: (u32, u32),
    before: Seq<u8>,
    after: Seq<u8>,
) -> bool {
    ||| after == before && lands_nowhere(math, source.design_size, size, placement)
    ||| after == before && scannable(source) && nothing_visible(source)
    ||| drawn_where_it_lands(math, source, placement, canvas_is_empty, size, before, after)
}

pub open spec fn drawn_where_it_lands<M: LayerMath>(
    math: M,
    source: OverlayFrame,
    placement: OverlayPlacement,
    canvas_is_empty: bool,
    size: (u32, u32),
    before: Seq<u8>,
    after: Seq<u8>,
) -> bool {
    exists|rows: (u32, u32), f: Footprint|
        {
            &&& scannable(source)
            &&& visible_span(source, rows)
            &&& #[trigger] footprint_of(
                math,
                place_request(source, placement, size, rows),
                Some(f),
            )
            &&& reads_within(source, f)
            &&& drawn(math, source, f, canvas_is_empty, size, before, after)
        }
}

/// Drawing the image may read a pixel that it does not hold.
pub open spec fn reads_past<M: LayerMath>(
    math: M,
    source: OverlayFrame,
    placement: OverlayPlacement,
    size: (u32, u32),
) -> bool {
    exists|rows: (u32, u32), f: Footprint|
        {
            &&& visible_span(source, rows)
            &&& #[trigger] footprint_of(
                math,
                place_request(source, placement, size, rows),
                Some(f),
            )
            &&& !reads_within(source, f)
        }
}

/// The image lacks a pixel that is looked at, as its rows are looked through or as
/// it is drawn where it lands.
pub open spec fn runs_out<M: LayerMath>(
    math: M,
    source: OverlayFrame,
    placement: OverlayPlacement,
    size: (u32, u32),
) -> bool {
    &&& !shaped(source)
    &&& lands_somewhere(math, source.design_size, size, placement)
    &&& !scannable(source) || reads_past(math, source, placement, size)
}

/// Draws `source` on the canvas where it lands, unless it lacks a pixel for that.
fn draw_layer<M: LayerMath>(
    canvas: &mut OverlayFrame,
    source: &OverlayFrame,
    placement: OverlayPlacement,
    canvas_is_empty: bool,
    math: &M,
) -> (held: bool)
    requires
        canvas_shaped(*old(canvas)),
    ensures
        final(canvas).width == old(canvas).width,
        final(canvas).height == old(canvas).height,
        final(canvas).design_size == old(canvas).design_size,
        final(canvas).rgba@.len() == old(canvas).rgba@.len(),
        !held ==> runs_out(*math, *source, placement, (old(canvas).width, old(canvas).height)),
        held ==> layer_drawn(
            *math,
            *source,
            placement,
            canvas_is_empty,
            (old(canvas).width, old(canvas).height),
            old(canvas).rgba@,
            final(canvas).rgba@,
        ),
{
    let output_size: (u32, u32) = (canvas.width, canvas.height);
    let placed: Placed = match extent(source.design_size, output_size, placement, math) {
        Some(placed) => placed,
        None => {
            return true;
        },
    };
    let whole: bool = holds_its_pixels(source);
    if whole {
        proof {
            whole_image_is_scannable(*source);
        }
    } else if !can_scan(source) {
        return false;
    }
    let rows: (u32, u32) = match opaque_row_bounds(source) {
        Some(rows) => rows,
        None => {
            return true;
        },
    };
    let request = PlaceRequest {
        design_size: source.design_size,
        source_size: (source.width, source.height),
        output_size,
        placement,
        visible_rows: rows,
    };
    let f: Footprint = footprint_from(placed, &request, math);
    assert(placed_somewhere(*math, request, f)) by {
        assert(placed_at(
            *math,
            request.design_size,
            request.output_size,
            request.placement,
            placed,
        ));
    }
    assert(footprint_of(
        *math,
        place_request(*source, placement, output_size, rows),
        Some(f),
    ));
    if whole {
        proof {
            whole_image_is_read_within(*source, f, output_size);
        }
    } else if !holds_what_is_read(source, &f, Ghost(output_size)) {
        return false;
    }
    blend_footprint(canvas, source, &f, canvas_is_empty, math);
    true
}

/// Draws `source` on the canvas where it lands.
pub fn composite_over<M: LayerMath>(
    canvas: &mut OverlayFrame,
    source: &OverlayFrame,
    placement: OverlayPlacement,
    canvas_is_empty: bool,
    math: &M,
)
    requires
        canvas_shaped(*old(canvas)),
        !runs_out(*math, *source, placement, (old(canvas).width, old(canvas).height)),
    ensures
        final(canvas).width == old(canvas).width,
        final(canvas).height == old(canvas).height,
        final(canvas).design_size == old(canvas).design_size,
        final(canvas).rgba@.len() == old(canvas).rgba@.len(),
        layer_drawn(
            *math,
            *source,
            placement,
            canvas_is_empty,
            (old(canvas).width, old(canvas).height),
            old(canvas).rgba@,
            final(canvas).rgba@,
        ),
{
    draw_layer(canvas, source, placement, canvas_is_empty, math);
}

/// The same image as the last one that the source handed out.
pub open spec fn repeats(latest: Option<OverlayFrame>, frame: OverlayFrame) -> bool {
    latest matches Some(l) && l.same(frame)
}

/// The last image of a layer once its source has been asked.
pub open spec fn latest_entry(
    latest: Option<OverlayFrame>,
    polled: Option<OverlayFrame>,
) -> Option<OverlayFrame> {
    match polled {
        None => latest,
        Some(f) => if repeats(latest, f) {
            latest
        } else {
            Some(f)
        },
    }
}

/// What is drawn of a layer whose last image is `latest`: nothing of one that is
/// transparent.
pub open spec fn shown(latest: Option<OverlayFrame>) -> Option<OverlayFrame> {
    match latest {
        Some(f) => if transparent(f.rgba@) {
            None
        } else {
            Some(f)
        },
        None => None,
    }
}

/// The layer's source had something new.
pub open spec fn changes(latest: Option<OverlayFrame>, polled: Option<OverlayFrame>) -> bool {
    polled matches Some(f) && !repeats(latest, f)
}

pub open spec fn too_few_bytes() -> Seq<char> {
    "overlay layer lacks pixels that are drawn"@
}

/// The i-th answer was `p`.
pub open spec fn gave(polled: Seq<Option<OverlayFrame>>, i: int, p: Option<OverlayFrame>) -> bool {
    0 <= i < polled.len() && polled[i] == p
}

/// The last images after the first `polled.len()` layers have been asked.
pub open spec fn latest_updated(
    before: Seq<Option<OverlayFrame>>,
    polled: Seq<Option<OverlayFrame>>,
    after: Seq<Option<OverlayFrame>>,
) -> bool {
    &&& after.len() == before.len()
    &&& polled.len() <= before.len()
    &&& forall|i: int|
        0 <= i < polled.len() ==> #[trigger] after[i] == latest_entry(before[i], polled[i])
    &&& forall|i: int| polled.len() <= i < before.len() ==> #[trigger] after[i] == before[i]
}

/// No layer below the i-th has an image.
pub open spec fn empty_below(cache: Seq<Option<OverlayFrame>>, i: int) -> bool {
    forall|j: int| 0 <= j < i ==> #[trigger] cache[j] is None
}

/// The canvas after each of the first layers, from the blank one on.
pub open spec fn stack_of<M: LayerMath>(
    math: M,
    cache: Seq<Option<OverlayFrame>>,
    placements: Seq<OverlayPlacement>,
    size: (u32, u32),
    canvases: Seq<Seq<u8>>,
) -> bool {
    &&& canvases.len() > 0
    &&& canvases[0] == blank(size.0 as nat * size.1 as nat * 4)
    &&& forall|i: int|
        0 <= i < canvases.len() - 1 ==> match cache[i] {
            None => #[trigger] canvases[i + 1] == canvases[i],
            Some(f) => layer_drawn(
                math,
                f,
                placements[i],
                empty_below(cache, i),
                size,
                canvases[i],
                canvases[i + 1],
            ),
        }
}

/// `canvas` is a blank canvas with every cached image drawn over it, the first
/// layer undermost.
pub open spec fn stacked<M: LayerMath>(
    math: M,
    cache: Seq<Option<OverlayFrame>>,
    placements: Seq<OverlayPlacement>,
    size: (u32, u32),
    canvas: Seq<u8>,
) -> bool {
    exists|canvases: Seq<Seq<u8>>|
        {
            &&& canvases.len() == cache.len() + 1
            &&& canvases.last() == canvas
            &&& #[trigger] stack_of(math, cache, placements, size, canvases)
        }
}

/// Layers over each other, with the last image of each.
pub struct LayeredOverlaySource<S, M> {
    layers: Vec<(S, OverlayPlacement)>,
    latest: Vec<Option<OverlayFrame>>,
    output_size: (u32, u32),
    math: M,
}

fn same_bytes(a: &Vec<u8>, b: &Vec<u8>) -> (r: bool)
    ensures
        r == (a@ == b@),
{
    if a.len() != b.len() {
        return false;
    }
    let mut i: usize = 0;
    while i < a.len()
        invariant
            a@.len() == b@.len(),
            i <= a@.len(),
            forall|k: int| 0 <= k < i ==> #[trigger] a@[k] == b@[k],
        decreases a@.len() - i,
    {
        if a[i] != b[i] {
            return false;
        }
        i += 1;
    }
    assert(a@ =~= b@);
    true
}

fn same_frame(a: &OverlayFrame, b: &OverlayFrame) -> (r: bool)
    ensures
        r == a.same(*b),
{
    a.width == b.width && a.height == b.height && a.design_size.0 == b.design_size.0
        && a.design_size.1 == b.design_size.1 && same_bytes(&a.rgba, &b.rgba)
}

fn holds_its_pixels(frame: &OverlayFrame) -> (r: bool)
    ensures
        r == shaped(*frame),
{
    assert(0 <= frame.width * frame.height <= 0xffff_ffff * 0xffff_ffff) by (nonlinear_arith)
        requires
            0 <= frame.width <= 0xffff_ffff,
            0 <= frame.height <= 0xffff_ffff,
    ;
    let pixels: u64 = frame.width as u64 * frame.height as u64;
    pixels <= u32::MAX as u64 && pixels * 4 <= frame.rgba.len() as u64
}

impl<S: OverlayFrameSource, M: LayerMath> LayeredOverlaySource<S, M> {
    /// The last image that each source handed out.
    pub closed spec fn latest(self) -> Seq<Option<OverlayFrame>> {
        self.latest@
    }

    /// What is drawn of each layer.
    pub open spec fn cached(self) -> Seq<Option<OverlayFrame>> {
        self.latest().map_values(|l: Option<OverlayFrame>| shown(l))
    }

    pub closed spec fn placements(self) -> Seq<OverlayPlacement> {
        self.layers@.map_values(|l: (S, OverlayPlacement)| l.1)
    }

    pub closed spec fn sources(self) -> Seq<S> {
        self.layers@.map_values(|l: (S, OverlayPlacement)| l.0)
    }

    pub closed spec fn size(self) -> (u32, u32) {
        self.output_size
    }

    pub closed spec fn numbers(self) -> M {
        self.math
    }

    /// What is drawn of some layer lacks a pixel for that.
    pub open spec fn some_layer_runs_out(self) -> bool {
        exists|i: int| 0 <= i < self.cached().len() && #[trigger] self.layer_runs_out(i)
    }

    pub open spec fn layer_runs_out(self, i: int) -> bool {
        self.cached()[i] matches Some(f) && runs_out(
            self.numbers(),
            f,
            self.placements()[i],
            self.size(),
        )
    }

    /// A place for every layer's image, and a canvas that can be held.
    pub open spec fn wf(self) -> bool {
        &&& self.latest().len() == self.placements().len()
        &&& self.latest().len() == self.sources().len()
        &&& self.size().0 > 0
        &&& self.size().1 > 0
        &&& self.size().0 * self.size().1 <= u32::MAX
        &&& self.size().0 * self.size().1 * 4 <= usize::MAX
    }

    /// Nothing but the images and the sources' own state may differ.
    pub open spec fn set_up_like(self, other: Self) -> bool {
        &&& self.placements() == other.placements()
        &&& self.size() == other.size()
        &&& self.numbers() == other.numbers()
    }

    /// Layers that have shown nothing yet, the first undermost. An output
    /// without extent counts as one pixel wide or high.
    pub fn new(
        layers: Vec<(S, OverlayPlacement)>,
        output_size: (u32, u32),
        math: M,
    ) -> (s: Self)
        requires
            output_size.0 * output_size.1 <= u32::MAX,
            output_size.0 * output_size.1 * 4 <= usize::MAX,
            output_size.0 * 4 <= usize::MAX,
            output_size.1 * 4 <= usize::MAX,
        ensures
            s.wf(),
            s.sources() == layers@.map_values(|l: (S, OverlayPlacement)| l.0),
            s.placements() == layers@.map_values(|l: (S, OverlayPlacement)| l.1),
            s.latest().len() == layers@.len(),
            forall|i: int| 0 <= i < layers@.len() ==> #[trigger] s.latest()[i] is None,
            s.size() == (
                if output_size.0 == 0 {
                    1u32
                } else {
                    output_size.0
                },
                if output_size.1 == 0 {
                    1u32
                } else {
                    output_size.1
                },
            ),
            s.numbers() == math,
    {
        let mut latest: Vec<Option<OverlayFrame>> = Vec::new();
        while latest.len() < layers.len()
            invariant
                latest@.len() <= layers@.len(),
                forall|i: int| 0 <= i < latest@.len() ==> #[trigger] latest@[i] is None,
            decreases layers@.len() - latest@.len(),
        {
            latest.push(None);
        }
        let w: u32 = output_size.0.max(1);
        let h: u32 = output_size.1.max(1);
        assert(w * h <= u32::MAX && w * h * 4 <= usize::MAX) by {
            if output_size.0 == 0 {
                assert(w * h == h) by (nonlinear_arith)
                    requires
                        w == 1,
                ;
            } else if output_size.1 == 0 {
                assert(w * h == w) by (nonlinear_arith)
                    requires
                        h == 1,
                ;
            }
        }
        LayeredOverlaySource { layers, latest, output_size: (w, h), math }
    }

    /// Takes what the i-th layer's source handed out, and says whether that was
    /// new.
    pub fn absorb(&mut self, i: usize, polled: Option<OverlayFrame>) -> (changed: bool)
        requires
            old(self).wf(),
            i < old(self).latest().len(),
        ensures
            final(self).wf(),
            final(self).set_up_like(*old(self)),
            final(self).sources() == old(self).sources(),
            changed == changes(old(self).latest()[i as int], polled),
            final(self).latest() == old(self).latest().update(
                i as int,
                latest_entry(old(self).latest()[i as int], polled),
            ),
    {
        let frame: OverlayFrame = match polled {
            Some(f) => f,
            None => {
                return false;
            },
        };
        let repeated: bool = match &self.latest[i] {
            Some(l) => same_frame(l, &frame),
            None => false,
        };
        if repeated {
            return false;
        }
        self.latest[i] = Some(frame);
        true
    }

    fn poll(&mut self, i: usize) -> (r: Result<Option<OverlayFrame>, String>)
        requires
            old(self).wf(),
            i < old(self).latest().len(),
        ensures
            final(self).wf(),
            final(self).set_up_like(*old(self)),
            final(self).latest() == old(self).latest(),
            exists|c: &mut S|
                {
                    &&& #[trigger] call_ensures(S::try_frame, (c,), r)
                    &&& *c == old(self).sources()[i as int]
                    &&& final(self).sources() == old(self).sources().update(i as int, *final(c))
                },
    {
        let layer = &mut self.layers[i];
        let r = layer.0.try_frame();
        assert(self.placements() =~= old(self).placements());
        r
    }

    /// Draws every image that shows something on a blank canvas of the output's
    /// size. Fails where one lacks a pixel for that.
    pub fn compose(&self) -> (r: Result<OverlayFrame, String>)
        requires
            self.wf(),
        ensures
            r matches Err(e) ==> self.some_layer_runs_out() && e@ == too_few_bytes(),
            r matches Ok(canvas) ==> {
                &&& canvas.width == self.size().0
                &&& canvas.height == self.size().1
                &&& canvas.design_size == self.size()
                &&& stacked(
                    self.numbers(),
                    self.cached(),
                    self.placements(),
                    self.size(),
                    canvas.rgba@,
                )
            },
    {
        let (w, h): (u32, u32) = self.output_size;
        let ghost size = (w, h);
        let mut rgba: Vec<u8> = Vec::new();
        rgba.resize(w as usize * h as usize * 4, 0u8);
        assert(rgba@ =~= blank(w as nat * h as nat * 4));
        let mut canvas = OverlayFrame { width: w, height: h, design_size: self.output_size, rgba };
        let mut canvas_is_empty: bool = true;
        let ghost mut canvases: Seq<Seq<u8>> = seq![canvas.rgba@];
        let mut i: usize = 0;
        while i < self.layers.len()
            invariant
                self.wf(),
                i <= self.layers@.len(),
                size == self.output_size,
                canvas.width == size.0,
                canvas.height == size.1,
                canvas.design_size == size,
                canvas.rgba@.len() == size.0 * size.1 * 4,
                canvas_is_empty == empty_below(self.cached(), i as int),
                canvases.len() == i + 1,
                canvases.last() == canvas.rgba@,
                stack_of(
                    self.math,
                    self.cached(),
                    self.placements(),
                    size,
                    canvases,
                ),
            decreases self.layers@.len() - i,
        {
            let visible: bool = match &self.latest[i] {
                Some(frame) => !is_fully_transparent(frame),
                None => false,
            };
            assert(visible == self.cached()[i as int] is Some);
            match &self.latest[i] {
                Some(frame) => {
                    if visible {
                        let held: bool = draw_layer(
                            &mut canvas,
                            frame,
                            self.layers[i].1,
                            canvas_is_empty,
                            &self.math,
                        );
                        if !held {
                            assert(self.layer_runs_out(i as int));
                            return Err("overlay layer lacks pixels that are drawn".to_owned());
                        }
                        canvas_is_empty = false;
                    }
                },
                None => {},
            }
            assert(canvas_is_empty == empty_below(self.cached(), i + 1));
            proof {
                canvases = canvases.push(canvas.rgba@);
            }
            i += 1;
        }
        Ok(canvas)
    }

    /// Asks the layers in order, and draws them all anew where one had something
    /// new. The first source that fails ends it, and so does an image that lacks a
    /// pixel it is drawn with.
    pub fn try_frame(&mut self) -> (r: Result<Option<OverlayFrame>, String>)
        requires
            old(self).wf(),
        ensures
            final(self).wf(),
            final(self).set_up_like(*old(self)),
            final(self).sources().len() == old(self).sources().len(),
            exists|polled: Seq<Option<OverlayFrame>>|
                {
                    &&& #[trigger] latest_updated(
                        old(self).latest(),
                        polled,
                        final(self).latest(),
                    )
                    &&& forall|i: int, p: Option<OverlayFrame>| #[trigger]
                        gave(polled, i, p) ==> exists|c: &mut S|
                            {
                                &&& #[trigger] call_ensures(
                                    S::try_frame,
                                    (c,),
                                    Ok::<Option<OverlayFrame>, String>(p),
                                )
                                &&& *c == old(self).sources()[i]
                                &&& *final(c) == final(self).sources()[i]
                            }
                    &&& r is Ok ==> polled.len() == old(self).latest().len()
                    &&& r matches Ok(out) ==> (out is None <==> forall|i: int|
                        0 <= i < polled.len() ==> !#[trigger] changes(
                            old(self).latest()[i],
                            polled[i],
                        ))
                    &&& r is Err && polled.len() == old(self).latest().len() ==> {
                        &&& exists|i: int|
                            0 <= i < polled.len() && #[trigger] changes(
                                old(self).latest()[i],
                                polled[i],
                            )
                        &&& final(self).some_layer_runs_out()
                        &&& r->Err_0@ == too_few_bytes()
                    }
                    &&& r is Err && polled.len() < old(self).latest().len() ==> {
                        let k = polled.len() as int;
                        &&& forall|i: int|
                            k < i < old(self).latest().len() ==> #[trigger] final(self).sources()[i]
                                == old(self).sources()[i]
                        &&& exists|c: &mut S, answer: Result<Option<OverlayFrame>, String>|
                            {
                                &&& #[trigger] call_ensures(S::try_frame, (c,), answer)
                                &&& *c == old(self).sources()[k]
                                &&& *final(c) == final(self).sources()[k]
                                &&& answer matches Err(said) && r->Err_0 == said
                            }
                    }
                },
            r matches Ok(Some(canvas)) ==> {
                &&& canvas.width == old(self).size().0
                &&& canvas.height == old(self).size().1
                &&& canvas.design_size == old(self).size()
                &&& stacked(
                    old(self).numbers(),
                    final(self).cached(),
                    old(self).placements(),
                    old(self).size(),
                    canvas.rgba@,
                )
            },
    {
        let ghost start = self.latest();
        let ghost mut polled: Seq<Option<OverlayFrame>> = Seq::empty();
        let n: usize = self.layers.len();
        let mut any_changed: bool = false;
        let mut i: usize = 0;
        while i < n
            invariant
                self.wf(),
                self.set_up_like(*old(self)),
                start == old(self).latest(),
                n == start.len(),
                i <= n,
                polled.len() == i,
                latest_updated(start, polled, self.latest()),
                self.sources().len() == n,
                forall|k: int, p: Option<OverlayFrame>| #[trigger]
                    gave(polled, k, p) ==> exists|c: &mut S|
                        {
                            &&& #[trigger] call_ensures(
                                S::try_frame,
                                (c,),
                                Ok::<Option<OverlayFrame>, String>(p),
                            )
                            &&& *c == old(self).sources()[k]
                            &&& *final(c) == self.sources()[k]
                        },
                forall|k: int|
                    i <= k < n ==> #[trigger] self.sources()[k] == old(self).sources()[k],
                any_changed <==> exists|k: int|
                    0 <= k < i && #[trigger] changes(start[k], polled[k]),
            decreases n - i,
        {
            let answer: Result<Option<OverlayFrame>, String> = self.poll(i);
            let ghost given = answer;
            let ghost asked = self.sources();
            assert(exists|c: &mut S|
                {
                    &&& #[trigger] call_ensures(S::try_frame, (c,), given)
                    &&& *c == old(self).sources()[i as int]
                    &&& *final(c) == asked[i as int]
                });
            let outcome: Option<OverlayFrame> = match answer {
                Ok(o) => o,
                Err(e) => {
                    return Err(e);
                },
            };
            let ghost before = polled;
            let changed: bool = self.absorb(i, outcome);
            proof {
                polled = polled.push(outcome);
                assert(changed == changes(start[i as int], polled[i as int]));
                assert forall|k: int| 0 <= k < i implies changes(start[k], polled[k])
                    == changes(start[k], before[k]) by {
                }
                assert forall|k: int, p: Option<OverlayFrame>| #[trigger]
                    gave(polled, k, p) implies exists|c: &mut S|
                    {
                        &&& #[trigger] call_ensures(
                            S::try_frame,
                            (c,),
                            Ok::<Option<OverlayFrame>, String>(p),
                        )
                        &&& *c == old(self).sources()[k]
                        &&& *final(c) == self.sources()[k]
                    } by {
                    if k < i {
                        assert(gave(before, k, p));
                    }
                }
            }
            any_changed = any_changed || changed;
            i += 1;
        }
        if !any_changed {
            return Ok(None);
        }
        match self.compose() {
            Ok(canvas) => Ok(Some(canvas)),
            Err(e) => Err(e),
        }
    }
}

/// An image that holds exactly its pixels shows nothing in any row just when it
/// is transparent.
pub proof fn transparent_means_no_visible_row(frame: OverlayFrame)
    requires
        canvas_shaped(frame),
    ensures
        transparent(frame.rgba@) <==> nothing_visible(frame),
{
    let w = frame.width as int;
    let h = frame.height as int;
    if transparent(frame.rgba@) {
        assert forall|y: int| 0 <= y < h implies !#[trigger] row_visible(frame, y) by {
            row_lies_within(frame, y);
        }
    }
    if nothing_visible(frame) {
        assert forall|k: int| 0 <= k && 4 * k + 3 < frame.rgba@.len() implies
            #[trigger] frame.rgba@[4 * k + 3] == 0 by {
            let y = k / w;
            let x = k % w;
            assert(w != 0) by (nonlinear_arith)
                requires
                    0 <= k < w * h,
            ;
            lemma_fundamental_div_mod(k, w);
            assert(0 <= y < h) by (nonlinear_arith)
                requires
                    0 <= k < w * h,
                    w > 0,
                    k == w * y + x,
                    0 <= x < w,
            ;
            assert(w * y == y * w) by (nonlinear_arith);
            assert(!row_visible(frame, y));
            assert(pixel(frame.rgba@, y * w + x).a == 0);
        }
    }
}

/// Outside its footprint a layer changes nothing.
pub proof fn drawing_stays_in_the_footprint<M: LayerMath>(
    math: M,
    source: OverlayFrame,
    footprint: Footprint,
    canvas_is_empty: bool,
    size: (u32, u32),
    before: Seq<u8>,
    after: Seq<u8>,
    q: int,
)
    requires
        drawn(math, source, footprint, canvas_is_empty, size, before, after),
        0 <= q < size.0 * size.1,
        !footprint.holds(q % (size.0 as int), q / (size.0 as int)),
    ensures
        pixel(after, q) == pixel(before, q),
{
    assert(pixel_drawn(
        math,
        source,
        footprint,
        canvas_is_empty,
        size.0 as int,
        before,
        after,
        q,
    ));
}

/// A source that hands out the image it handed out before changes nothing,
/// whether the image shows something or not, and neither does one that hands out
/// none.
pub proof fn repeated_image_changes_nothing(latest: OverlayFrame, frame: OverlayFrame)
    requires
        latest.same(frame),
    ensures
        !changes(Some(latest), Some(frame)),
        latest_entry(Some(latest), Some(frame)) == Some(latest),
        !changes(Some(latest), None),
        latest_entry(Some(latest), None) == Some(latest),
{
}

/// A layer keeps its image while only other layers change.
pub proof fn quiet_layer_keeps_its_image(
    before: Seq<Option<OverlayFrame>>,
    polled: Seq<Option<OverlayFrame>>,
    after: Seq<Option<OverlayFrame>>,
    i: int,
)
    requires
        latest_updated(before, polled, after),
        0 <= i < polled.len(),
        polled[i] is None,
    ensures
        after[i] == before[i],
{
}

/// What the i-th layer's source answered at one call; a layer that was not asked
/// gave nothing.
pub open spec fn answer(polled: Seq<Option<OverlayFrame>>, i: int) -> Option<OverlayFrame> {
    if 0 <= i < polled.len() {
        polled[i]
    } else {
        None
    }
}

/// The last image that the i-th layer's source gave in the first `n` calls.
pub open spec fn last_given(polls: Seq<Seq<Option<OverlayFrame>>>, i: int, n: int) -> Option<
    OverlayFrame,
>
    decreases n,
{
    if n <= 0 {
        None
    } else {
        match answer(polls[n - 1], i) {
            Some(f) => Some(f),
            None => last_given(polls, i, n - 1),
        }
    }
}

/// The last images of the layers after each of some calls, from fresh layers on.
pub open spec fn remembered(
    states: Seq<Seq<Option<OverlayFrame>>>,
    polls: Seq<Seq<Option<OverlayFrame>>>,
) -> bool {
    &&& states.len() == polls.len() + 1
    &&& forall|i: int| 0 <= i < states[0].len() ==> #[trigger] states[0][i] is None
    &&& forall|t: int|
        0 <= t < polls.len() ==> latest_updated(states[t], #[trigger] polls[t], states[t + 1])
}

/// Neither is an image, or both are the same one.
pub open spec fn alike(a: Option<OverlayFrame>, b: Option<OverlayFrame>) -> bool {
    match (a, b) {
        (None, None) => true,
        (Some(x), Some(y)) => x.same(y),
        _ => false,
    }
}

/// After any number of calls each layer has the last image that its source gave,
/// and only one that differs from it is new.
pub proof fn last_image_is_kept(
    states: Seq<Seq<Option<OverlayFrame>>>,
    polls: Seq<Seq<Option<OverlayFrame>>>,
    i: int,
    n: int,
    polled: Option<OverlayFrame>,
)
    requires
        remembered(states, polls),
        0 <= i < states[0].len(),
        0 <= n <= polls.len(),
    ensures
        states[n].len() == states[0].len(),
        alike(states[n][i], last_given(polls, i, n)),
        alike(shown(states[n][i]), shown(last_given(polls, i, n))),
        changes(states[n][i], polled) == changes(last_given(polls, i, n), polled),
    decreases n,
{
    if n > 0 {
        last_image_is_kept(states, polls, i, n - 1, answer(polls[n - 1], i));
        assert(latest_updated(states[n - 1], polls[n - 1], states[(n - 1) + 1]));
    }
}

proof fn same_image_is_drawn_alike<M: LayerMath>(
    math: M,
    a: OverlayFrame,
    b: OverlayFrame,
    placement: OverlayPlacement,
    canvas_is_empty: bool,
    size: (u32, u32),
    before: Seq<u8>,
    after: Seq<u8>,
)
    requires
        a.same(b),
        layer_drawn(math, a, placement, canvas_is_empty, size, before, after),
    ensures
        layer_drawn(math, b, placement, canvas_is_empty, size, before, after),
{
    if scannable(a) && last_row_stops(a) {
        let x = choose|x: int|
            {
                &&& 0 <= x < a.width
                &&& 4 * ((a.height - 1) * a.width + x) + 3 < a.rgba@.len()
                &&& #[trigger] pixel(a.rgba@, (a.height - 1) * a.width + x).a != 0
            };
        assert(pixel(b.rgba@, (b.height - 1) * b.width + x).a != 0);
    }
    assert forall|y: int| #[trigger] row_visible(b, y) == row_visible(a, y) by {
        if row_visible(b, y) {
            let x = choose|x: int|
                0 <= x < b.width && #[trigger] pixel(b.rgba@, y * b.width + x).a != 0;
            assert(pixel(a.rgba@, y * a.width + x).a != 0);
        }
        if row_visible(a, y) {
            let x = choose|x: int|
                0 <= x < a.width && #[trigger] pixel(a.rgba@, y * a.width + x).a != 0;
            assert(pixel(b.rgba@, y * b.width + x).a != 0);
        }
    }
    if drawn_where_it_lands(math, a, placement, canvas_is_empty, size, before, after) {
        let (rows, f) = choose|rows: (u32, u32), f: Footprint|
            {
                &&& scannable(a)
                &&& visible_span(a, rows)
                &&& #[trigger] footprint_of(
                    math,
                    place_request(a, placement, size, rows),
                    Some(f),
                )
                &&& reads_within(a, f)
                &&& drawn(math, a, f, canvas_is_empty, size, before, after)
            };
        assert(row_visible(b, rows.0 as int) && row_visible(b, rows.1 as int));
        assert forall|i: int, j: int|
            0 <= i < f.columns@.len() && 0 <= j < f.rows@.len() implies #[trigger] tap_read(
            b,
            f.columns@[i],
            f.rows@[j],
        ) by {
            assert(tap_read(a, f.columns@[i], f.rows@[j]));
        }
        assert forall|y: int| 0 <= y < b.height && #[trigger] row_visible(b, y) implies rows.0 <= y
            <= rows.1 by {
            assert(row_visible(a, y));
        }
        assert(place_request(b, placement, size, rows) == place_request(a, placement, size, rows));
        assert forall|q: int| 0 <= q < size.0 * size.1 implies #[trigger] pixel_drawn(
            math,
            b,
            f,
            canvas_is_empty,
            size.0 as int,
            before,
            after,
            q,
        ) by {
            assert(pixel_drawn(math, a, f, canvas_is_empty, size.0 as int, before, after, q));
        }
        assert(footprint_of(math, place_request(b, placement, size, rows), Some(f)));
    } else if nothing_visible(a) {
        assert(nothing_visible(b));
    }
}

/// After any number of calls the canvas is a blank one with the last image of
/// each source drawn over it, the first layer undermost; one that is transparent
/// is not drawn.
pub proof fn canvas_stacks_the_last_images<M: LayerMath>(
    math: M,
    states: Seq<Seq<Option<OverlayFrame>>>,
    polls: Seq<Seq<Option<OverlayFrame>>>,
    placements: Seq<OverlayPlacement>,
    size: (u32, u32),
    canvas: Seq<u8>,
    n: int,
)
    requires
        remembered(states, polls),
        0 <= n <= polls.len(),
        stacked(
            math,
            states[n].map_values(|l: Option<OverlayFrame>| shown(l)),
            placements,
            size,
            canvas,
        ),
    ensures
        stacked(
            math,
            Seq::new(states[0].len(), |i: int| shown(last_given(polls, i, n))),
            placements,
            size,
            canvas,
        ),
{
    let kept = states[n].map_values(|l: Option<OverlayFrame>| shown(l));
    let given = Seq::new(states[0].len(), |i: int| shown(last_given(polls, i, n)));
    let canvases = choose|canvases: Seq<Seq<u8>>|
        {
            &&& canvases.len() == kept.len() + 1
            &&& canvases.last() == canvas
            &&& #[trigger] stack_of(math, kept, placements, size, canvases)
        };
    keeps_count(states, polls, n);
    assert forall|i: int| 0 <= i < given.len() implies alike(kept[i], #[trigger] given[i]) by {
        last_image_is_kept(states, polls, i, n, None);
    }
    assert forall|i: int| 0 <= i < canvases.len() - 1 implies match given[i] {
        None => #[trigger] canvases[i + 1] == canvases[i],
        Some(f) => layer_drawn(
            math,
            f,
            placements[i],
            empty_below(given, i),
            size,
            canvases[i],
            canvases[i + 1],
        ),
    } by {
        assert(alike(kept[i], given[i]));
        assert(empty_below(given, i) == empty_below(kept, i)) by {
            if empty_below(given, i) {
                assert forall|j: int| 0 <= j < i implies #[trigger] kept[j] is None by {
                    assert(alike(kept[j], given[j]));
                }
            }
            if empty_below(kept, i) {
                assert forall|j: int| 0 <= j < i implies #[trigger] given[j] is None by {
                    assert(alike(kept[j], given[j]));
                }
            }
        }
        match (kept[i], given[i]) {
            (Some(a), Some(b)) => {
                same_image_is_drawn_alike(
                    math,
                    a,
                    b,
                    placements[i],
                    empty_below(kept, i),
                    size,
                    canvases[i],
                    canvases[i + 1],
                );
            },
            _ => {},
        }
    }
    assert(stack_of(math, given, placements, size, canvases));
}

proof fn keeps_count(
    states: Seq<Seq<Option<OverlayFrame>>>,
    polls: Seq<Seq<Option<OverlayFrame>>>,
    n: int,
)
    requires
        remembered(states, polls),
        0 <= n <= polls.len(),
    ensures
        states[n].len() == states[0].len(),
    decreases n,
{
    if n > 0 {
        keeps_count(states, polls, n - 1);
        assert(latest_updated(states[n - 1], polls[n - 1], states[(n - 1) + 1]));
    }
}

/// The middle of a pixel of the canvas is on an image that lands at `placed`: on
/// both sides it is between nought and one of the way across, or the image covers
/// the whole canvas.
pub open spec fn on_image<M: LayerMath>(math: M, placed: Placed, x: u32, y: u32) -> bool {
    ||| covers(placed)
    ||| between_sides(math, x, placed.origin.0, placed.fitted.0) && between_sides(
        math,
        y,
        placed.origin.1,
        placed.fitted.1,
    )
}

pub open spec fn between_sides<M: LayerMath>(
    math: M,
    at: u32,
    origin: Scalar,
    fitted: Scalar,
) -> bool {
    exists|part: Scalar|
        {
            &&& #[trigger] part_across(math, at, origin, fitted, part)
            &&& (Scalar { bits: ZERO }).at_most(part)
            &&& part.at_most(Scalar { bits: ONE })
        }
}

/// A pixel that is on an image of this design, wherever that lands.
pub open spec fn may_be_drawn<M: LayerMath>(
    math: M,
    source: OverlayFrame,
    placement: OverlayPlacement,
    size: (u32, u32),
    x: u32,
    y: u32,
) -> bool {
    exists|placed: Placed|
        {
            &&& #[trigger] placed_at(math, source.design_size, size, placement, placed)
            &&& has_extent(placed)
            &&& on_image(math, placed, x, y)
        }
}

/// Drawing an image changes only pixels that are on it where it lands. One that
/// shows nothing, or whose design has no extent, changes none.
pub proof fn drawing_stays_on_the_image<M: LayerMath>(
    math: M,
    source: OverlayFrame,
    placement: OverlayPlacement,
    canvas_is_empty: bool,
    size: (u32, u32),
    before: Seq<u8>,
    after: Seq<u8>,
    x: u32,
    y: u32,
)
    requires
        layer_drawn(math, source, placement, canvas_is_empty, size, before, after),
        x < size.0,
        y < size.1,
    ensures
        pixel(after, y * size.0 + x) != pixel(before, y * size.0 + x) ==> {
            &&& source.design_size.0 != 0
            &&& source.design_size.1 != 0
            &&& !nothing_visible(source)
            &&& may_be_drawn(math, source, placement, size, x, y)
        },
{
    let w = size.0 as int;
    let q = y * w + x;
    if pixel(after, q) != pixel(before, q) {
        assert(drawn_where_it_lands(math, source, placement, canvas_is_empty, size, before, after));
        let (rows, f) = choose|rows: (u32, u32), f: Footprint|
            {
                &&& visible_span(source, rows)
                &&& #[trigger] footprint_of(
                    math,
                    place_request(source, placement, size, rows),
                    Some(f),
                )
                &&& drawn(math, source, f, canvas_is_empty, size, before, after)
            };
        let r = place_request(source, placement, size, rows);
        assert(placed_somewhere(math, r, f));
        let placed = choose|placed: Placed|
            {
                &&& #[trigger] placed_at(math, r.design_size, r.output_size, r.placement, placed)
                &&& has_extent(placed)
                &&& footprint_at(math, placed, r, f)
            };
        assert(0 <= q < size.0 * size.1) by (nonlinear_arith)
            requires
                q == y * size.0 + x,
                x < size.0,
                y + 1 <= size.1,
                0 <= x,
                0 <= y,
        ;
        lemma_fundamental_div_mod_converse(q, w, y as int, x as int);
        assert(pixel_drawn(math, source, f, canvas_is_empty, w, before, after, q));
        assert(f.holds(x as int, y as int));
        if !fills(source, f, canvas_is_empty) {
            let column = f.columns@[x - f.x0];
            let row = f.rows@[y - f.y0];
            assert(tapped(
                math,
                (f.x0 + (x - f.x0)) as u32,
                placed.origin.0,
                placed.fitted.0,
                source.width,
                column,
            ));
            assert(tapped(
                math,
                (f.y0 + (y - f.y0)) as u32,
                placed.origin.1,
                placed.fitted.1,
                source.height,
                row,
            ));
        }
        assert(on_image(math, placed, x, y));
    }
}

/// Layers that show nothing leave the canvas blank.
pub proof fn empty_layers_leave_a_blank_canvas<M: LayerMath>(
    math: M,
    cache: Seq<Option<OverlayFrame>>,
    placements: Seq<OverlayPlacement>,
    size: (u32, u32),
    canvas: Seq<u8>,
)
    requires
        stacked(math, cache, placements, size, canvas),
        forall|i: int| 0 <= i < cache.len() ==> #[trigger] cache[i] is None,
    ensures
        canvas == blank(size.0 as nat * size.1 as nat * 4),
{
    let canvases = choose|canvases: Seq<Seq<u8>>|
        {
            &&& canvases.len() == cache.len() + 1
            &&& canvases.last() == canvas
            &&& #[trigger] stack_of(math, cache, placements, size, canvases)
        };
    blank_through(math, cache, placements, size, canvases, cache.len() as int);
}

proof fn blank_through<M: LayerMath>(
    math: M,
    cache: Seq<Option<OverlayFrame>>,
    placements: Seq<OverlayPlacement>,
    size: (u32, u32),
    canvases: Seq<Seq<u8>>,
    i: int,
)
    requires
        stack_of(math, cache, placements, size, canvases),
        canvases.len() == cache.len() + 1,
        forall|k: int| 0 <= k < cache.len() ==> #[trigger] cache[k] is None,
        0 <= i < canvases.len(),
    ensures
        canvases[i] == blank(size.0 as nat * size.1 as nat * 4),
    decreases i,
{
    if i > 0 {
        blank_through(math, cache, placements, size, canvases, i - 1);
        assert(canvases[(i - 1) + 1] == canvases[i - 1]);
    }
}

} // verus!
