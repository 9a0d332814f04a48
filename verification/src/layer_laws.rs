//! Drawing on a blank canvas: the short ways come to the same as the full blend.

use crate::layer_math::{alpha_over, byte_part, part_across, quantized, LayerMath};
use crate::overlay::{contained, OverlayFrame, OverlayPlacement};
use crate::overlay_layers::{
    coloured, component_over, covers, drawn, drawn_where_it_lands, fills, first_row, footprint_at,
    footprint_of, has_extent, in_parts, laid_over, layer_drawn, mixed, mixed_with, over_pixel,
    past_row, pixel, pixel_drawn, place_request, placed_at, placed_somewhere, row_visible,
    sample_at, side_placed, tap_at, tap_of_part, tapped, visible_span, Colour, Footprint, Pixel,
    PlaceRequest, Placed, Sample, Tap, FAINT,
};
use crate::scalar::{Scalar, ONE, ZERO};
use vstd::arithmetic::div_mod::lemma_fundamental_div_mod;
use vstd::prelude::*;

verus! {

/// Asked the same twice, the arithmetic gives the same answer.
pub open spec fn answers_once<M: LayerMath>(math: M) -> bool {
    &&& forall|a: u32, b: u32, x: Scalar, y: Scalar|
        #[trigger] call_ensures(M::quotient, (&math, a, b), x) && #[trigger] call_ensures(
            M::quotient,
            (&math, a, b),
            y,
        ) ==> x == y
    &&& forall|a: Scalar, b: Scalar, x: Scalar, y: Scalar|
        #[trigger] call_ensures(M::product, (&math, a, b), x) && #[trigger] call_ensures(
            M::product,
            (&math, a, b),
            y,
        ) ==> x == y
    &&& forall|n: u64, x: Scalar, y: Scalar|
        #[trigger] call_ensures(M::whole, (&math, n), x) && #[trigger] call_ensures(
            M::whole,
            (&math, n),
            y,
        ) ==> x == y
    &&& forall|a: Scalar, b: Scalar, x: Scalar, y: Scalar|
        #[trigger] call_ensures(M::sum, (&math, a, b), x) && #[trigger] call_ensures(
            M::sum,
            (&math, a, b),
            y,
        ) ==> x == y
    &&& forall|a: Scalar, b: Scalar, x: Scalar, y: Scalar|
        #[trigger] call_ensures(M::difference, (&math, a, b), x) && #[trigger] call_ensures(
            M::difference,
            (&math, a, b),
            y,
        ) ==> x == y
    &&& forall|a: Scalar, b: Scalar, x: Scalar, y: Scalar|
        #[trigger] call_ensures(M::ratio, (&math, a, b), x) && #[trigger] call_ensures(
            M::ratio,
            (&math, a, b),
            y,
        ) ==> x == y
    &&& forall|a: Scalar, x: u32, y: u32|
        #[trigger] call_ensures(M::floor, (&math, a), x) && #[trigger] call_ensures(
            M::floor,
            (&math, a),
            y,
        ) ==> x == y
    &&& forall|a: Scalar, x: u32, y: u32|
        #[trigger] call_ensures(M::ceil, (&math, a), x) && #[trigger] call_ensures(
            M::ceil,
            (&math, a),
            y,
        ) ==> x == y
    &&& forall|a: Scalar, x: u8, y: u8|
        #[trigger] call_ensures(M::nearest, (&math, a), x) && #[trigger] call_ensures(
            M::nearest,
            (&math, a),
            y,
        ) ==> x == y
}

proof fn placed_once<M: LayerMath>(
    math: M,
    design_size: (u32, u32),
    size: (u32, u32),
    placement: OverlayPlacement,
    p: Placed,
    q: Placed,
)
    requires
        answers_once(math),
        placed_at(math, design_size, size, placement, p),
        placed_at(math, design_size, size, placement, q),
    ensures
        p == q,
{
    let s = choose|s: Scalar|
        {
            &&& #[trigger] contained(math, design_size, size, placement, s)
            &&& side_placed(
                math,
                design_size.0,
                size.0,
                s,
                placement.offset.0,
                p.canvas.0,
                p.fitted.0,
                p.origin.0,
                p.end.0,
            )
            &&& side_placed(
                math,
                design_size.1,
                size.1,
                s,
                placement.offset.1,
                p.canvas.1,
                p.fitted.1,
                p.origin.1,
                p.end.1,
            )
        };
    let t = choose|t: Scalar|
        {
            &&& #[trigger] contained(math, design_size, size, placement, t)
            &&& side_placed(
                math,
                design_size.0,
                size.0,
                t,
                placement.offset.0,
                q.canvas.0,
                q.fitted.0,
                q.origin.0,
                q.end.0,
            )
            &&& side_placed(
                math,
                design_size.1,
                size.1,
                t,
                placement.offset.1,
                q.canvas.1,
                q.fitted.1,
                q.origin.1,
                q.end.1,
            )
        };
    assert(s == t);
}

proof fn tapped_once<M: LayerMath>(
    math: M,
    at: u32,
    origin: Scalar,
    fitted: Scalar,
    size: u32,
    s: Option<Tap>,
    t: Option<Tap>,
)
    requires
        answers_once(math),
        tapped(math, at, origin, fitted, size, s),
        tapped(math, at, origin, fitted, size, t),
    ensures
        s == t,
{
    let part = choose|part: Scalar|
        {
            &&& #[trigger] part_across(math, at, origin, fitted, part)
            &&& tap_of_part(math, part, size, s)
        };
    assert(tap_of_part(math, part, size, t));
    match (s, t) {
        (Some(a), Some(b)) => {
            assert(tap_at(math, part, size, a));
            assert(tap_at(math, part, size, b));
        },
        _ => {},
    }
}

/// The same rectangle of the canvas, falling on the same pixels.
spec fn same_footprint(f: Footprint, g: Footprint) -> bool {
    &&& f.x0 == g.x0
    &&& f.x1 == g.x1
    &&& f.y0 == g.y0
    &&& f.y1 == g.y1
    &&& f.columns@ == g.columns@
    &&& f.rows@ == g.rows@
    &&& f.covers_canvas == g.covers_canvas
}

proof fn footprint_once<M: LayerMath>(
    math: M,
    placed: Placed,
    r: PlaceRequest,
    f: Footprint,
    g: Footprint,
)
    requires
        answers_once(math),
        footprint_at(math, placed, r, f),
        footprint_at(math, placed, r, g),
    ensures
        same_footprint(f, g),
{
    assert(f.y0 == g.y0) by {
        assert(first_row(math, placed, r, f.y0));
        assert(first_row(math, placed, r, g.y0));
    }
    assert(f.y1 == g.y1) by {
        assert(past_row(math, placed, r, f.y1));
        assert(past_row(math, placed, r, g.y1));
    }
    assert forall|i: int| 0 <= i < f.columns@.len() implies #[trigger] f.columns@[i]
        == g.columns@[i] by {
        tapped_once(
            math,
            (f.x0 + i) as u32,
            placed.origin.0,
            placed.fitted.0,
            r.source_size.0,
            f.columns@[i],
            g.columns@[i],
        );
    }
    assert forall|i: int| 0 <= i < f.rows@.len() implies #[trigger] f.rows@[i] == g.rows@[i] by {
        tapped_once(
            math,
            (f.y0 + i) as u32,
            placed.origin.1,
            placed.fitted.1,
            r.source_size.1,
            f.rows@[i],
            g.rows@[i],
        );
    }
    assert(f.columns@ =~= g.columns@);
    assert(f.rows@ =~= g.rows@);
}

/// A sample that drawing the image computes a colour from.
pub open spec fn sampled(source: OverlayFrame, f: Footprint, s: Sample) -> bool {
    exists|x: int, y: int| #[trigger]
        sample_at(source, f, s.below, s.canvas_is_empty, x, y) == Some(s)
}

/// A colour that drawing the image comes to.
pub open spec fn seen<M: LayerMath>(
    math: M,
    source: OverlayFrame,
    placement: OverlayPlacement,
    size: (u32, u32),
    c: Colour,
) -> bool {
    exists|rows: (u32, u32), f: Footprint, s: Sample|
        {
            &&& visible_span(source, rows)
            &&& #[trigger] footprint_of(
                math,
                place_request(source, placement, size, rows),
                Some(f),
            )
            &&& #[trigger] sampled(source, f, s)
            &&& coloured(math, s, c)
        }
}

/// A component over something that does not show is the same byte as the component
/// itself.
pub open spec fn component_kept<M: LayerMath>(math: M, component: Scalar, alpha: Scalar) -> bool {
    forall|byte: u8, below: Scalar, none: Scalar, p: u8|
        {
            &&& #[trigger] byte_part(math, byte, below)
            &&& byte_part(math, 0u8, none)
            &&& #[trigger] component_over(math, component, alpha, below, none, alpha, p)
        } ==> quantized(math, component, p)
}

/// The arithmetic leaves a colour as it is over something that does not show.
pub open spec fn kept_over_nothing<M: LayerMath>(math: M, c: Colour) -> bool {
    &&& forall|none: Scalar, out: Scalar|
        byte_part(math, 0u8, none) && #[trigger] alpha_over(math, c.a, none, out) ==> out == c.a
    &&& component_kept(math, c.r, c.a)
    &&& component_kept(math, c.g, c.a)
    &&& component_kept(math, c.b, c.a)
}

/// Taken apart and put together again, a byte is the same, and only nought is not
/// more than nothing.
pub open spec fn bytes_come_back<M: LayerMath>(math: M) -> bool {
    forall|byte: u8, part: Scalar| #[trigger]
        byte_part(math, byte, part) ==> {
            &&& byte != 0 ==> !part.at_most(Scalar { bits: ZERO })
            &&& forall|p: u8| #[trigger] quantized(math, part, p) ==> p == byte
        }
}

/// The middle of every pixel of a side is between nought and one of the way across.
pub open spec fn side_covered<M: LayerMath>(
    math: M,
    origin: Scalar,
    fitted: Scalar,
    pixels: u32,
) -> bool {
    forall|at: u32, part: Scalar|
        at < pixels && #[trigger] part_across(math, at, origin, fitted, part) ==> {
            &&& (Scalar { bits: ZERO }).at_most(part)
            &&& part.at_most(Scalar { bits: ONE })
        }
}

/// Where the image covers the canvas, every pixel of the canvas is on it.
pub open spec fn covering_reaches_all<M: LayerMath>(
    math: M,
    design_size: (u32, u32),
    size: (u32, u32),
    placement: OverlayPlacement,
) -> bool {
    forall|placed: Placed|
        #[trigger] placed_at(math, design_size, size, placement, placed) && covers(placed) ==> {
            &&& side_covered(math, placed.origin.0, placed.fitted.0, size.0)
            &&& side_covered(math, placed.origin.1, placed.fitted.1, size.1)
        }
}

proof fn coloured_once<M: LayerMath>(math: M, s: Sample, t: Sample, c: Colour, d: Colour)
    requires
        answers_once(math),
        coloured(math, s, c),
        coloured(math, t, d),
        t == (Sample { canvas_is_empty: t.canvas_is_empty, ..s }),
    ensures
        c == d,
{
}

/// A colour over a pixel that does not show comes out as the colour itself.
proof fn over_nothing<M: LayerMath>(math: M, c: Colour, below: Pixel, p: Pixel)
    requires
        kept_over_nothing(math, c),
        !c.a.at_most(Scalar { bits: FAINT }),
        below.a == 0,
        over_pixel(math, c, below, p),
    ensures
        quantized(math, c.r, p.r),
        quantized(math, c.g, p.g),
        quantized(math, c.b, p.b),
        quantized(math, c.a, p.a),
{
    let (under, out) = choose|under: Colour, out: Scalar|
        {
            &&& #[trigger] in_parts(math, below, under)
            &&& #[trigger] alpha_over(math, c.a, under.a, out)
            &&& laid_over(math, c, under, out, p)
        };
    assert(out == c.a);
    assert(component_over(math, c.r, c.a, under.r, under.a, out, p.r));
    assert(component_over(math, c.g, c.a, under.g, under.a, out, p.g));
    assert(component_over(math, c.b, c.a, under.b, under.a, out, p.b));
}

proof fn pixel_comes_out_alike<M: LayerMath>(
    math: M,
    source: OverlayFrame,
    placement: OverlayPlacement,
    size: (u32, u32),
    placed: Placed,
    rows: (u32, u32),
    f: Footprint,
    before: Seq<u8>,
    quick: Seq<u8>,
    full: Seq<u8>,
    q: int,
)
    requires
        answers_once(math),
        bytes_come_back(math),
        covering_reaches_all(math, source.design_size, size, placement),
        forall|c: Colour| #[trigger]
            seen(math, source, placement, size, c) && !c.a.at_most(Scalar { bits: ZERO }) ==> {
                &&& !c.a.at_most(Scalar { bits: FAINT })
                &&& kept_over_nothing(math, c)
            },
        visible_span(source, rows),
        placed_at(math, source.design_size, size, placement, placed),
        footprint_at(math, placed, place_request(source, placement, size, rows), f),
        footprint_of(math, place_request(source, placement, size, rows), Some(f)),
        0 <= q < size.0 * size.1,
        pixel(before, q).a == 0,
        pixel_drawn(math, source, f, true, size.0 as int, before, quick, q),
        pixel_drawn(math, source, f, false, size.0 as int, before, full, q),
    ensures
        pixel(quick, q) == pixel(full, q),
{
    let w = size.0 as int;
    let x = q % w;
    let y = q / w;
    let below = pixel(before, q);
    assert(w > 0) by (nonlinear_arith)
        requires
            0 <= q < size.0 * size.1,
            w == size.0,
    ;
    lemma_fundamental_div_mod(q, w);
    assert(0 <= x < w && 0 <= y < size.1) by (nonlinear_arith)
        requires
            w > 0,
            q == w * y + x,
            0 <= q < w * size.1,
            0 <= x < w,
    ;
    match sample_at(source, f, below, false, x, y) {
        None => {
            if fills(source, f, true) && f.holds(x, y) {
                assert(covers(placed));
                let i = x - f.x0;
                let j = y - f.y0;
                assert(tapped(
                    math,
                    (f.x0 + i) as u32,
                    placed.origin.0,
                    placed.fitted.0,
                    source.width,
                    f.columns@[i],
                ));
                assert(tapped(
                    math,
                    (f.y0 + j) as u32,
                    placed.origin.1,
                    placed.fitted.1,
                    source.height,
                    f.rows@[j],
                ));
                assert(false);
            }
            assert(sample_at(source, f, below, true, x, y) is None);
        },
        Some(s) => {
            assert(sample_at(source, f, s.below, s.canvas_is_empty, x, y) == Some(s));
            assert(sampled(source, f, s));
            let out = choose|out: Option<Pixel>|
                #[trigger] mixed(math, s, out) && pixel(full, q) == match out {
                    Some(p) => p,
                    None => s.below,
                };
            let c = choose|c: Colour|
                #[trigger] coloured(math, s, c) && mixed_with(math, s, c, out);
            assert(seen(math, source, placement, size, c));
            if fills(source, f, true) {
                assert(f.holds(x, y));
                let p = pixel(source.rgba@, 0);
                assert(p.a != 0) by {
                    assert(row_visible(source, rows.0 as int));
                    let k = choose|k: int|
                        0 <= k < source.width && #[trigger] pixel(
                            source.rgba@,
                            rows.0 * source.width + k,
                        ).a != 0;
                    assert(rows.0 * source.width + k == 0);
                }
                assert(s.top_left == p);
                assert(byte_part(math, p.a, c.a));
                let made = pixel(full, q);
                over_nothing(math, c, below, made);
                assert(made == p);
            } else {
                let t = Sample { canvas_is_empty: true, ..s };
                assert(sample_at(source, f, below, true, x, y) == Some(t));
                let drew = choose|drew: Option<Pixel>|
                    #[trigger] mixed(math, t, drew) && pixel(quick, q) == match drew {
                        Some(p) => p,
                        None => t.below,
                    };
                let d = choose|d: Colour|
                    #[trigger] coloured(math, t, d) && mixed_with(math, t, d, drew);
                coloured_once(math, s, t, c, d);
                if !c.a.at_most(Scalar { bits: ZERO }) {
                    over_nothing(math, c, below, pixel(full, q));
                }
            }
        },
    }
}

proof fn pixels_make_bytes(a: Seq<u8>, b: Seq<u8>, pixels: int)
    requires
        a.len() == pixels * 4,
        b.len() == pixels * 4,
        forall|q: int| 0 <= q < pixels ==> #[trigger] pixel(a, q) == pixel(b, q),
    ensures
        a == b,
{
    assert forall|k: int| 0 <= k < a.len() implies a[k] == b[k] by {
        let q = k / 4;
        assert(pixel(a, q) == pixel(b, q));
        assert(k == 4 * q || k == 4 * q + 1 || k == 4 * q + 2 || k == 4 * q + 3);
    }
    assert(a =~= b);
}

/// On a canvas on which nothing shows, an image comes out the same, byte for byte,
/// whether the canvas is known to be empty or every pixel is blended in full. That
/// holds of an image of one pixel that fills the canvas as of any other. It takes
/// arithmetic that answers alike when asked alike, that leaves a colour as it is
/// over nothing, and that gives back a byte taken apart; and no colour so faint that
/// the blend drops it.
pub proof fn empty_canvas_makes_no_difference<M: LayerMath>(
    math: M,
    source: OverlayFrame,
    placement: OverlayPlacement,
    size: (u32, u32),
    before: Seq<u8>,
    quick: Seq<u8>,
    full: Seq<u8>,
)
    requires
        answers_once(math),
        bytes_come_back(math),
        covering_reaches_all(math, source.design_size, size, placement),
        forall|c: Colour| #[trigger]
            seen(math, source, placement, size, c) && !c.a.at_most(Scalar { bits: ZERO }) ==> {
                &&& !c.a.at_most(Scalar { bits: FAINT })
                &&& kept_over_nothing(math, c)
            },
        before.len() == size.0 * size.1 * 4,
        forall|q: int| 0 <= q < size.0 * size.1 ==> #[trigger] pixel(before, q).a == 0,
        layer_drawn(math, source, placement, true, size, before, quick),
        layer_drawn(math, source, placement, false, size, before, full),
    ensures
        quick == full,
{
    if drawn_where_it_lands(math, source, placement, true, size, before, quick)
        && drawn_where_it_lands(math, source, placement, false, size, before, full) {
        let (rows, f) = choose|rows: (u32, u32), f: Footprint|
            {
                &&& visible_span(source, rows)
                &&& #[trigger] footprint_of(
                    math,
                    place_request(source, placement, size, rows),
                    Some(f),
                )
                &&& drawn(math, source, f, true, size, before, quick)
            };
        let (others, g) = choose|others: (u32, u32), g: Footprint|
            {
                &&& visible_span(source, others)
                &&& #[trigger] footprint_of(
                    math,
                    place_request(source, placement, size, others),
                    Some(g),
                )
                &&& drawn(math, source, g, false, size, before, full)
            };
        assert(rows == others) by {
            assert(row_visible(source, rows.0 as int) && row_visible(source, rows.1 as int));
            assert(row_visible(source, others.0 as int) && row_visible(source, others.1 as int));
        }
        let r = place_request(source, placement, size, rows);
        assert(placed_somewhere(math, r, f) && placed_somewhere(math, r, g));
        let placed = choose|placed: Placed|
            {
                &&& #[trigger] placed_at(math, r.design_size, r.output_size, r.placement, placed)
                &&& has_extent(placed)
                &&& footprint_at(math, placed, r, f)
            };
        let again = choose|again: Placed|
            {
                &&& #[trigger] placed_at(math, r.design_size, r.output_size, r.placement, again)
                &&& has_extent(again)
                &&& footprint_at(math, again, r, g)
            };
        placed_once(math, source.design_size, size, placement, placed, again);
        footprint_once(math, placed, r, f, g);
        let pixels = size.0 * size.1;
        assert forall|q: int| 0 <= q < pixels implies #[trigger] pixel(quick, q) == pixel(
            full,
            q,
        ) by {
            assert(pixel_drawn(math, source, f, true, size.0 as int, before, quick, q));
            assert(pixel_drawn(math, source, g, false, size.0 as int, before, full, q));
            assert(pixel_drawn(math, source, f, false, size.0 as int, before, full, q));
            pixel_comes_out_alike(
                math,
                source,
                placement,
                size,
                placed,
                rows,
                f,
                before,
                quick,
                full,
                q,
            );
        }
        pixels_make_bytes(quick, full, pixels);
    }
}

} // verus!
