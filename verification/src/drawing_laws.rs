//! How one image is drawn over another, in numbers.

use crate::layer_math::{
    across, beyond, bilinear, on_source, over, over_alpha, part_of, quantize, row_edge, LayerMath,
};
use crate::overlay::{
    contain_fit_render_scale, FitMath, OverlayFrame, OverlayFrameSource, OverlayPlacement,
};
use crate::overlay_layers::{
    blend_footprint, blend_pixel, coloured, composite_over, drawn, drawn_where_it_lands,
    empty_below, footprint, footprint_of, in_parts, layer_drawn, mixed, mixed_with,
    nothing_visible, opaque_row_bounds, over_pixel, pixel, pixel_drawn, place, place_request,
    row_visible, stack_of, visible_span, Colour, Footprint, LayeredOverlaySource, Pixel,
    PlaceRequest, Placed, Sample, Tap,
};
use crate::scalar::Scalar;
use vstd::arithmetic::div_mod::lemma_fundamental_div_mod_converse;
use vstd::prelude::*;

verus! {

pub open spec fn one() -> Scalar {
    Scalar { bits: 0x3f80_0000 }
}

pub open spec fn half() -> Scalar {
    Scalar { bits: 0x3f00_0000 }
}

pub open spec fn nought() -> Scalar {
    Scalar { bits: 0 }
}

pub open spec fn full_byte() -> Scalar {
    Scalar { bits: 0x437f_0000 }
}

/// An image is scaled by the smaller of the two ratios of the output to its design, so that
/// it fits whole, and by the scale of its placement. One without extent has only that.
pub proof fn an_image_is_scaled_to_fit<M: FitMath>(
    math: M,
    design: (u32, u32),
    output: (u32, u32),
    placement: OverlayPlacement,
    scale: Scalar,
)
    requires
        call_ensures(contain_fit_render_scale::<M>, (design, output, placement, &math), scale),
    ensures
        design.0 == 0 || design.1 == 0 ==> scale == placement.scale,
        design.0 != 0 && design.1 != 0 ==> is_fit(math, design, output, placement.scale, scale),
{
}

/// `scale` is the smaller of the ratios of an output to a design, times another scale.
pub open spec fn is_fit<M: FitMath>(
    math: M,
    design: (u32, u32),
    output: (u32, u32),
    by: Scalar,
    scale: Scalar,
) -> bool {
    exists|x: Scalar, y: Scalar, least: Scalar|
        {
            &&& #[trigger] call_ensures(M::quotient, (&math, output.0, design.0), x)
            &&& #[trigger] call_ensures(M::quotient, (&math, output.1, design.1), y)
            &&& least == x || least == y
            &&& !x.spec_is_nan() && !y.spec_is_nan() ==> least.at_most(x) && least.at_most(y)
            &&& x.spec_is_nan() ==> least == y
            &&& y.spec_is_nan() ==> least == x || x.spec_is_nan()
            &&& #[trigger] call_ensures(M::product, (&math, least, by), scale)
        }
}

/// One side of an image: its design times the scale, around the middle of the canvas,
/// shifted by a part of the canvas.
pub open spec fn is_side<M: LayerMath>(
    math: M,
    design: u32,
    output: u32,
    scale: Scalar,
    offset: Scalar,
    canvas: Scalar,
    fitted: Scalar,
    origin: Scalar,
    end: Scalar,
) -> bool {
    &&& call_ensures(M::whole, (&math, output as u64), canvas)
    &&& call_ensures(M::sum, (&math, origin, fitted), end)
    &&& exists|length: Scalar|
        #[trigger] call_ensures(M::whole, (&math, design as u64), length) && call_ensures(
            M::product,
            (&math, length, scale),
            fitted,
        )
    &&& exists|centre: Scalar, shift: Scalar, middle: Scalar, reach: Scalar|
        {
            &&& #[trigger] call_ensures(M::product, (&math, canvas, half()), centre)
            &&& #[trigger] call_ensures(M::product, (&math, offset, canvas), shift)
            &&& #[trigger] call_ensures(M::sum, (&math, centre, shift), middle)
            &&& #[trigger] call_ensures(M::product, (&math, fitted, half()), reach)
            &&& call_ensures(M::difference, (&math, middle, reach), origin)
        }
}

/// An image keeps its proportions, fits into the canvas but for its placement's scale, and
/// has its middle at the canvas's middle but for its placement's offset.
pub proof fn an_image_is_fitted_and_centred<M: LayerMath>(
    math: M,
    design: (u32, u32),
    output: (u32, u32),
    placement: OverlayPlacement,
    p: Placed,
) -> (scale: Scalar)
    requires
        call_ensures(place::<M>, (design, output, placement, &math), p),
    ensures
        is_fit(math, design, output, placement.scale, scale),
        is_side(
            math,
            design.0,
            output.0,
            scale,
            placement.offset.0,
            p.canvas.0,
            p.fitted.0,
            p.origin.0,
            p.end.0,
        ),
        is_side(
            math,
            design.1,
            output.1,
            scale,
            placement.offset.1,
            p.canvas.1,
            p.fitted.1,
            p.origin.1,
            p.end.1,
        ),
{
    let scale = choose|scale: Scalar|
        {
            &&& #[trigger] crate::overlay::contained(math, design, output, placement, scale)
            &&& crate::overlay_layers::side_placed(
                math,
                design.0,
                output.0,
                scale,
                placement.offset.0,
                p.canvas.0,
                p.fitted.0,
                p.origin.0,
                p.end.0,
            )
            &&& crate::overlay_layers::side_placed(
                math,
                design.1,
                output.1,
                scale,
                placement.offset.1,
                p.canvas.1,
                p.fitted.1,
                p.origin.1,
                p.end.1,
            )
        };
    scale
}

/// A row's upper edge is as far down the image on the canvas as the row is down the image.
pub proof fn a_row_is_as_far_down_on_the_canvas<M: LayerMath>(
    math: M,
    origin: Scalar,
    fitted: Scalar,
    row: u64,
    height: u32,
    edge: Scalar,
)
    requires
        call_ensures(row_edge::<M>, (origin, fitted, row, height, &math), edge),
    ensures
        exists|n: Scalar, all: Scalar, part: Scalar, down: Scalar|
            {
                &&& #[trigger] call_ensures(M::whole, (&math, row), n)
                &&& #[trigger] call_ensures(M::whole, (&math, height as u64), all)
                &&& #[trigger] call_ensures(M::ratio, (&math, n, all), part)
                &&& #[trigger] call_ensures(M::product, (&math, part, fitted), down)
                &&& call_ensures(M::sum, (&math, origin, down), edge)
            },
{
}

/// A pixel of the canvas is on an image where its middle is, as a part of the image.
pub proof fn a_pixel_is_where_its_middle_is<M: LayerMath>(
    math: M,
    at: u32,
    origin: Scalar,
    fitted: Scalar,
    part: Scalar,
)
    requires
        call_ensures(across::<M>, (at, origin, fitted, &math), part),
    ensures
        exists|n: Scalar, middle: Scalar, along: Scalar, inverse: Scalar|
            {
                &&& #[trigger] call_ensures(M::whole, (&math, at as u64), n)
                &&& #[trigger] call_ensures(M::sum, (&math, n, half()), middle)
                &&& #[trigger] call_ensures(M::difference, (&math, middle, origin), along)
                &&& #[trigger] call_ensures(M::ratio, (&math, one(), fitted), inverse)
                &&& call_ensures(M::product, (&math, along, inverse), part)
            },
{
    assert(half() == (Scalar { bits: crate::scalar::HALF }));
    assert(one() == (Scalar { bits: crate::scalar::ONE }));
    let (n, middle, along, scale) = choose|
        n: Scalar,
        middle: Scalar,
        along: Scalar,
        scale: Scalar,
    |
        {
            &&& #[trigger] call_ensures(M::whole, (&math, at as u64), n)
            &&& #[trigger] call_ensures(
                M::sum,
                (&math, n, Scalar { bits: crate::scalar::HALF }),
                middle,
            )
            &&& #[trigger] call_ensures(M::difference, (&math, middle, origin), along)
            &&& #[trigger] call_ensures(
                M::ratio,
                (&math, Scalar { bits: crate::scalar::ONE }, fitted),
                scale,
            )
            &&& call_ensures(M::product, (&math, along, scale), part)
        };
    assert(call_ensures(M::sum, (&math, n, half()), middle));
    assert(call_ensures(M::ratio, (&math, one(), fitted), scale));
}

/// On the image's own pixels that is the same part, counted from the middle of the first.
pub proof fn a_part_is_counted_from_the_first_middle<M: LayerMath>(
    math: M,
    part: Scalar,
    size: u32,
    raw: Scalar,
    x: Scalar,
    near: u32,
    past: Scalar,
)
    requires
        call_ensures(on_source::<M>, (part, size, &math), raw),
        call_ensures(beyond::<M>, (x, near, &math), past),
    ensures
        exists|n: Scalar, along: Scalar|
            {
                &&& #[trigger] call_ensures(M::whole, (&math, size as u64), n)
                &&& #[trigger] call_ensures(M::product, (&math, part, n), along)
                &&& call_ensures(M::difference, (&math, along, half()), raw)
            },
        exists|n: Scalar|
            {
                &&& #[trigger] call_ensures(M::whole, (&math, near as u64), n)
                &&& call_ensures(M::difference, (&math, x, n), past)
            },
{
}

/// `x` is so much of the way from one number to another.
pub open spec fn is_mix<M: LayerMath>(
    math: M,
    from: Scalar,
    to: Scalar,
    weight: Scalar,
    x: Scalar,
) -> bool {
    exists|rest: Scalar, a: Scalar, b: Scalar|
        {
            &&& #[trigger] call_ensures(M::difference, (&math, one(), weight), rest)
            &&& #[trigger] call_ensures(M::product, (&math, from, rest), a)
            &&& #[trigger] call_ensures(M::product, (&math, to, weight), b)
            &&& call_ensures(M::sum, (&math, a, b), x)
        }
}

/// Between four pixels, given as upper left, upper right, lower left and lower right, a
/// component is mixed across by the first weight and then down by the second.
pub proof fn four_pixels_are_mixed_across_and_down<M: LayerMath>(
    math: M,
    four: (u8, u8, u8, u8),
    x_weight: Scalar,
    y_weight: Scalar,
    part: Scalar,
)
    requires
        call_ensures(bilinear::<M>, (four, x_weight, y_weight, &math), part),
    ensures
        is_mix_of_four(math, four.0, four.1, four.2, four.3, x_weight, y_weight, part),
{
    let x = choose|x: Scalar|
        {
            &&& #[trigger] crate::layer_math::between_four(math, four, x_weight, y_weight, x)
            &&& call_ensures(
                M::ratio,
                (&math, x, Scalar { bits: crate::layer_math::BYTE }),
                part,
            )
        };
    let (a, b, c, d, top, bottom) = choose|
        a: Scalar,
        b: Scalar,
        c: Scalar,
        d: Scalar,
        top: Scalar,
        bottom: Scalar,
    |
        {
            &&& #[trigger] call_ensures(M::whole, (&math, four.0 as u64), a)
            &&& #[trigger] call_ensures(M::whole, (&math, four.1 as u64), b)
            &&& #[trigger] call_ensures(M::whole, (&math, four.2 as u64), c)
            &&& #[trigger] call_ensures(M::whole, (&math, four.3 as u64), d)
            &&& #[trigger] crate::layer_math::between(math, a, b, x_weight, top)
            &&& #[trigger] crate::layer_math::between(math, c, d, x_weight, bottom)
            &&& crate::layer_math::between(math, top, bottom, y_weight, x)
        };
    assert(is_mix(math, a, b, x_weight, top));
    assert(is_mix(math, c, d, x_weight, bottom));
    assert(is_mix(math, top, bottom, y_weight, x));
}

pub open spec fn is_mix_of_four<M: LayerMath>(
    math: M,
    upper_left: u8,
    upper_right: u8,
    lower_left: u8,
    lower_right: u8,
    x_weight: Scalar,
    y_weight: Scalar,
    part: Scalar,
) -> bool {
    exists|
        a: Scalar,
        b: Scalar,
        c: Scalar,
        d: Scalar,
        top: Scalar,
        bottom: Scalar,
        mixed: Scalar,
    |
        {
            &&& call_ensures(M::whole, (&math, upper_left as u64), a)
            &&& call_ensures(M::whole, (&math, upper_right as u64), b)
            &&& call_ensures(M::whole, (&math, lower_left as u64), c)
            &&& call_ensures(M::whole, (&math, lower_right as u64), d)
            &&& #[trigger] is_mix(math, a, b, x_weight, top)
            &&& #[trigger] is_mix(math, c, d, x_weight, bottom)
            &&& #[trigger] is_mix(math, top, bottom, y_weight, mixed)
            &&& call_ensures(M::ratio, (&math, mixed, full_byte()), part)
        }
}

/// A byte is a part of 255.
pub open spec fn is_part<M: LayerMath>(math: M, byte: u8, part: Scalar) -> bool {
    exists|n: Scalar|
        {
            &&& #[trigger] call_ensures(M::whole, (&math, byte as u64), n)
            &&& call_ensures(M::ratio, (&math, n, full_byte()), part)
        }
}

pub proof fn a_byte_is_a_part_of_255<M: LayerMath>(math: M, byte: u8, part: Scalar)
    requires
        call_ensures(part_of::<M>, (byte, &math), part),
    ensures
        is_part(math, byte, part),
{
}

/// A part is the nearest byte of 255, held between nought and one.
pub proof fn a_part_is_the_nearest_byte<M: LayerMath>(math: M, part: Scalar, byte: u8)
    requires
        call_ensures(quantize::<M>, (part, &math), byte),
    ensures
        is_nearest_byte(math, part, byte),
{
    nearest_byte(math, part, byte);
}

pub open spec fn is_nearest_byte<M: LayerMath>(math: M, part: Scalar, byte: u8) -> bool {
    exists|held: Scalar, x: Scalar|
        {
            &&& part.below(nought()) ==> held == nought()
            &&& one().below(part) ==> held == one()
            &&& !part.below(nought()) && !one().below(part) ==> held == part
            &&& #[trigger] call_ensures(M::product, (&math, held, full_byte()), x)
            &&& call_ensures(M::nearest, (&math, x), byte)
        }
}

proof fn nearest_byte<M: LayerMath>(math: M, part: Scalar, byte: u8)
    requires
        crate::layer_math::quantized(math, part, byte),
    ensures
        is_nearest_byte(math, part, byte),
{
    let held = part.spec_clamp(
        Scalar { bits: crate::scalar::ZERO },
        Scalar { bits: crate::scalar::ONE },
    );
    let x = choose|x: Scalar|
        {
            &&& #[trigger] call_ensures(
                M::product,
                (&math, held, Scalar { bits: crate::layer_math::BYTE }),
                x,
            )
            &&& call_ensures(M::nearest, (&math, x), byte)
        };
    assert(call_ensures(M::product, (&math, held, full_byte()), x));
}

/// What two opacities come to: the upper one, and of the lower one what the upper leaves.
pub open spec fn is_joint_opacity<M: LayerMath>(
    math: M,
    upper: Scalar,
    lower: Scalar,
    both: Scalar,
) -> bool {
    exists|rest: Scalar, left: Scalar|
        {
            &&& #[trigger] call_ensures(M::difference, (&math, one(), upper), rest)
            &&& #[trigger] call_ensures(M::product, (&math, lower, rest), left)
            &&& call_ensures(M::sum, (&math, upper, left), both)
        }
}

/// One component of an upper colour over a lower one: each weighted by its opacity, the
/// lower one also by what the upper leaves, over the opacity of both.
pub open spec fn is_joint_component<M: LayerMath>(
    math: M,
    upper: Scalar,
    upper_alpha: Scalar,
    lower: Scalar,
    lower_alpha: Scalar,
    both: Scalar,
    x: Scalar,
) -> bool {
    exists|
        own: Scalar,
        under: Scalar,
        rest: Scalar,
        left: Scalar,
        joined: Scalar,
        inverse: Scalar,
    |
        {
            &&& #[trigger] call_ensures(M::product, (&math, upper, upper_alpha), own)
            &&& #[trigger] call_ensures(M::product, (&math, lower, lower_alpha), under)
            &&& #[trigger] call_ensures(M::difference, (&math, one(), upper_alpha), rest)
            &&& #[trigger] call_ensures(M::product, (&math, under, rest), left)
            &&& #[trigger] call_ensures(M::sum, (&math, own, left), joined)
            &&& #[trigger] call_ensures(M::ratio, (&math, one(), both), inverse)
            &&& call_ensures(M::product, (&math, joined, inverse), x)
        }
}

pub proof fn colours_are_laid_over_each_other<M: LayerMath>(
    math: M,
    upper: Scalar,
    upper_alpha: Scalar,
    lower: Scalar,
    lower_alpha: Scalar,
    both: Scalar,
    x: Scalar,
)
    requires
        call_ensures(over_alpha::<M>, (upper_alpha, lower_alpha, &math), both),
        call_ensures(over::<M>, (upper, upper_alpha, lower, lower_alpha, both, &math), x),
    ensures
        is_joint_opacity(math, upper_alpha, lower_alpha, both),
        is_joint_component(math, upper, upper_alpha, lower, lower_alpha, both, x),
{
}

/// One component of what an image shows at a pixel of the canvas: between its four pixels
/// around, or that of its only pixel.
pub open spec fn is_shown<M: LayerMath>(
    math: M,
    s: Sample,
    upper_left: u8,
    upper_right: u8,
    lower_left: u8,
    lower_right: u8,
    part: Scalar,
) -> bool {
    &&& s.flat ==> is_part(math, upper_left, part)
    &&& !s.flat ==> is_mix_of_four(
        math,
        upper_left,
        upper_right,
        lower_left,
        lower_right,
        s.x_weight,
        s.y_weight,
        part,
    )
}

/// The colour `c` is what an image shows at a pixel of the canvas.
pub open spec fn is_colour_of<M: LayerMath>(math: M, s: Sample, c: Colour) -> bool {
    let (a, b, d, e) = (s.top_left, s.top_right, s.bottom_left, s.bottom_right);
    &&& is_shown(math, s, a.r, b.r, d.r, e.r, c.r)
    &&& is_shown(math, s, a.g, b.g, d.g, e.g, c.g)
    &&& is_shown(math, s, a.b, b.b, d.b, e.b, c.b)
    &&& is_shown(math, s, a.a, b.a, d.a, e.a, c.a)
}

/// The pixel `p` is a colour, in bytes.
pub open spec fn is_in_bytes<M: LayerMath>(math: M, c: Colour, p: Pixel) -> bool {
    &&& is_nearest_byte(math, c.r, p.r)
    &&& is_nearest_byte(math, c.g, p.g)
    &&& is_nearest_byte(math, c.b, p.b)
    &&& is_nearest_byte(math, c.a, p.a)
}

/// The pixel `p` is a colour over the pixel `below`; where both together are fainter than
/// 0.0001 it is nothing.
pub open spec fn is_over<M: LayerMath>(math: M, c: Colour, below: Pixel, p: Pixel) -> bool {
    exists|under: Colour, both: Scalar|
        {
            &&& #[trigger] is_in_parts(math, below, under)
            &&& #[trigger] is_joint_opacity(math, c.a, under.a, both)
            &&& both.at_most(Scalar { bits: 0x38d1_b717 }) ==> p == (Pixel {
                r: 0,
                g: 0,
                b: 0,
                a: 0,
            })
            &&& !both.at_most(Scalar { bits: 0x38d1_b717 }) ==> is_joined(math, c, under, both, p)
        }
}

/// The colour `c` is a pixel, in parts of one.
pub open spec fn is_in_parts<M: LayerMath>(math: M, p: Pixel, c: Colour) -> bool {
    &&& is_part(math, p.r, c.r)
    &&& is_part(math, p.g, c.g)
    &&& is_part(math, p.b, c.b)
    &&& is_part(math, p.a, c.a)
}

pub open spec fn is_joined<M: LayerMath>(
    math: M,
    c: Colour,
    under: Colour,
    both: Scalar,
    p: Pixel,
) -> bool {
    &&& joins_to(math, c.r, c.a, under.r, under.a, both, p.r)
    &&& joins_to(math, c.g, c.a, under.g, under.a, both, p.g)
    &&& joins_to(math, c.b, c.a, under.b, under.a, both, p.b)
    &&& is_nearest_byte(math, both, p.a)
}

pub open spec fn joins_to<M: LayerMath>(
    math: M,
    upper: Scalar,
    upper_alpha: Scalar,
    lower: Scalar,
    lower_alpha: Scalar,
    both: Scalar,
    byte: u8,
) -> bool {
    exists|x: Scalar|
        {
            &&& #[trigger] is_joint_component(
                math,
                upper,
                upper_alpha,
                lower,
                lower_alpha,
                both,
                x,
            )
            &&& is_nearest_byte(math, x, byte)
        }
}

/// What becomes of a pixel under a sample of the image: nothing where the image shows
/// nothing, the image's colour on an empty canvas, and else that colour over the pixel.
pub open spec fn is_blend<M: LayerMath>(math: M, s: Sample, out: Option<Pixel>) -> bool {
    exists|c: Colour|
        {
            &&& #[trigger] is_colour_of(math, s, c)
            &&& out is None <==> c.a.at_most(nought())
            &&& out matches Some(p) ==> {
                &&& s.canvas_is_empty ==> is_in_bytes(math, c, p)
                &&& !s.canvas_is_empty ==> is_over(math, c, s.below, p)
            }
        }
}

proof fn shown_component<M: LayerMath>(
    math: M,
    s: Sample,
    four: (u8, u8, u8, u8),
    part: Scalar,
)
    requires
        crate::overlay_layers::component_of(math, s, four, part),
    ensures
        is_shown(math, s, four.0, four.1, four.2, four.3, part),
{
    if s.flat {
        let n = choose|n: Scalar|
            {
                &&& #[trigger] call_ensures(M::whole, (&math, four.0 as u64), n)
                &&& call_ensures(
                    M::ratio,
                    (&math, n, Scalar { bits: crate::layer_math::BYTE }),
                    part,
                )
            };
        assert(is_part(math, four.0, part));
    } else {
        let x = choose|x: Scalar|
            {
                &&& #[trigger] crate::layer_math::between_four(
                    math,
                    four,
                    s.x_weight,
                    s.y_weight,
                    x,
                )
                &&& call_ensures(
                    M::ratio,
                    (&math, x, Scalar { bits: crate::layer_math::BYTE }),
                    part,
                )
            };
        let (a, b, c, d, top, bottom) = choose|
            a: Scalar,
            b: Scalar,
            c: Scalar,
            d: Scalar,
            top: Scalar,
            bottom: Scalar,
        |
            {
                &&& #[trigger] call_ensures(M::whole, (&math, four.0 as u64), a)
                &&& #[trigger] call_ensures(M::whole, (&math, four.1 as u64), b)
                &&& #[trigger] call_ensures(M::whole, (&math, four.2 as u64), c)
                &&& #[trigger] call_ensures(M::whole, (&math, four.3 as u64), d)
                &&& #[trigger] crate::layer_math::between(math, a, b, s.x_weight, top)
                &&& #[trigger] crate::layer_math::between(math, c, d, s.x_weight, bottom)
                &&& crate::layer_math::between(math, top, bottom, s.y_weight, x)
            };
        assert(is_mix(math, a, b, s.x_weight, top));
        assert(is_mix(math, c, d, s.x_weight, bottom));
        assert(is_mix(math, top, bottom, s.y_weight, x));
    }
}

proof fn component_joins<M: LayerMath>(
    math: M,
    upper: Scalar,
    upper_alpha: Scalar,
    lower: Scalar,
    lower_alpha: Scalar,
    both: Scalar,
    byte: u8,
)
    requires
        crate::overlay_layers::component_over(
            math,
            upper,
            upper_alpha,
            lower,
            lower_alpha,
            both,
            byte,
        ),
    ensures
        joins_to(math, upper, upper_alpha, lower, lower_alpha, both, byte),
{
    let x = choose|x: Scalar|
        {
            &&& #[trigger] crate::layer_math::weighted_over(
                math,
                upper,
                upper_alpha,
                lower,
                lower_alpha,
                both,
                x,
            )
            &&& crate::layer_math::quantized(math, x, byte)
        };
    nearest_byte(math, x, byte);
    assert(is_joint_component(math, upper, upper_alpha, lower, lower_alpha, both, x));
}

proof fn byte_is_part<M: LayerMath>(math: M, byte: u8, part: Scalar)
    requires
        crate::layer_math::byte_part(math, byte, part),
    ensures
        is_part(math, byte, part),
{
}

proof fn over_is_over<M: LayerMath>(math: M, c: Colour, below: Pixel, p: Pixel)
    requires
        over_pixel(math, c, below, p),
    ensures
        is_over(math, c, below, p),
{
    let (under, both) = choose|under: Colour, both: Scalar|
        {
            &&& #[trigger] in_parts(math, below, under)
            &&& #[trigger] crate::layer_math::alpha_over(math, c.a, under.a, both)
            &&& crate::overlay_layers::laid_over(math, c, under, both, p)
        };
    byte_is_part(math, below.r, under.r);
    byte_is_part(math, below.g, under.g);
    byte_is_part(math, below.b, under.b);
    byte_is_part(math, below.a, under.a);
    assert(is_in_parts(math, below, under));
    assert(is_joint_opacity(math, c.a, under.a, both));
    if !both.at_most(Scalar { bits: crate::overlay_layers::FAINT }) {
        component_joins(math, c.r, c.a, under.r, under.a, both, p.r);
        component_joins(math, c.g, c.a, under.g, under.a, both, p.g);
        component_joins(math, c.b, c.a, under.b, under.a, both, p.b);
        nearest_byte(math, both, p.a);
        assert(is_joined(math, c, under, both, p));
    }
}

proof fn mixed_is_blend<M: LayerMath>(math: M, s: Sample, out: Option<Pixel>)
    requires
        mixed(math, s, out),
    ensures
        is_blend(math, s, out),
{
    let c = choose|c: Colour| #[trigger] coloured(math, s, c) && mixed_with(math, s, c, out);
    let (a, b, d, e) = (s.top_left, s.top_right, s.bottom_left, s.bottom_right);
    shown_component(math, s, (a.r, b.r, d.r, e.r), c.r);
    shown_component(math, s, (a.g, b.g, d.g, e.g), c.g);
    shown_component(math, s, (a.b, b.b, d.b, e.b), c.b);
    shown_component(math, s, (a.a, b.a, d.a, e.a), c.a);
    assert(is_colour_of(math, s, c));
    if let Some(p) = out {
        if s.canvas_is_empty {
            nearest_byte(math, c.r, p.r);
            nearest_byte(math, c.g, p.g);
            nearest_byte(math, c.b, p.b);
            nearest_byte(math, c.a, p.a);
        } else {
            over_is_over(math, c, s.below, p);
        }
    }
}

pub proof fn a_pixel_is_blended<M: LayerMath>(math: M, s: Sample, out: Option<Pixel>)
    requires
        call_ensures(blend_pixel::<M>, (&s, &math), out),
    ensures
        is_blend(math, s, out),
{
    mixed_is_blend(math, s, out);
}

/// The four pixels of an image around a place: the one at the column and the row, its right
/// neighbour, its lower neighbour and the one across, each the same again at the edge.
pub open spec fn is_sample_around(
    source: OverlayFrame,
    column: Tap,
    row: Tap,
    below: Pixel,
    empty: bool,
    s: Sample,
) -> bool {
    let w = source.width as int;
    let x = column.near as int;
    let y = row.near as int;
    let right = if x + 1 < w {
        x + 1
    } else {
        w - 1
    };
    let down = if y + 1 < source.height {
        y + 1
    } else {
        source.height - 1
    };
    &&& is_pixel(source.rgba@, y * w + x, s.top_left)
    &&& is_pixel(source.rgba@, y * w + right, s.top_right)
    &&& is_pixel(source.rgba@, down * w + x, s.bottom_left)
    &&& is_pixel(source.rgba@, down * w + right, s.bottom_right)
    &&& s.x_weight == column.weight
    &&& s.y_weight == row.weight
    &&& s.flat <==> source.width == 1 && source.height == 1
    &&& s.canvas_is_empty == empty
    &&& s.below == below
}

/// The q-th pixel of an image of four bytes to the pixel: red, green, blue and opacity.
pub open spec fn is_pixel(rgba: Seq<u8>, q: int, p: Pixel) -> bool {
    &&& p.r == rgba[4 * q]
    &&& p.g == rgba[4 * q + 1]
    &&& p.b == rgba[4 * q + 2]
    &&& p.a == rgba[4 * q + 3]
}

/// What becomes of the canvas pixel in a column and a row: outside the rectangle, or where
/// it misses the image, it stays. A single pixel that covers an empty canvas fills the
/// rectangle. Else it is blended with what the image shows there.
pub open spec fn is_drawn_at<M: LayerMath>(
    math: M,
    source: OverlayFrame,
    f: Footprint,
    empty: bool,
    x: int,
    y: int,
    before: Pixel,
    after: Pixel,
) -> bool {
    let inside = f.x0 <= x < f.x1 && f.y0 <= y < f.y1;
    let fill = source.width == 1 && source.height == 1 && empty && f.covers_canvas;
    &&& !inside ==> after == before
    &&& inside && fill ==> is_pixel(source.rgba@, 0, after)
    &&& inside && !fill ==> match (f.columns@[x - f.x0], f.rows@[y - f.y0]) {
        (Some(column), Some(row)) => exists|s: Sample, out: Option<Pixel>|
            {
                &&& is_sample_around(source, column, row, before, empty, s)
                &&& #[trigger] is_blend(math, s, out)
                &&& after == match out {
                    Some(p) => p,
                    None => before,
                }
            },
        _ => after == before,
    }
}

/// The same of the pixel in a column and a row of a canvas so many pixels wide.
pub open spec fn is_drawn_in<M: LayerMath>(
    math: M,
    source: OverlayFrame,
    f: Footprint,
    empty: bool,
    width: u32,
    before: Seq<u8>,
    after: Seq<u8>,
    x: int,
    y: int,
) -> bool {
    is_drawn_at(
        math,
        source,
        f,
        empty,
        x,
        y,
        pixel(before, y * width + x),
        pixel(after, y * width + x),
    )
}

/// Drawing an image in a rectangle does that to every pixel of the canvas.
pub proof fn every_pixel_is_drawn_in_its_place<M: LayerMath>(math: M)
    ensures
        forall|canvas: &mut OverlayFrame, source: &OverlayFrame, f: &Footprint, empty: bool|
            #[trigger]
            call_ensures(blend_footprint::<M>, (canvas, source, f, empty, &math), ()) ==> {
                &&& final(canvas).width == canvas.width
                &&& final(canvas).height == canvas.height
                &&& forall|x: int, y: int|
                    0 <= x < canvas.width && 0 <= y < canvas.height ==> #[trigger] is_drawn_in(
                        math,
                        *source,
                        *f,
                        empty,
                        canvas.width,
                        canvas.rgba@,
                        final(canvas).rgba@,
                        x,
                        y,
                    )
            },
{
    assert forall|canvas: &mut OverlayFrame, source: &OverlayFrame, f: &Footprint, empty: bool|
        #[trigger]
        call_ensures(blend_footprint::<M>, (canvas, source, f, empty, &math), ()) implies {
        &&& final(canvas).width == canvas.width
        &&& final(canvas).height == canvas.height
        &&& forall|x: int, y: int|
            0 <= x < canvas.width && 0 <= y < canvas.height ==> #[trigger] is_drawn_in(
                math,
                *source,
                *f,
                empty,
                canvas.width,
                canvas.rgba@,
                final(canvas).rgba@,
                x,
                y,
            )
    } by {
        assert forall|x: int, y: int|
            0 <= x < canvas.width && 0 <= y < canvas.height implies #[trigger] is_drawn_in(
            math,
            *source,
            *f,
            empty,
            canvas.width,
            canvas.rgba@,
            final(canvas).rgba@,
            x,
            y,
        ) by {
            drawn_pixel_is_drawn(
                math,
                *source,
                *f,
                empty,
                (canvas.width, canvas.height),
                canvas.rgba@,
                final(canvas).rgba@,
                x,
                y,
            );
        }
    }
}

proof fn drawn_pixel_is_drawn<M: LayerMath>(
    math: M,
    source: OverlayFrame,
    f: Footprint,
    empty: bool,
    size: (u32, u32),
    before: Seq<u8>,
    after: Seq<u8>,
    x: int,
    y: int,
)
    requires
        drawn(math, source, f, empty, size, before, after),
        0 <= x < size.0,
        0 <= y < size.1,
    ensures
        is_drawn_at(
            math,
            source,
            f,
            empty,
            x,
            y,
            pixel(before, y * size.0 + x),
            pixel(after, y * size.0 + x),
        ),
{
    let w = size.0 as int;
    let q = y * w + x;
    assert(0 <= q < size.0 * size.1) by (nonlinear_arith)
        requires
            q == y * w + x,
            w == size.0,
            0 <= x < w,
            0 <= y,
            y + 1 <= size.1,
    ;
    lemma_fundamental_div_mod_converse(q, w, y, x);
    assert(pixel_drawn(math, source, f, empty, w, before, after, q));
    let below = pixel(before, q);
    if f.x0 <= x < f.x1 && f.y0 <= y < f.y1 && !(source.width == 1 && source.height == 1 && empty
        && f.covers_canvas) {
        match (f.columns@[x - f.x0], f.rows@[y - f.y0]) {
            (Some(column), Some(row)) => {
                let s = crate::overlay_layers::sample_at(source, f, below, empty, x, y)->0;
                let out = choose|out: Option<Pixel>|
                    #[trigger] mixed(math, s, out) && pixel(after, q) == match out {
                        Some(p) => p,
                        None => s.below,
                    };
                mixed_is_blend(math, s, out);
                assert(is_sample_around(source, column, row, below, empty, s));
            },
            _ => {},
        }
    }
}

pub open spec fn is_edge<M: LayerMath>(
    math: M,
    origin: Scalar,
    fitted: Scalar,
    row: u64,
    height: u32,
    edge: Scalar,
) -> bool {
    exists|n: Scalar, all: Scalar, part: Scalar, down: Scalar|
        {
            &&& #[trigger] call_ensures(M::whole, (&math, row), n)
            &&& #[trigger] call_ensures(M::whole, (&math, height as u64), all)
            &&& #[trigger] call_ensures(M::ratio, (&math, n, all), part)
            &&& #[trigger] call_ensures(M::product, (&math, part, fitted), down)
            &&& call_ensures(M::sum, (&math, origin, down), edge)
        }
}

pub open spec fn is_across<M: LayerMath>(
    math: M,
    at: u32,
    origin: Scalar,
    fitted: Scalar,
    part: Scalar,
) -> bool {
    exists|n: Scalar, middle: Scalar, along: Scalar, inverse: Scalar|
        {
            &&& #[trigger] call_ensures(M::whole, (&math, at as u64), n)
            &&& #[trigger] call_ensures(
                M::sum,
                (&math, n, Scalar { bits: 0x3f00_0000 }),
                middle,
            )
            &&& #[trigger] call_ensures(M::difference, (&math, middle, origin), along)
            &&& #[trigger] call_ensures(
                M::ratio,
                (&math, Scalar { bits: 0x3f80_0000 }, fitted),
                inverse,
            )
            &&& call_ensures(M::product, (&math, along, inverse), part)
        }
}

pub open spec fn is_along<M: LayerMath>(math: M, part: Scalar, size: u32, raw: Scalar) -> bool {
    exists|n: Scalar, along: Scalar|
        {
            &&& #[trigger] call_ensures(M::whole, (&math, size as u64), n)
            &&& #[trigger] call_ensures(M::product, (&math, part, n), along)
            &&& call_ensures(M::difference, (&math, along, Scalar { bits: 0x3f00_0000 }), raw)
        }
}

pub open spec fn is_past<M: LayerMath>(math: M, x: Scalar, near: u32, past: Scalar) -> bool {
    exists|n: Scalar|
        {
            &&& #[trigger] call_ensures(M::whole, (&math, near as u64), n)
            &&& call_ensures(M::difference, (&math, x, n), past)
        }
}

/// `m` is the larger of two numbers; a number that is none gives way.
pub open spec fn is_larger(a: Scalar, b: Scalar, m: Scalar) -> bool {
    &&& m == a || m == b
    &&& a.spec_is_nan() ==> m == b
    &&& !a.spec_is_nan() && b.spec_is_nan() ==> m == a
    &&& !a.spec_is_nan() && !b.spec_is_nan() ==> a.at_most(m) && b.at_most(m)
}

/// `m` is the smaller of two numbers; a number that is none gives way.
pub open spec fn is_smaller(a: Scalar, b: Scalar, m: Scalar) -> bool {
    &&& m == a || m == b
    &&& a.spec_is_nan() ==> m == b
    &&& !a.spec_is_nan() && b.spec_is_nan() ==> m == a
    &&& !a.spec_is_nan() && !b.spec_is_nan() ==> m.at_most(a) && m.at_most(b)
}

/// `n` is the first whole pixel at or before a place, and not before the canvas.
pub open spec fn is_first_pixel<M: LayerMath>(math: M, x: Scalar, n: u32) -> bool {
    exists|m: Scalar|
        is_larger(x, nought(), m) && #[trigger] call_ensures(M::floor, (&math, m), n)
}

/// `n` is the first whole pixel at or after a place, and not after the last of `size`.
pub open spec fn is_past_pixel<M: LayerMath>(math: M, x: Scalar, size: u32, n: u32) -> bool {
    exists|up: u32|
        #[trigger] call_ensures(M::ceil, (&math, x), up) && n <= up && n <= size && (n == up || n
            == size)
}

/// A pixel of the canvas is on the image if its middle is between the image's edges. Then
/// it falls on a place among the image's pixels, held between the middle of the first and
/// that of the last: on the pixel before that, and so far past it.
pub open spec fn is_tap<M: LayerMath>(
    math: M,
    at: u32,
    origin: Scalar,
    fitted: Scalar,
    size: u32,
    tap: Option<Tap>,
) -> bool {
    exists|part: Scalar|
        {
            &&& #[trigger] is_across(math, at, origin, fitted, part)
            &&& tap is Some <==> nought().at_most(part) && part.at_most(Scalar {
                bits: 0x3f80_0000,
            })
            &&& tap matches Some(t) ==> is_tap_at(math, part, size, t)
        }
}

pub open spec fn is_tap_at<M: LayerMath>(math: M, part: Scalar, size: u32, t: Tap) -> bool {
    exists|raw: Scalar, last: Scalar, low: Scalar, held: Scalar, n: u32|
        {
            &&& #[trigger] is_along(math, part, size, raw)
            &&& #[trigger] call_ensures(M::whole, (&math, (size - 1) as u64), last)
            &&& #[trigger] is_larger(raw, nought(), low)
            &&& #[trigger] is_smaller(low, last, held)
            &&& #[trigger] call_ensures(M::floor, (&math, held), n)
            &&& n < size ==> t.near == n
            &&& n >= size ==> t.near == size - 1
            &&& is_past(math, held, t.near, t.weight)
        }
}

/// An image that lands at `placed` is drawn in a rectangle: from its edges inwards to whole
/// pixels of the canvas, and only as far up and down as its visible rows reach, with one
/// row more on either side. Each column and row of the rectangle falls where its middle is.
pub open spec fn is_footprint<M: LayerMath>(
    math: M,
    placed: Placed,
    r: PlaceRequest,
    f: Footprint,
) -> bool {
    &&& is_first_pixel(math, placed.origin.0, f.x0)
    &&& exists|right: Scalar|
        #[trigger] is_smaller(placed.end.0, placed.canvas.0, right) && is_past_pixel(
            math,
            right,
            r.output_size.0,
            f.x1,
        )
    &&& is_first_row(math, placed, r, f.y0)
    &&& is_past_row(math, placed, r, f.y1)
    &&& f.columns@.len() == if f.x0 <= f.x1 {
        f.x1 - f.x0
    } else {
        0
    }
    &&& f.rows@.len() == if f.y0 <= f.y1 {
        f.y1 - f.y0
    } else {
        0
    }
    &&& forall|i: int|
        0 <= i < f.columns@.len() ==> is_tap(
            math,
            (f.x0 + i) as u32,
            placed.origin.0,
            placed.fitted.0,
            r.source_size.0,
            #[trigger] f.columns@[i],
        )
    &&& forall|i: int|
        0 <= i < f.rows@.len() ==> is_tap(
            math,
            (f.y0 + i) as u32,
            placed.origin.1,
            placed.fitted.1,
            r.source_size.1,
            #[trigger] f.rows@[i],
        )
    &&& f.covers_canvas <==> placed.origin.0.at_most(nought()) && placed.origin.1.at_most(nought())
        && placed.canvas.0.at_most(placed.end.0) && placed.canvas.1.at_most(placed.end.1)
}

pub open spec fn is_first_row<M: LayerMath>(
    math: M,
    placed: Placed,
    r: PlaceRequest,
    y0: u32,
) -> bool {
    exists|above: u64, edge: Scalar, a: u32, b: u32|
        {
            &&& r.visible_rows.0 > 0 ==> above == r.visible_rows.0 - 1
            &&& r.visible_rows.0 == 0 ==> above == 0
            &&& #[trigger] is_edge(
                math,
                placed.origin.1,
                placed.fitted.1,
                above,
                r.source_size.1,
                edge,
            )
            &&& #[trigger] is_first_pixel(math, placed.origin.1, a)
            &&& #[trigger] is_first_pixel(math, edge, b)
            &&& a <= y0 && b <= y0 && (y0 == a || y0 == b)
        }
}

pub open spec fn is_past_row<M: LayerMath>(
    math: M,
    placed: Placed,
    r: PlaceRequest,
    y1: u32,
) -> bool {
    exists|edge: Scalar, bottom: Scalar, low: Scalar, a: u32, b: u32|
        {
            &&& #[trigger] is_edge(
                math,
                placed.origin.1,
                placed.fitted.1,
                (r.visible_rows.1 + 2) as u64,
                r.source_size.1,
                edge,
            )
            &&& #[trigger] is_smaller(placed.end.1, placed.canvas.1, bottom)
            &&& #[trigger] is_larger(edge, nought(), low)
            &&& #[trigger] is_past_pixel(math, bottom, r.output_size.1, a)
            &&& #[trigger] is_past_pixel(math, low, r.output_size.1, b)
            &&& y1 <= a && y1 <= b && (y1 == a || y1 == b)
        }
}

proof fn across_is_across<M: LayerMath>(
    math: M,
    at: u32,
    origin: Scalar,
    fitted: Scalar,
    part: Scalar,
)
    requires
        crate::layer_math::part_across(math, at, origin, fitted, part),
    ensures
        is_across(math, at, origin, fitted, part),
{
}

proof fn tapped_is_tap<M: LayerMath>(
    math: M,
    at: u32,
    origin: Scalar,
    fitted: Scalar,
    size: u32,
    tap: Option<Tap>,
)
    requires
        crate::overlay_layers::tapped(math, at, origin, fitted, size, tap),
    ensures
        is_tap(math, at, origin, fitted, size, tap),
{
    let part = choose|part: Scalar|
        {
            &&& #[trigger] crate::layer_math::part_across(math, at, origin, fitted, part)
            &&& crate::overlay_layers::tap_of_part(math, part, size, tap)
        };
    across_is_across(math, at, origin, fitted, part);
    if let Some(t) = tap {
        let (raw, last, n) = choose|raw: Scalar, last: Scalar, n: u32|
            {
                &&& #[trigger] crate::layer_math::pixels_along(math, part, size, raw)
                &&& #[trigger] call_ensures(M::whole, (&math, (size - 1) as u64), last)
                &&& #[trigger] call_ensures(
                    M::floor,
                    (&math, crate::overlay_layers::held_place(raw, last)),
                    n,
                )
                &&& t.near == if n < size {
                    n as int
                } else {
                    size - 1
                }
                &&& crate::layer_math::past_pixel(
                    math,
                    crate::overlay_layers::held_place(raw, last),
                    t.near,
                    t.weight,
                )
            };
        let low = raw.spec_max(Scalar { bits: crate::scalar::ZERO });
        let held = low.spec_min(last);
        assert(is_along(math, part, size, raw));
        assert(is_larger(raw, nought(), low));
        assert(is_smaller(low, last, held));
        assert(is_past(math, held, t.near, t.weight));
        assert(is_tap_at(math, part, size, t));
    }
}

proof fn footprint_is_footprint<M: LayerMath>(
    math: M,
    placed: Placed,
    r: PlaceRequest,
    f: Footprint,
)
    requires
        crate::overlay_layers::footprint_at(math, placed, r, f),
    ensures
        is_footprint(math, placed, r, f),
{
    let zero = Scalar { bits: crate::scalar::ZERO };
    assert(nought() == zero);
    assert(is_larger(placed.origin.0, nought(), placed.origin.0.spec_max(zero)));
    assert(is_first_pixel(math, placed.origin.0, f.x0));
    let right = placed.end.0.spec_min(placed.canvas.0);
    assert(is_smaller(placed.end.0, placed.canvas.0, right));
    assert(is_past_pixel(math, right, r.output_size.0, f.x1));
    let above = crate::overlay_layers::row_above(r.visible_rows.0) as u64;
    let (edge, a, b) = choose|edge: Scalar, a: u32, b: u32|
        {
            &&& crate::layer_math::edge_of_row(
                math,
                placed.origin.1,
                placed.fitted.1,
                above,
                r.source_size.1,
                edge,
            )
            &&& #[trigger] call_ensures(M::floor, (&math, placed.origin.1.spec_max(zero)), a)
            &&& #[trigger] call_ensures(M::floor, (&math, edge.spec_max(zero)), b)
            &&& f.y0 == if a < b {
                b
            } else {
                a
            }
        };
    assert(is_edge(math, placed.origin.1, placed.fitted.1, above, r.source_size.1, edge));
    assert(is_larger(placed.origin.1, nought(), placed.origin.1.spec_max(zero)));
    assert(is_larger(edge, nought(), edge.spec_max(zero)));
    assert(is_first_pixel(math, placed.origin.1, a));
    assert(is_first_pixel(math, edge, b));
    assert(is_first_row(math, placed, r, f.y0));
    let (past, c, d) = choose|past: Scalar, c: u32, d: u32|
        {
            &&& crate::layer_math::edge_of_row(
                math,
                placed.origin.1,
                placed.fitted.1,
                (r.visible_rows.1 + 2) as u64,
                r.source_size.1,
                past,
            )
            &&& #[trigger] crate::overlay_layers::capped(
                math,
                placed.end.1.spec_min(placed.canvas.1),
                r.output_size.1,
                c,
            )
            &&& #[trigger] crate::overlay_layers::capped(
                math,
                past.spec_max(zero),
                r.output_size.1,
                d,
            )
            &&& f.y1 == if d < c {
                d
            } else {
                c
            }
        };
    let bottom = placed.end.1.spec_min(placed.canvas.1);
    let low = past.spec_max(zero);
    assert(is_edge(
        math,
        placed.origin.1,
        placed.fitted.1,
        (r.visible_rows.1 + 2) as u64,
        r.source_size.1,
        past,
    ));
    assert(is_smaller(placed.end.1, placed.canvas.1, bottom));
    assert(is_larger(past, nought(), low));
    assert(is_past_pixel(math, bottom, r.output_size.1, c));
    assert(is_past_pixel(math, low, r.output_size.1, d));
    assert(is_past_row(math, placed, r, f.y1));
    assert forall|i: int| 0 <= i < f.columns@.len() implies is_tap(
        math,
        (f.x0 + i) as u32,
        placed.origin.0,
        placed.fitted.0,
        r.source_size.0,
        #[trigger] f.columns@[i],
    ) by {
        tapped_is_tap(
            math,
            (f.x0 + i) as u32,
            placed.origin.0,
            placed.fitted.0,
            r.source_size.0,
            f.columns@[i],
        );
    }
    assert forall|i: int| 0 <= i < f.rows@.len() implies is_tap(
        math,
        (f.y0 + i) as u32,
        placed.origin.1,
        placed.fitted.1,
        r.source_size.1,
        #[trigger] f.rows@[i],
    ) by {
        tapped_is_tap(
            math,
            (f.y0 + i) as u32,
            placed.origin.1,
            placed.fitted.1,
            r.source_size.1,
            f.rows@[i],
        );
    }
}

/// An image has a rectangle just where it lands with some extent; one whose design has none
/// lands nowhere.
pub proof fn an_image_is_drawn_where_it_lands<M: LayerMath>(
    math: M,
    r: PlaceRequest,
    f: Option<Footprint>,
) -> (placed: Placed)
    requires
        call_ensures(footprint::<M>, (&r, &math), f),
    ensures
        f is None ==> r.design_size.0 == 0 || r.design_size.1 == 0 || is_landing(math, r, placed)
            && (placed.fitted.0.at_most(nought()) || placed.fitted.1.at_most(nought())),
        f matches Some(x) ==> {
            &&& r.design_size.0 != 0
            &&& r.design_size.1 != 0
            &&& is_landing(math, r, placed)
            &&& !placed.fitted.0.at_most(nought())
            &&& !placed.fitted.1.at_most(nought())
            &&& is_footprint(math, placed, r, x)
        },
{
    match f {
        Some(x) => {
            let placed = choose|placed: Placed|
                {
                    &&& #[trigger] crate::overlay_layers::placed_at(
                        math,
                        r.design_size,
                        r.output_size,
                        r.placement,
                        placed,
                    )
                    &&& crate::overlay_layers::has_extent(placed)
                    &&& crate::overlay_layers::footprint_at(math, placed, r, x)
                };
            footprint_is_footprint(math, placed, r, x);
            landing(math, r, placed);
            placed
        },
        None => {
            let placed = choose|placed: Placed|
                {
                    &&& #[trigger] crate::overlay_layers::placed_at(
                        math,
                        r.design_size,
                        r.output_size,
                        r.placement,
                        placed,
                    )
                    &&& crate::overlay_layers::has_extent(placed) == false
                };
            if r.design_size.0 != 0 && r.design_size.1 != 0 {
                landing(math, r, placed);
            }
            placed
        },
    }
}

/// An image lands at `placed`: fitted and centred, but for its placement.
pub open spec fn is_landing<M: LayerMath>(math: M, r: PlaceRequest, placed: Placed) -> bool {
    exists|scale: Scalar|
        {
            &&& #[trigger] is_fit(math, r.design_size, r.output_size, r.placement.scale, scale)
            &&& is_side(
                math,
                r.design_size.0,
                r.output_size.0,
                scale,
                r.placement.offset.0,
                placed.canvas.0,
                placed.fitted.0,
                placed.origin.0,
                placed.end.0,
            )
            &&& is_side(
                math,
                r.design_size.1,
                r.output_size.1,
                scale,
                r.placement.offset.1,
                placed.canvas.1,
                placed.fitted.1,
                placed.origin.1,
                placed.end.1,
            )
        }
}

proof fn landing<M: LayerMath>(math: M, r: PlaceRequest, p: Placed)
    requires
        crate::overlay_layers::placed_at(math, r.design_size, r.output_size, r.placement, p),
    ensures
        is_landing(math, r, p),
{
    let (design, output, placement) = (r.design_size, r.output_size, r.placement);
    let scale = choose|scale: Scalar|
        {
            &&& #[trigger] crate::overlay::contained(math, design, output, placement, scale)
            &&& crate::overlay_layers::side_placed(
                math,
                design.0,
                output.0,
                scale,
                placement.offset.0,
                p.canvas.0,
                p.fitted.0,
                p.origin.0,
                p.end.0,
            )
            &&& crate::overlay_layers::side_placed(
                math,
                design.1,
                output.1,
                scale,
                placement.offset.1,
                p.canvas.1,
                p.fitted.1,
                p.origin.1,
                p.end.1,
            )
        };
    assert(is_fit(math, design, output, placement.scale, scale));
}

/// Rows of which one shows something, and after and before which none does.
pub open spec fn are_visible_rows(frame: OverlayFrame, first: int, last: int) -> bool {
    &&& 0 <= first <= last < frame.height
    &&& shows_in_row(frame, first)
    &&& shows_in_row(frame, last)
    &&& forall|y: int|
        0 <= y < frame.height && (y < first || last < y) ==> !#[trigger] shows_in_row(frame, y)
}

/// A pixel of the row is not wholly transparent.
pub open spec fn shows_in_row(frame: OverlayFrame, y: int) -> bool {
    exists|x: int|
        0 <= x < frame.width && #[trigger] alpha_at(frame, x, y) != 0
}

pub open spec fn alpha_at(frame: OverlayFrame, x: int, y: int) -> u8 {
    frame.rgba@[4 * (y * frame.width + x) + 3]
}

/// The rows that an image is looked for in are from the first to the last that shows
/// something; there are none just where nothing shows.
pub proof fn visible_rows_span_all_that_shows(frame: OverlayFrame, rows: Option<(u32, u32)>)
    requires
        call_ensures(opaque_row_bounds, (&frame,), rows),
    ensures
        rows is None ==> forall|y: int|
            0 <= y < frame.height ==> !#[trigger] shows_in_row(frame, y),
        rows matches Some((first, last)) ==> are_visible_rows(frame, first as int, last as int),
{
    assert forall|y: int| #[trigger] shows_in_row(frame, y) == row_visible(frame, y) by {
        if shows_in_row(frame, y) {
            let x = choose|x: int| 0 <= x < frame.width && #[trigger] alpha_at(frame, x, y) != 0;
            assert(pixel(frame.rgba@, y * frame.width + x).a != 0);
        }
        if row_visible(frame, y) {
            let x = choose|x: int|
                0 <= x < frame.width && #[trigger] pixel(frame.rgba@, y * frame.width + x).a != 0;
            assert(alpha_at(frame, x, y) != 0);
        }
    }
}

/// Drawing an image on a canvas: it is looked for in its visible rows and drawn in the
/// rectangle where it lands. Where it lands nowhere or shows nothing, the canvas stays.
pub open spec fn is_composited<M: LayerMath>(
    math: M,
    source: OverlayFrame,
    placement: OverlayPlacement,
    empty: bool,
    size: (u32, u32),
    before: Seq<u8>,
    after: Seq<u8>,
) -> bool {
    ||| after == before && (source.design_size.0 == 0 || source.design_size.1 == 0)
    ||| after == before && exists|placed: Placed|
        {
            &&& #[trigger] is_landing(
                math,
                request_for(source, placement, size, (0, 0)),
                placed,
            )
            &&& placed.fitted.0.at_most(nought()) || placed.fitted.1.at_most(nought())
        }
    ||| after == before && forall|y: int|
        0 <= y < source.height ==> !#[trigger] shows_in_row(source, y)
    ||| exists|rows: (u32, u32), placed: Placed, f: Footprint|
        {
            &&& are_visible_rows(source, rows.0 as int, rows.1 as int)
            &&& is_landing(math, request_for(source, placement, size, rows), placed)
            &&& !placed.fitted.0.at_most(nought())
            &&& !placed.fitted.1.at_most(nought())
            &&& #[trigger] is_footprint(
                math,
                placed,
                request_for(source, placement, size, rows),
                f,
            )
            &&& forall|x: int, y: int|
                0 <= x < size.0 && 0 <= y < size.1 ==> #[trigger] is_drawn_in(
                    math,
                    source,
                    f,
                    empty,
                    size.0,
                    before,
                    after,
                    x,
                    y,
                )
        }
}

pub open spec fn request_for(
    source: OverlayFrame,
    placement: OverlayPlacement,
    size: (u32, u32),
    rows: (u32, u32),
) -> PlaceRequest {
    PlaceRequest {
        design_size: source.design_size,
        source_size: (source.width, source.height),
        output_size: size,
        placement,
        visible_rows: rows,
    }
}

proof fn layer_is_composited<M: LayerMath>(
    math: M,
    source: OverlayFrame,
    placement: OverlayPlacement,
    empty: bool,
    size: (u32, u32),
    before: Seq<u8>,
    after: Seq<u8>,
)
    requires
        layer_drawn(math, source, placement, empty, size, before, after),
    ensures
        is_composited(math, source, placement, empty, size, before, after),
{
    assert forall|y: int| #[trigger] shows_in_row(source, y) == row_visible(source, y) by {
        if shows_in_row(source, y) {
            let x = choose|x: int| 0 <= x < source.width && #[trigger] alpha_at(source, x, y) != 0;
            assert(pixel(source.rgba@, y * source.width + x).a != 0);
        }
        if row_visible(source, y) {
            let x = choose|x: int|
                0 <= x < source.width && #[trigger] pixel(source.rgba@, y * source.width + x).a
                    != 0;
            assert(alpha_at(source, x, y) != 0);
        }
    }
    if drawn_where_it_lands(math, source, placement, empty, size, before, after) {
        let (rows, f) = choose|rows: (u32, u32), f: Footprint|
            {
                &&& visible_span(source, rows)
                &&& #[trigger] footprint_of(
                    math,
                    place_request(source, placement, size, rows),
                    Some(f),
                )
                &&& drawn(math, source, f, empty, size, before, after)
            };
        let r = request_for(source, placement, size, rows);
        assert(r == place_request(source, placement, size, rows));
        let placed = choose|placed: Placed|
            {
                &&& #[trigger] crate::overlay_layers::placed_at(
                    math,
                    r.design_size,
                    r.output_size,
                    r.placement,
                    placed,
                )
                &&& crate::overlay_layers::has_extent(placed)
                &&& crate::overlay_layers::footprint_at(math, placed, r, f)
            };
        footprint_is_footprint(math, placed, r, f);
        landing(math, r, placed);
        assert forall|y: int|
            0 <= y < source.height && (y < rows.0 || rows.1 < y) implies !#[trigger] shows_in_row(
            source,
            y,
        ) by {
            assert(shows_in_row(source, y) == row_visible(source, y));
        }
        assert(row_visible(source, rows.0 as int) && row_visible(source, rows.1 as int));
        assert(shows_in_row(source, rows.0 as int) && shows_in_row(source, rows.1 as int));
        assert(are_visible_rows(source, rows.0 as int, rows.1 as int));
        assert forall|x: int, y: int| 0 <= x < size.0 && 0 <= y < size.1 implies #[trigger] is_drawn_in(
            math,
            source,
            f,
            empty,
            size.0,
            before,
            after,
            x,
            y,
        ) by {
            drawn_pixel_is_drawn(math, source, f, empty, size, before, after, x, y);
        }
        assert(is_footprint(math, placed, request_for(source, placement, size, rows), f));
    } else if nothing_visible(source) && after == before {
    } else if source.design_size.0 != 0 && source.design_size.1 != 0 {
        let placed = choose|placed: Placed|
            {
                &&& #[trigger] crate::overlay_layers::placed_at(
                    math,
                    source.design_size,
                    size,
                    placement,
                    placed,
                )
                &&& crate::overlay_layers::has_extent(placed) == false
            };
        landing(math, request_for(source, placement, size, (0, 0)), placed);
    }
}

pub proof fn an_image_is_composited<M: LayerMath>(math: M)
    ensures
        forall|
            canvas: &mut OverlayFrame,
            source: &OverlayFrame,
            placement: OverlayPlacement,
            empty: bool,
        | #[trigger]
            call_ensures(
                composite_over::<M>,
                (canvas, source, placement, empty, &math),
                (),
            ) ==> {
                &&& final(canvas).width == canvas.width
                &&& final(canvas).height == canvas.height
                &&& final(canvas).design_size == canvas.design_size
                &&& is_composited(
                    math,
                    *source,
                    placement,
                    empty,
                    (canvas.width, canvas.height),
                    canvas.rgba@,
                    final(canvas).rgba@,
                )
            },
{
    assert forall|
        canvas: &mut OverlayFrame,
        source: &OverlayFrame,
        placement: OverlayPlacement,
        empty: bool,
    | #[trigger]
        call_ensures(
            composite_over::<M>,
            (canvas, source, placement, empty, &math),
            (),
        ) implies {
        &&& final(canvas).width == canvas.width
        &&& final(canvas).height == canvas.height
        &&& final(canvas).design_size == canvas.design_size
        &&& is_composited(
            math,
            *source,
            placement,
            empty,
            (canvas.width, canvas.height),
            canvas.rgba@,
            final(canvas).rgba@,
        )
    } by {
        layer_is_composited(
            math,
            *source,
            placement,
            empty,
            (canvas.width, canvas.height),
            canvas.rgba@,
            final(canvas).rgba@,
        );
    }
}

/// Every image that shows something is drawn over those before it, from a blank canvas of
/// the output's size on, each with its own placement. The first that is drawn finds the
/// canvas empty.
pub open spec fn are_stacked<M: LayerMath>(
    math: M,
    images: Seq<Option<OverlayFrame>>,
    placements: Seq<OverlayPlacement>,
    size: (u32, u32),
    canvases: Seq<Seq<u8>>,
    canvas: Seq<u8>,
) -> bool {
    &&& canvases.len() == images.len() + 1
    &&& canvases[0].len() == size.0 * size.1 * 4
    &&& forall|k: int| 0 <= k < canvases[0].len() ==> #[trigger] canvases[0][k] == 0
    &&& canvases.last() == canvas
    &&& forall|i: int|
        0 <= i < images.len() ==> match #[trigger] images[i] {
            None => canvases[i + 1] == canvases[i],
            Some(f) => exists|empty: bool|
                {
                    &&& empty <==> forall|j: int| 0 <= j < i ==> #[trigger] images[j] is None
                    &&& #[trigger] is_composited(
                        math,
                        f,
                        placements[i],
                        empty,
                        size,
                        canvases[i],
                        canvases[i + 1],
                    )
                },
        }
}

pub proof fn layers_are_drawn_from_the_first_up<S: OverlayFrameSource, M: LayerMath>(
    layers: LayeredOverlaySource<S, M>,
    r: Result<OverlayFrame, String>,
) -> (canvases: Seq<Seq<u8>>)
    requires
        call_ensures(LayeredOverlaySource::<S, M>::compose, (&layers,), r),
    ensures
        r matches Ok(canvas) ==> {
            &&& canvas.width == layers.size().0
            &&& canvas.height == layers.size().1
            &&& canvas.design_size == layers.size()
            &&& are_stacked(
                layers.numbers(),
                layers.cached(),
                layers.placements(),
                layers.size(),
                canvases,
                canvas.rgba@,
            )
        },
{
    if let Ok(canvas) = r {
        let math = layers.numbers();
        let images = layers.cached();
        let size = layers.size();
        let canvases = choose|canvases: Seq<Seq<u8>>|
            {
                &&& canvases.len() == images.len() + 1
                &&& canvases.last() == canvas.rgba@
                &&& #[trigger] stack_of(math, images, layers.placements(), size, canvases)
            };
        assert(size.0 as nat * size.1 as nat * 4 == size.0 * size.1 * 4);
        assert forall|i: int| 0 <= i < images.len() implies match #[trigger] images[i] {
            None => canvases[i + 1] == canvases[i],
            Some(f) => exists|empty: bool|
                {
                    &&& empty <==> forall|j: int| 0 <= j < i ==> #[trigger] images[j] is None
                    &&& #[trigger] is_composited(
                        math,
                        f,
                        layers.placements()[i],
                        empty,
                        size,
                        canvases[i],
                        canvases[i + 1],
                    )
                },
        } by {
            assert(canvases[i + 1] == canvases[i + 1]);
            if let Some(f) = images[i] {
                let empty = empty_below(images, i);
                layer_is_composited(
                    math,
                    f,
                    layers.placements()[i],
                    empty,
                    size,
                    canvases[i],
                    canvases[i + 1],
                );
            }
        }
        canvases
    } else {
        arbitrary()
    }
}

} // verus!
