//! The formulas of drawing one image over another, over arithmetic on numbers.

use crate::overlay::FitMath;
use crate::scalar::{Scalar, HALF, ONE, ZERO};
use vstd::prelude::*;

verus! {

/// The largest byte as a number: the bits of 255.
pub const BYTE: u32 = 0x437f_0000;

/// The arithmetic of drawing one image over another.
pub trait LayerMath: FitMath {
    /// A count as a number.
    fn whole(&self, n: u64) -> Scalar;

    fn sum(&self, a: Scalar, b: Scalar) -> Scalar;

    fn difference(&self, a: Scalar, b: Scalar) -> Scalar;

    /// The quotient of two numbers.
    fn ratio(&self, a: Scalar, b: Scalar) -> Scalar;

    /// The whole number below.
    fn floor(&self, x: Scalar) -> u32;

    /// The whole number above.
    fn ceil(&self, x: Scalar) -> u32;

    /// The nearest byte.
    fn nearest(&self, x: Scalar) -> u8;
}

/// `edge` is where the upper edge of a row of an image is on the canvas, on which the
/// image starts at `origin` and is `fitted` high: as far down as the row is part of
/// the image's height.
pub open spec fn edge_of_row<M: LayerMath>(
    math: M,
    origin: Scalar,
    fitted: Scalar,
    row: u64,
    height: u32,
    edge: Scalar,
) -> bool {
    exists|n: Scalar, h: Scalar, part: Scalar, down: Scalar|
        {
            &&& #[trigger] call_ensures(M::whole, (&math, row), n)
            &&& #[trigger] call_ensures(M::whole, (&math, height as u64), h)
            &&& #[trigger] call_ensures(M::ratio, (&math, n, h), part)
            &&& #[trigger] call_ensures(M::product, (&math, part, fitted), down)
            &&& call_ensures(M::sum, (&math, origin, down), edge)
        }
}

pub fn row_edge<M: LayerMath>(
    origin: Scalar,
    fitted: Scalar,
    row: u64,
    height: u32,
    math: &M,
) -> (edge: Scalar)
    ensures
        edge_of_row(*math, origin, fitted, row, height, edge),
{
    let n: Scalar = math.whole(row);
    let h: Scalar = math.whole(height as u64);
    let part: Scalar = math.ratio(n, h);
    let down: Scalar = math.product(part, fitted);
    math.sum(origin, down)
}

/// `part` is how far across an image the middle of a pixel of the canvas is, from
/// nought to one. The image starts at `origin` and is `fitted` long.
pub open spec fn part_across<M: LayerMath>(
    math: M,
    at: u32,
    origin: Scalar,
    fitted: Scalar,
    part: Scalar,
) -> bool {
    exists|n: Scalar, middle: Scalar, along: Scalar, scale: Scalar|
        {
            &&& #[trigger] call_ensures(M::whole, (&math, at as u64), n)
            &&& #[trigger] call_ensures(M::sum, (&math, n, Scalar { bits: HALF }), middle)
            &&& #[trigger] call_ensures(M::difference, (&math, middle, origin), along)
            &&& #[trigger] call_ensures(M::ratio, (&math, Scalar { bits: ONE }, fitted), scale)
            &&& call_ensures(M::product, (&math, along, scale), part)
        }
}

pub fn across<M: LayerMath>(at: u32, origin: Scalar, fitted: Scalar, math: &M) -> (part: Scalar)
    ensures
        part_across(*math, at, origin, fitted, part),
{
    let n: Scalar = math.whole(at as u64);
    let middle: Scalar = math.sum(n, Scalar { bits: HALF });
    let along: Scalar = math.difference(middle, origin);
    let scale: Scalar = math.ratio(Scalar { bits: ONE }, fitted);
    math.product(along, scale)
}

/// `raw` is a part of an image's side in pixels, from the middle of the first on.
pub open spec fn pixels_along<M: LayerMath>(
    math: M,
    part: Scalar,
    size: u32,
    raw: Scalar,
) -> bool {
    exists|n: Scalar, along: Scalar|
        {
            &&& #[trigger] call_ensures(M::whole, (&math, size as u64), n)
            &&& #[trigger] call_ensures(M::product, (&math, part, n), along)
            &&& call_ensures(M::difference, (&math, along, Scalar { bits: HALF }), raw)
        }
}

pub fn on_source<M: LayerMath>(part: Scalar, size: u32, math: &M) -> (raw: Scalar)
    ensures
        pixels_along(*math, part, size, raw),
{
    let n: Scalar = math.whole(size as u64);
    let along: Scalar = math.product(part, n);
    math.difference(along, Scalar { bits: HALF })
}

/// `past` is how far past a pixel a place is.
pub open spec fn past_pixel<M: LayerMath>(math: M, x: Scalar, near: u32, past: Scalar) -> bool {
    exists|n: Scalar|
        {
            &&& #[trigger] call_ensures(M::whole, (&math, near as u64), n)
            &&& call_ensures(M::difference, (&math, x, n), past)
        }
}

pub fn beyond<M: LayerMath>(x: Scalar, near: u32, math: &M) -> (past: Scalar)
    ensures
        past_pixel(*math, x, near, past),
{
    let n: Scalar = math.whole(near as u64);
    math.difference(x, n)
}

/// `part` is a byte as a part of one.
pub open spec fn byte_part<M: LayerMath>(math: M, byte: u8, part: Scalar) -> bool {
    exists|n: Scalar|
        {
            &&& #[trigger] call_ensures(M::whole, (&math, byte as u64), n)
            &&& call_ensures(M::ratio, (&math, n, Scalar { bits: BYTE }), part)
        }
}

pub fn part_of<M: LayerMath>(byte: u8, math: &M) -> (part: Scalar)
    ensures
        byte_part(*math, byte, part),
{
    let n: Scalar = math.whole(byte as u64);
    math.ratio(n, Scalar { bits: BYTE })
}

/// `x` is between two numbers: `weight` of the way from the first to the second.
pub open spec fn between<M: LayerMath>(
    math: M,
    first: Scalar,
    second: Scalar,
    weight: Scalar,
    x: Scalar,
) -> bool {
    exists|rest: Scalar, a: Scalar, b: Scalar|
        {
            &&& #[trigger] call_ensures(M::difference, (&math, Scalar { bits: ONE }, weight), rest)
            &&& #[trigger] call_ensures(M::product, (&math, first, rest), a)
            &&& #[trigger] call_ensures(M::product, (&math, second, weight), b)
            &&& call_ensures(M::sum, (&math, a, b), x)
        }
}

fn mix<M: LayerMath>(first: Scalar, second: Scalar, weight: Scalar, math: &M) -> (x: Scalar)
    ensures
        between(*math, first, second, weight, x),
{
    let rest: Scalar = math.difference(Scalar { bits: ONE }, weight);
    let a: Scalar = math.product(first, rest);
    let b: Scalar = math.product(second, weight);
    math.sum(a, b)
}

/// `x` is between four bytes: across between those of a row, then down between the
/// rows.
pub open spec fn between_four<M: LayerMath>(
    math: M,
    four: (u8, u8, u8, u8),
    x_weight: Scalar,
    y_weight: Scalar,
    x: Scalar,
) -> bool {
    exists|a: Scalar, b: Scalar, c: Scalar, d: Scalar, top: Scalar, bottom: Scalar|
        {
            &&& #[trigger] call_ensures(M::whole, (&math, four.0 as u64), a)
            &&& #[trigger] call_ensures(M::whole, (&math, four.1 as u64), b)
            &&& #[trigger] call_ensures(M::whole, (&math, four.2 as u64), c)
            &&& #[trigger] call_ensures(M::whole, (&math, four.3 as u64), d)
            &&& #[trigger] between(math, a, b, x_weight, top)
            &&& #[trigger] between(math, c, d, x_weight, bottom)
            &&& between(math, top, bottom, y_weight, x)
        }
}

/// `part` is the part of one between four bytes.
pub open spec fn bilinear_part<M: LayerMath>(
    math: M,
    four: (u8, u8, u8, u8),
    x_weight: Scalar,
    y_weight: Scalar,
    part: Scalar,
) -> bool {
    exists|x: Scalar|
        {
            &&& #[trigger] between_four(math, four, x_weight, y_weight, x)
            &&& call_ensures(M::ratio, (&math, x, Scalar { bits: BYTE }), part)
        }
}

pub fn bilinear<M: LayerMath>(
    four: (u8, u8, u8, u8),
    x_weight: Scalar,
    y_weight: Scalar,
    math: &M,
) -> (part: Scalar)
    ensures
        bilinear_part(*math, four, x_weight, y_weight, part),
{
    let a: Scalar = math.whole(four.0 as u64);
    let b: Scalar = math.whole(four.1 as u64);
    let c: Scalar = math.whole(four.2 as u64);
    let d: Scalar = math.whole(four.3 as u64);
    let top: Scalar = mix(a, b, x_weight, math);
    let bottom: Scalar = mix(c, d, x_weight, math);
    let x: Scalar = mix(top, bottom, y_weight, math);
    assert(between_four(*math, four, x_weight, y_weight, x));
    math.ratio(x, Scalar { bits: BYTE })
}

/// `byte` is a part of one as a byte, held between nought and one.
pub open spec fn quantized<M: LayerMath>(math: M, part: Scalar, byte: u8) -> bool {
    exists|n: Scalar|
        {
            &&& #[trigger] call_ensures(
                M::product,
                (
                    &math,
                    part.spec_clamp(Scalar { bits: ZERO }, Scalar { bits: ONE }),
                    Scalar { bits: BYTE },
                ),
                n,
            )
            &&& call_ensures(M::nearest, (&math, n), byte)
        }
}

pub fn quantize<M: LayerMath>(part: Scalar, math: &M) -> (byte: u8)
    ensures
        quantized(*math, part, byte),
{
    let held: Scalar = part.clamp(Scalar { bits: ZERO }, Scalar { bits: ONE });
    let n: Scalar = math.product(held, Scalar { bits: BYTE });
    math.nearest(n)
}

/// `out` is the opacity of a colour over another.
pub open spec fn alpha_over<M: LayerMath>(
    math: M,
    alpha: Scalar,
    below: Scalar,
    out: Scalar,
) -> bool {
    exists|rest: Scalar, shown: Scalar|
        {
            &&& #[trigger] call_ensures(M::difference, (&math, Scalar { bits: ONE }, alpha), rest)
            &&& #[trigger] call_ensures(M::product, (&math, below, rest), shown)
            &&& call_ensures(M::sum, (&math, alpha, shown), out)
        }
}

pub fn over_alpha<M: LayerMath>(alpha: Scalar, below: Scalar, math: &M) -> (out: Scalar)
    ensures
        alpha_over(*math, alpha, below, out),
{
    let rest: Scalar = math.difference(Scalar { bits: ONE }, alpha);
    let shown: Scalar = math.product(below, rest);
    math.sum(alpha, shown)
}

/// `x` is one component of a colour over another: both weighted by their opacity, the
/// one below also by how much of it shows, and divided by the opacity of both.
pub open spec fn weighted_over<M: LayerMath>(
    math: M,
    component: Scalar,
    alpha: Scalar,
    below: Scalar,
    below_alpha: Scalar,
    out: Scalar,
    x: Scalar,
) -> bool {
    exists|
        own: Scalar,
        under: Scalar,
        rest: Scalar,
        shown: Scalar,
        both: Scalar,
        scale: Scalar,
    |
        {
            &&& #[trigger] call_ensures(M::product, (&math, component, alpha), own)
            &&& #[trigger] call_ensures(M::product, (&math, below, below_alpha), under)
            &&& #[trigger] call_ensures(M::difference, (&math, Scalar { bits: ONE }, alpha), rest)
            &&& #[trigger] call_ensures(M::product, (&math, under, rest), shown)
            &&& #[trigger] call_ensures(M::sum, (&math, own, shown), both)
            &&& #[trigger] call_ensures(M::ratio, (&math, Scalar { bits: ONE }, out), scale)
            &&& call_ensures(M::product, (&math, both, scale), x)
        }
}

pub fn over<M: LayerMath>(
    component: Scalar,
    alpha: Scalar,
    below: Scalar,
    below_alpha: Scalar,
    out: Scalar,
    math: &M,
) -> (x: Scalar)
    ensures
        weighted_over(*math, component, alpha, below, below_alpha, out, x),
{
    let own: Scalar = math.product(component, alpha);
    let under: Scalar = math.product(below, below_alpha);
    let rest: Scalar = math.difference(Scalar { bits: ONE }, alpha);
    let shown: Scalar = math.product(under, rest);
    let both: Scalar = math.sum(own, shown);
    let scale: Scalar = math.ratio(Scalar { bits: ONE }, out);
    math.product(both, scale)
}

} // verus!
