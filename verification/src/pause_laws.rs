//! What a pause looks like, frame by frame.

use crate::layer_math::{quantized, LayerMath};
use crate::overlay::{fitted, OverlayFrame};
use crate::pause_overlay::{
    build_layers, caption_size, letters_sized, rasterize_text, rasterized, render_caption,
    render_fade, scaled_to, CaptionFont, CoveredPixel, FadeFilter, FadeLevel, GlyphRun,
    PauseBoundary, PauseCaptionSource, PauseFadeSource, PauseMath, PauseOverlayConfig, Schedule,
    TextMask,
};
use crate::scalar::Scalar;
use vstd::prelude::*;

verus! {

/// `level` is how dark a frame is, of which the first pause that is not over is the
/// `at`-th: not at all before it starts, or where it has no length; then darker by equal
/// steps until it is held, completely while it is held, and lighter by equal steps until
/// it is over.
pub open spec fn is_level_at(
    pauses: Seq<PauseBoundary>,
    at: int,
    frame: u64,
    level: FadeLevel,
) -> bool {
    if at >= pauses.len() {
        level == FadeLevel::Clear
    } else {
        let b = pauses[at];
        if b.fade_out_start == b.fade_in_end {
            level == FadeLevel::Clear
        } else {
            &&& frame < b.fade_out_start <==> level == FadeLevel::Clear
            &&& b.fade_out_start <= frame < b.hold_start ==> rises_by(
                level,
                frame - b.fade_out_start,
                b.hold_start - b.fade_out_start,
            )
            &&& b.fade_out_start <= frame && b.hold_start <= frame < b.hold_end ==> level
                == FadeLevel::Full
            &&& b.fade_out_start <= frame && b.hold_start <= frame && b.hold_end <= frame
                && b.fade_in_end >= b.hold_end ==> falls_by(
                level,
                frame - b.hold_end,
                b.fade_in_end - b.hold_end,
            )
        }
    }
}

/// The level has risen by so many of so many steps.
pub open spec fn rises_by(level: FadeLevel, steps: int, all: int) -> bool {
    match level {
        FadeLevel::Rising { num, den } => num == steps && den == all,
        _ => false,
    }
}

/// The level has fallen by so many of so many steps.
pub open spec fn falls_by(level: FadeLevel, steps: int, all: int) -> bool {
    match level {
        FadeLevel::Falling { num, den } => num == steps && den == all,
        _ => false,
    }
}

/// The `at`-th pause is the first from the `from`-th on that is not over at a frame.
pub open spec fn is_first_unfinished(
    pauses: Seq<PauseBoundary>,
    from: int,
    frame: u64,
    at: int,
) -> bool {
    &&& from <= at <= pauses.len()
    &&& forall|k: int| from <= k < at ==> (#[trigger] pauses[k]).fade_in_end <= frame
    &&& at < pauses.len() ==> frame < pauses[at].fade_in_end
}

proof fn current_is_first_unfinished(pauses: Seq<PauseBoundary>, cursor: int, frame: u64)
    requires
        0 <= cursor <= pauses.len(),
    ensures
        is_first_unfinished(
            pauses,
            cursor,
            frame,
            crate::pause_overlay::current_pause(pauses, cursor, frame),
        ),
    decreases pauses.len() - cursor,
{
    if cursor < pauses.len() && frame >= pauses[cursor].fade_in_end {
        current_is_first_unfinished(pauses, cursor + 1, frame);
    }
}

/// A frame is as dark as the first pause has it that is not over by then.
pub proof fn a_frame_is_as_dark_as_its_pause()
    ensures
        forall|s: &mut Schedule, frame: u64, level: FadeLevel|
            s.wf() && #[trigger] call_ensures(Schedule::alpha_at, (s, frame), level) ==> {
                &&& final(s).pauses() == s.pauses()
                &&& is_first_unfinished(s.pauses(), s.cursor(), frame, final(s).cursor())
                &&& is_level_at(s.pauses(), final(s).cursor(), frame, level)
            },
        forall|s: &mut Schedule, level: FadeLevel|
            s.wf() && #[trigger] call_ensures(Schedule::advance, (s,), level) ==> {
                &&& final(s).pauses() == s.pauses()
                &&& final(s).next_frame() == s.next_frame() + 1
                &&& is_first_unfinished(s.pauses(), s.cursor(), s.next_frame(), final(s).cursor())
                &&& is_level_at(s.pauses(), final(s).cursor(), s.next_frame(), level)
            },
{
    assert forall|s: &mut Schedule, frame: u64, level: FadeLevel|
        s.wf() && #[trigger] call_ensures(Schedule::alpha_at, (s, frame), level) implies {
        &&& final(s).pauses() == s.pauses()
        &&& is_first_unfinished(s.pauses(), s.cursor(), frame, final(s).cursor())
        &&& is_level_at(s.pauses(), final(s).cursor(), frame, level)
    } by {
        current_is_first_unfinished(s.pauses(), s.cursor(), frame);
    }
    assert forall|s: &mut Schedule, level: FadeLevel|
        s.wf() && #[trigger] call_ensures(Schedule::advance, (s,), level) implies {
        &&& final(s).pauses() == s.pauses()
        &&& final(s).next_frame() == s.next_frame() + 1
        &&& is_first_unfinished(s.pauses(), s.cursor(), s.next_frame(), final(s).cursor())
        &&& is_level_at(s.pauses(), final(s).cursor(), s.next_frame(), level)
    } by {
        current_is_first_unfinished(s.pauses(), s.cursor(), s.next_frame());
    }
}

/// `a` is how opaque a level is: nought where it is clear, one where it is full, the part
/// of the way while it rises and what that leaves of one while it falls.
pub open spec fn is_opacity<M: LayerMath>(math: M, level: FadeLevel, a: Scalar) -> bool {
    let one = Scalar { bits: 0x3f80_0000 };
    match level {
        FadeLevel::Clear => a == (Scalar { bits: 0 }),
        FadeLevel::Full => a == one,
        FadeLevel::Rising { num, den } => is_quotient(math, num, den, a),
        FadeLevel::Falling { num, den } => exists|part: Scalar|
            {
                &&& #[trigger] is_quotient(math, num, den, part)
                &&& call_ensures(M::difference, (&math, one, part), a)
            },
    }
}

pub open spec fn is_quotient<M: LayerMath>(math: M, num: u64, den: u64, part: Scalar) -> bool {
    exists|n: Scalar, d: Scalar|
        {
            &&& #[trigger] call_ensures(M::whole, (&math, num), n)
            &&& #[trigger] call_ensures(M::whole, (&math, den), d)
            &&& call_ensures(M::ratio, (&math, n, d), part)
        }
}

pub proof fn a_fade_goes_by_its_part<M: PauseMath>(math: M, level: FadeLevel, a: Scalar)
    requires
        call_ensures(FadeLevel::alpha::<M>, (&level, &math), a),
    ensures
        is_opacity(math, level, a),
{
    if let FadeLevel::Falling { num, den } = level {
        let part = choose|part: Scalar|
            {
                &&& #[trigger] crate::pause_overlay::part_of_count(math, num, den, part)
                &&& call_ensures(
                    M::difference,
                    (&math, Scalar { bits: crate::scalar::ONE }, part),
                    a,
                )
            };
        assert(is_quotient(math, num, den, part));
    }
}

/// A frame of some opacity is drawn only where that is new: as it is where it shows
/// something, and once as nothing after something was shown.
pub open spec fn is_drawn_when_new(
    before: FadeFilter,
    alpha: Scalar,
    drawn: Option<Scalar>,
    after: FadeFilter,
) -> bool {
    let zero = Scalar { bits: 0 };
    let same = before.last_alpha matches Some(last) && last.equals(alpha);
    &&& !alpha.at_most(zero) && !same ==> drawn == Some(alpha) && after.was_active
        && after.last_alpha == Some(alpha)
    &&& !alpha.at_most(zero) && same ==> drawn is None && after == before
    &&& alpha.at_most(zero) && before.was_active ==> drawn == Some(zero) && !after.was_active
        && after.last_alpha == Some(zero)
    &&& alpha.at_most(zero) && !before.was_active ==> drawn is None && after == before
}

pub proof fn a_fade_is_drawn_when_it_is_new()
    ensures
        forall|f: &mut FadeFilter, alpha: Scalar, drawn: Option<Scalar>| #[trigger]
            call_ensures(FadeFilter::pass, (f, alpha), drawn) ==> is_drawn_when_new(
                *f,
                alpha,
                drawn,
                *final(f),
            ),
{
}

/// `byte` is 255 times a part of one, held between nought and one.
pub open spec fn is_byte_of<M: LayerMath>(math: M, part: Scalar, byte: u8) -> bool {
    let zero = Scalar { bits: 0 };
    let one = Scalar { bits: 0x3f80_0000 };
    exists|held: Scalar, x: Scalar|
        {
            &&& part.below(zero) ==> held == zero
            &&& one.below(part) ==> held == one
            &&& !part.below(zero) && !one.below(part) ==> held == part
            &&& #[trigger] call_ensures(M::product, (&math, held, Scalar { bits: 0x437f_0000 }), x)
            &&& call_ensures(M::nearest, (&math, x), byte)
        }
}

proof fn quantized_is_byte<M: LayerMath>(math: M, part: Scalar, byte: u8)
    requires
        quantized(math, part, byte),
    ensures
        is_byte_of(math, part, byte),
{
    let held = part.spec_clamp(
        Scalar { bits: crate::scalar::ZERO },
        Scalar { bits: crate::scalar::ONE },
    );
    let x = choose|x: Scalar|
        {
            &&& #[trigger] call_ensures(
                M::product,
                (&math, held, Scalar { bits: crate::layer_math::BYTE }),
                x,
            )
            &&& call_ensures(M::nearest, (&math, x), byte)
        };
    assert(call_ensures(M::product, (&math, held, Scalar { bits: 0x437f_0000 }), x));
}

/// The fade is one black pixel of the given opacity, designed for the whole picture.
pub open spec fn is_fade<M: LayerMath>(math: M, alpha: Scalar, frame: OverlayFrame) -> bool {
    &&& frame.width == 1
    &&& frame.height == 1
    &&& frame.design_size == (960u32, 540u32)
    &&& frame.rgba@.len() == 4
    &&& frame.rgba@[0] == 0
    &&& frame.rgba@[1] == 0
    &&& frame.rgba@[2] == 0
    &&& is_byte_of(math, alpha, frame.rgba@[3])
}

pub proof fn a_fade_is_a_black_pixel<M: PauseMath>(math: M, alpha: Scalar, frame: OverlayFrame)
    requires
        call_ensures(render_fade::<M>, (alpha, &math), frame),
    ensures
        is_fade(math, alpha, frame),
{
    quantized_is_byte(math, alpha, frame.rgba@[3]);
}

/// The caption is white, and each pixel is as opaque as the part of it that the text
/// covers has of the whole caption's opacity.
pub open spec fn is_caption<M: LayerMath>(
    math: M,
    mask: TextMask,
    alpha: Scalar,
    frame: OverlayFrame,
) -> bool {
    &&& frame.width == mask.width
    &&& frame.height == mask.height
    &&& frame.design_size == (960u32, 540u32)
    &&& frame.rgba@.len() == 4 * mask.coverage@.len()
    &&& exists|byte: u8|
        {
            &&& is_byte_of(math, alpha, byte)
            &&& #[trigger] is_white_by(math, mask.coverage@, byte, frame.rgba@)
        }
}

/// The pixels are white, each with its part of an opacity.
pub open spec fn is_white_by<M: LayerMath>(
    math: M,
    coverage: Seq<Scalar>,
    byte: u8,
    rgba: Seq<u8>,
) -> bool {
    forall|i: int|
        0 <= i < coverage.len() ==> #[trigger] is_white_at(math, coverage, byte, rgba, i)
}

pub open spec fn is_white_at<M: LayerMath>(
    math: M,
    coverage: Seq<Scalar>,
    byte: u8,
    rgba: Seq<u8>,
    i: int,
) -> bool {
    &&& rgba[4 * i] == 255
    &&& rgba[4 * i + 1] == 255
    &&& rgba[4 * i + 2] == 255
    &&& is_share_of(math, coverage[i], byte, rgba[4 * i + 3])
}

/// `share` is a part of a byte, the part held between nought and one.
pub open spec fn is_share_of<M: LayerMath>(math: M, part: Scalar, byte: u8, share: u8) -> bool {
    let zero = Scalar { bits: 0 };
    let one = Scalar { bits: 0x3f80_0000 };
    exists|held: Scalar, all: Scalar, x: Scalar|
        {
            &&& part.below(zero) ==> held == zero
            &&& one.below(part) ==> held == one
            &&& !part.below(zero) && !one.below(part) ==> held == part
            &&& #[trigger] call_ensures(M::whole, (&math, byte as u64), all)
            &&& #[trigger] call_ensures(M::product, (&math, held, all), x)
            &&& call_ensures(M::nearest, (&math, x), share)
        }
}

proof fn caption_is_drawn<M: PauseMath>(
    math: M,
    mask: TextMask,
    alpha: Scalar,
    frame: OverlayFrame,
)
    requires
        crate::pause_overlay::caption_drawn(math, mask, alpha, frame),
    ensures
        is_caption(math, mask, alpha, frame),
{
    let byte = choose|byte: u8|
        {
            &&& #[trigger] quantized(math, alpha, byte)
            &&& crate::pause_overlay::captioned(math, mask, byte, frame.rgba@)
        };
    quantized_is_byte(math, alpha, byte);
    assert forall|i: int| 0 <= i < mask.coverage@.len() implies #[trigger] is_white_at(
        math,
        mask.coverage@,
        byte,
        frame.rgba@,
        i,
    ) by {
        let part = mask.coverage@[i];
        let four = frame.rgba@.subrange(4 * i, 4 * i + 4);
        assert(crate::pause_overlay::pixel_captioned(math, part, byte, four));
        assert(four[0] == 255 && four[1] == 255 && four[2] == 255);
        assert(four[0] == frame.rgba@[4 * i] && four[1] == frame.rgba@[4 * i + 1] && four[2]
            == frame.rgba@[4 * i + 2] && four[3] == frame.rgba@[4 * i + 3]);
        let held = crate::pause_overlay::held_part(part);
        assert(crate::pause_overlay::shaded(math, held, byte, four[3]));
    }
    assert(frame.design_size == (960u32, 540u32));
    assert(frame.rgba@.len() == 4 * mask.coverage@.len());
    assert(is_byte_of(math, alpha, byte));
    assert(is_white_by(math, mask.coverage@, byte, frame.rgba@));
}

pub proof fn a_caption_is_white_on_nothing<M: PauseMath>(
    math: M,
    mask: TextMask,
    alpha: Scalar,
    frame: OverlayFrame,
)
    requires
        call_ensures(render_caption::<M>, (&mask, alpha, &math), frame),
    ensures
        is_caption(math, mask, alpha, frame),
{
    caption_is_drawn(math, mask, alpha, frame);
}

/// The next frame of the fade: as opaque as its pause has it, drawn only where that is new.
pub proof fn the_fade_follows_its_pauses<M: PauseMath>(math: M)
    ensures
        forall|s: &mut PauseFadeSource, frame: Option<OverlayFrame>|
            s.schedule.wf() && #[trigger] call_ensures(
                PauseFadeSource::try_frame::<M>,
                (s, &math),
                frame,
            ) ==> exists|level: FadeLevel, a: Scalar, drawn: Option<Scalar>|
                {
                    &&& is_first_unfinished(
                        s.schedule.pauses(),
                        s.schedule.cursor(),
                        s.schedule.next_frame(),
                        final(s).schedule.cursor(),
                    )
                    &&& final(s).schedule.next_frame() == s.schedule.next_frame() + 1
                    &&& is_level_at(
                        s.schedule.pauses(),
                        final(s).schedule.cursor(),
                        s.schedule.next_frame(),
                        level,
                    )
                    &&& #[trigger] is_opacity(math, level, a)
                    &&& #[trigger] is_drawn_when_new(s.filter, a, drawn, final(s).filter)
                    &&& match drawn {
                        Some(x) => frame matches Some(f) && is_fade(math, x, f),
                        None => frame is None,
                    }
                },
{
    assert forall|s: &mut PauseFadeSource, frame: Option<OverlayFrame>|
        s.schedule.wf() && #[trigger] call_ensures(
            PauseFadeSource::try_frame::<M>,
            (s, &math),
            frame,
        ) implies exists|level: FadeLevel, a: Scalar, drawn: Option<Scalar>|
        {
            &&& is_first_unfinished(
                s.schedule.pauses(),
                s.schedule.cursor(),
                s.schedule.next_frame(),
                final(s).schedule.cursor(),
            )
            &&& final(s).schedule.next_frame() == s.schedule.next_frame() + 1
            &&& is_level_at(
                s.schedule.pauses(),
                final(s).schedule.cursor(),
                s.schedule.next_frame(),
                level,
            )
            &&& #[trigger] is_opacity(math, level, a)
            &&& #[trigger] is_drawn_when_new(s.filter, a, drawn, final(s).filter)
            &&& match drawn {
                Some(x) => frame matches Some(f) && is_fade(math, x, f),
                None => frame is None,
            }
        } by {
        current_is_first_unfinished(
            s.schedule.pauses(),
            s.schedule.cursor(),
            s.schedule.next_frame(),
        );
        let level = crate::pause_overlay::level_of(
            s.schedule.pauses(),
            final(s).schedule.cursor(),
            s.schedule.next_frame(),
        );
        let drawn = choose|drawn: Option<Scalar>|
            {
                &&& #[trigger] crate::pause_overlay::filtered(
                    math,
                    level,
                    s.filter,
                    drawn,
                    final(s).filter,
                )
                &&& match drawn {
                    None => frame is None,
                    Some(a) => frame matches Some(f) && crate::pause_overlay::faded(math, a, f),
                }
            };
        let a = choose|a: Scalar|
            #[trigger] level.opacity(math, a) && (drawn, final(s).filter) == s.filter.passed(a);
        opacity_is_opacity(math, level, a);
        assert(is_drawn_when_new(s.filter, a, drawn, final(s).filter));
        match (drawn, frame) {
            (Some(x), Some(f)) => {
                quantized_is_byte(math, x, f.rgba@[3]);
                assert(is_fade(math, x, f));
            },
            _ => {},
        }
    }
}

proof fn opacity_is_opacity<M: PauseMath>(math: M, level: FadeLevel, a: Scalar)
    requires
        level.opacity(math, a),
    ensures
        is_opacity(math, level, a),
{
    if let FadeLevel::Falling { num, den } = level {
        let part = choose|part: Scalar|
            {
                &&& #[trigger] crate::pause_overlay::part_of_count(math, num, den, part)
                &&& call_ensures(
                    M::difference,
                    (&math, Scalar { bits: crate::scalar::ONE }, part),
                    a,
                )
            };
        assert(is_quotient(math, num, den, part));
    }
}

/// The same of the caption, whose text stays as it is.
pub proof fn the_caption_follows_its_pauses<M: PauseMath>(math: M)
    ensures
        forall|s: &mut PauseCaptionSource, frame: Option<OverlayFrame>|
            s.schedule.wf() && #[trigger] call_ensures(
                PauseCaptionSource::try_frame::<M>,
                (s, &math),
                frame,
            ) ==> exists|level: FadeLevel, a: Scalar, drawn: Option<Scalar>|
                {
                    &&& is_first_unfinished(
                        s.schedule.pauses(),
                        s.schedule.cursor(),
                        s.schedule.next_frame(),
                        final(s).schedule.cursor(),
                    )
                    &&& final(s).schedule.next_frame() == s.schedule.next_frame() + 1
                    &&& final(s).mask == s.mask
                    &&& is_level_at(
                        s.schedule.pauses(),
                        final(s).schedule.cursor(),
                        s.schedule.next_frame(),
                        level,
                    )
                    &&& #[trigger] is_opacity(math, level, a)
                    &&& #[trigger] is_drawn_when_new(s.filter, a, drawn, final(s).filter)
                    &&& match drawn {
                        Some(x) => frame matches Some(f) && is_caption(math, s.mask, x, f),
                        None => frame is None,
                    }
                },
{
    assert forall|s: &mut PauseCaptionSource, frame: Option<OverlayFrame>|
        s.schedule.wf() && #[trigger] call_ensures(
            PauseCaptionSource::try_frame::<M>,
            (s, &math),
            frame,
        ) implies exists|level: FadeLevel, a: Scalar, drawn: Option<Scalar>|
        {
            &&& is_first_unfinished(
                s.schedule.pauses(),
                s.schedule.cursor(),
                s.schedule.next_frame(),
                final(s).schedule.cursor(),
            )
            &&& final(s).schedule.next_frame() == s.schedule.next_frame() + 1
            &&& final(s).mask == s.mask
            &&& is_level_at(
                s.schedule.pauses(),
                final(s).schedule.cursor(),
                s.schedule.next_frame(),
                level,
            )
            &&& #[trigger] is_opacity(math, level, a)
            &&& #[trigger] is_drawn_when_new(s.filter, a, drawn, final(s).filter)
            &&& match drawn {
                Some(x) => frame matches Some(f) && is_caption(math, s.mask, x, f),
                None => frame is None,
            }
        } by {
        current_is_first_unfinished(
            s.schedule.pauses(),
            s.schedule.cursor(),
            s.schedule.next_frame(),
        );
        let level = crate::pause_overlay::level_of(
            s.schedule.pauses(),
            final(s).schedule.cursor(),
            s.schedule.next_frame(),
        );
        let drawn = choose|drawn: Option<Scalar>|
            {
                &&& #[trigger] crate::pause_overlay::filtered(
                    math,
                    level,
                    s.filter,
                    drawn,
                    final(s).filter,
                )
                &&& match drawn {
                    None => frame is None,
                    Some(a) => frame matches Some(f) && crate::pause_overlay::caption_drawn(
                        math,
                        s.mask,
                        a,
                        f,
                    ),
                }
            };
        let a = choose|a: Scalar|
            #[trigger] level.opacity(math, a) && (drawn, final(s).filter) == s.filter.passed(a);
        opacity_is_opacity(math, level, a);
        assert(is_drawn_when_new(s.filter, a, drawn, final(s).filter));
        match (drawn, frame) {
            (Some(x), Some(f)) => {
                caption_is_drawn(math, s.mask, x, f);
            },
            _ => {},
        }
    }
}

/// A side of the caption is as long as its design, 960 by 540, scaled to the output, but
/// not longer than the design and not shorter than 170 by 96.
pub proof fn a_caption_is_scaled_within_limits(w: u32, h: u32, size: (u32, u32))
    requires
        call_ensures(caption_size, (w, h), size),
    ensures
        170 <= size.0 <= 960,
        96 <= size.1 <= 540,
        170 <= w <= 960 ==> size.0 == w,
        96 <= h <= 540 ==> size.1 == h,
        w < 170 ==> size.0 == 170,
        w > 960 ==> size.0 == 960,
        h < 96 ==> size.1 == 96,
        h > 540 ==> size.1 == 540,
{
}

/// `n` is so many pixels, scaled and rounded.
pub open spec fn is_scaled<M: PauseMath>(math: M, pixels: u32, scale: Scalar, n: u32) -> bool {
    exists|all: Scalar, x: Scalar|
        {
            &&& #[trigger] call_ensures(M::whole, (&math, pixels as u64), all)
            &&& #[trigger] call_ensures(M::product, (&math, all, scale), x)
            &&& call_ensures(M::nearest_count, (&math, x), n)
        }
}

/// `fit` is by what 960 by 540 is scaled to be as large as an output can contain.
pub open spec fn fits_into<M: PauseMath>(math: M, output: (u32, u32), fit: Scalar) -> bool {
    exists|x: Scalar, y: Scalar, s: Scalar|
        {
            &&& #[trigger] call_ensures(M::quotient, (&math, output.0, 960u32), x)
            &&& #[trigger] call_ensures(M::quotient, (&math, output.1, 540u32), y)
            &&& s == x || s == y
            &&& !x.spec_is_nan() && !y.spec_is_nan() ==> s.at_most(x) && s.at_most(y)
            &&& #[trigger] call_ensures(
                M::product,
                (&math, s, Scalar { bits: 0x3f80_0000 }),
                fit,
            )
        }
}

/// `w` by `h` is 960 by 540, scaled by `fit`, but not by more than one.
pub open spec fn is_scaled_down<M: PauseMath>(math: M, fit: Scalar, w: u32, h: u32) -> bool {
    let one = Scalar { bits: 0x3f80_0000 };
    exists|scale: Scalar|
        {
            &&& scale == fit || scale == one
            &&& !fit.spec_is_nan() ==> scale.at_most(fit) && scale.at_most(one)
            &&& #[trigger] is_scaled(math, 960, scale, w)
            &&& is_scaled(math, 540, scale, h)
        }
}

/// `size` is 0.28 of a height.
pub open spec fn is_letter_size<M: LayerMath>(math: M, height: u32, size: Scalar) -> bool {
    exists|all: Scalar|
        {
            &&& #[trigger] call_ensures(M::whole, (&math, height as u64), all)
            &&& call_ensures(M::product, (&math, all, Scalar { bits: 0x3e8f_5c29 }), size)
        }
}

/// `side` is a side of the caption.
pub open spec fn is_caption_side(scaled: u32, least: u32, design: u32, side: u32) -> bool {
    &&& least <= side <= design
    &&& least <= scaled <= design ==> side == scaled
    &&& scaled < least ==> side == least
    &&& scaled > design ==> side == design
}

/// The layers of some pauses both start at the first of them. The caption is the given
/// text, set in letters of 0.28 of its own height, on a canvas that is 960 by 540 scaled to
/// fit into the output, but never enlarged.
pub proof fn the_layers_show_the_text_in_letters_that_fit<M: PauseMath + CaptionFont>(
    math: M,
    pauses: Vec<PauseBoundary>,
    config: PauseOverlayConfig,
    output: (u32, u32),
    layers: (PauseFadeSource, PauseCaptionSource),
) -> (r: (Scalar, u32, u32, Scalar))
    requires
        call_ensures(build_layers::<M>, (pauses, &config, output, &math), layers),
    ensures
        ({
            let (fit, w, h, letters) = r;
            let mask = layers.1.mask;
            &&& layers.0.schedule.pauses() == pauses@
            &&& layers.1.schedule.pauses() == pauses@
            &&& layers.0.schedule.next_frame() == 0
            &&& layers.1.schedule.next_frame() == 0
            &&& layers.0.schedule.cursor() == 0
            &&& layers.1.schedule.cursor() == 0
            &&& !layers.0.filter.was_active && layers.0.filter.last_alpha is None
            &&& !layers.1.filter.was_active && layers.1.filter.last_alpha is None
            &&& fits_into(math, output, fit)
            &&& is_scaled_down(math, fit, w, h)
            &&& is_caption_side(w, 170, 960, mask.width)
            &&& is_caption_side(h, 96, 540, mask.height)
            &&& is_letter_size(math, mask.height, letters)
            &&& rasterized(math, config.text@, (mask.width, mask.height), letters, mask)
        }),
{
    let mask = layers.1.mask;
    let one = Scalar { bits: crate::scalar::ONE };
    let (fit, w, h) = choose|fit: Scalar, w: u32, h: u32|
        {
            &&& fitted(
                math,
                (crate::pause_overlay::CANVAS_WIDTH, crate::pause_overlay::CANVAS_HEIGHT),
                output,
                crate::overlay::centred(),
                fit,
            )
            &&& #[trigger] scaled_to(
                math,
                crate::pause_overlay::CANVAS_WIDTH,
                fit.spec_min(one),
                w,
            )
            &&& #[trigger] scaled_to(
                math,
                crate::pause_overlay::CANVAS_HEIGHT,
                fit.spec_min(one),
                h,
            )
            &&& (mask.width as int, mask.height as int)
                == crate::pause_overlay::spec_caption_size(w, h)
        };
    let letters = choose|letters: Scalar|
        {
            &&& #[trigger] letters_sized(math, mask.height, letters)
            &&& rasterized(math, config.text@, (mask.width, mask.height), letters, mask)
        };
    let scale = fit.spec_min(one);
    assert(is_scaled(math, 960, scale, w));
    assert(is_scaled(math, 540, scale, h));
    let (x, y) = choose|x: Scalar, y: Scalar|
        {
            &&& #[trigger] call_ensures(M::quotient, (&math, output.0, 960u32), x)
            &&& #[trigger] call_ensures(M::quotient, (&math, output.1, 540u32), y)
            &&& call_ensures(
                M::product,
                (&math, x.spec_min(y), crate::overlay::centred().scale),
                fit,
            )
        };
    let s = x.spec_min(y);
    assert(call_ensures(M::product, (&math, s, Scalar { bits: 0x3f80_0000 }), fit));
    assert(s == x || s == y);
    assert(!x.spec_is_nan() && !y.spec_is_nan() ==> s.at_most(x) && s.at_most(y));
    assert(scale == fit || scale == one);
    assert(!fit.spec_is_nan() ==> scale.at_most(fit) && scale.at_most(one));
    assert(fits_into(math, output, fit));
    assert(is_scaled_down(math, fit, w, h));
    assert(is_caption_side(w, 170, 960, mask.width));
    assert(is_caption_side(h, 96, 540, mask.height));
    assert(is_letter_size(math, mask.height, letters));
    (fit, w, h, letters)
}

/// A number of which 0.28 is taken is larger than what comes out.
pub open spec fn a_part_is_less<M: LayerMath>(math: M, height: u32) -> bool {
    forall|all: Scalar, size: Scalar|
        {
            &&& #[trigger] call_ensures(M::whole, (&math, height as u64), all)
            &&& #[trigger] call_ensures(
                M::product,
                (&math, all, Scalar { bits: 0x3e8f_5c29 }),
                size,
            )
        } ==> size.below(all)
}

/// The letters of a caption are lower than the caption.
pub proof fn letters_are_lower_than_the_caption<M: PauseMath>(
    math: M,
    height: u32,
    letters: Scalar,
) -> (all: Scalar)
    requires
        letters_sized(math, height, letters),
        a_part_is_less(math, height),
    ensures
        call_ensures(M::whole, (&math, height as u64), all),
        letters.below(all),
{
    choose|all: Scalar|
        {
            &&& #[trigger] call_ensures(M::whole, (&math, height as u64), all)
            &&& call_ensures(
                M::product,
                (&math, all, Scalar { bits: crate::pause_overlay::LETTERS }),
                letters,
            )
        }
}

/// Plotting a pixel covers that pixel by at least so much, and no other; one off the mask
/// covers none.
pub proof fn plotting_covers_one_pixel()
    ensures
        forall|m: &mut TextMask, p: CoveredPixel|
            m.wf() && #[trigger] call_ensures(TextMask::plot, (m, p), ()) ==> {
                &&& final(m).width == m.width
                &&& final(m).height == m.height
                &&& final(m).coverage@.len() == m.coverage@.len()
                &&& forall|i: int|
                    0 <= i < m.coverage@.len() ==> {
                        let here = 0 <= p.x < m.width && 0 <= p.y < m.height && i == p.y * m.width
                            + p.x;
                        &&& !here ==> #[trigger] final(m).coverage@[i] == m.coverage@[i]
                        &&& here ==> final(m).coverage@[i] == m.coverage@[i]
                            || final(m).coverage@[i] == p.coverage
                        &&& here && !m.coverage@[i].spec_is_nan() && !p.coverage.spec_is_nan()
                            ==> m.coverage@[i].at_most(final(m).coverage@[i])
                            && p.coverage.at_most(final(m).coverage@[i])
                    }
            },
{
    assert forall|m: &mut TextMask, p: CoveredPixel|
        m.wf() && #[trigger] call_ensures(TextMask::plot, (m, p), ()) && 0 <= p.x < m.width && 0
            <= p.y < m.height implies 0 <= p.y * m.width + p.x < m.coverage@.len() by {
        assert(0 <= p.y * m.width + p.x < m.width * m.height) by (nonlinear_arith)
            requires
                0 <= p.x < m.width,
                0 <= p.y,
                p.y + 1 <= m.height,
        ;
    }
}

/// The pixel is the i-th of a canvas, row by row.
pub open spec fn covers(canvas: (u32, u32), p: CoveredPixel, i: int) -> bool {
    0 <= p.x < canvas.0 && 0 <= p.y < canvas.1 && i == p.y * canvas.0 + p.x
}

/// A canvas is covered by some pixels: each place by the most that covers it, and by nothing
/// where none does.
pub open spec fn is_covered_by(
    canvas: (u32, u32),
    pixels: Seq<CoveredPixel>,
    coverage: Seq<Scalar>,
) -> bool {
    &&& coverage.len() == canvas.0 * canvas.1
    &&& forall|i: int|
        0 <= i < coverage.len() ==> (#[trigger] coverage[i]).bits == 0 || exists|k: int|
            0 <= k < pixels.len() && covers(canvas, #[trigger] pixels[k], i) && coverage[i]
                == pixels[k].coverage
    &&& forall|k: int, i: int|
        0 <= k < pixels.len() && #[trigger] covers(canvas, pixels[k], i)
            && !pixels[k].coverage.spec_is_nan() ==> pixels[k].coverage.at_most(coverage[i])
    &&& forall|i: int|
        0 <= i < coverage.len() ==> !(#[trigger] coverage[i]).spec_is_nan() && (Scalar {
            bits: 0,
        }).at_most(coverage[i])
}

proof fn one_more_covers(
    canvas: (u32, u32),
    pixels: Seq<CoveredPixel>,
    coverage: Seq<Scalar>,
    p: CoveredPixel,
)
    requires
        is_covered_by(canvas, pixels, coverage),
    ensures
        is_covered_by(
            canvas,
            pixels.push(p),
            crate::pause_overlay::plotted(canvas, coverage, p),
        ),
{
    let after = crate::pause_overlay::plotted(canvas, coverage, p);
    let all = pixels.push(p);
    let at = p.y * canvas.0 + p.x;
    if 0 <= p.x < canvas.0 && 0 <= p.y < canvas.1 {
        assert(0 <= at < canvas.0 * canvas.1) by (nonlinear_arith)
            requires
                at == p.y * canvas.0 + p.x,
                0 <= p.x < canvas.0,
                0 <= p.y,
                p.y + 1 <= canvas.1,
        ;
    }
    assert forall|i: int| 0 <= i < after.len() implies (#[trigger] after[i]).bits == 0 || exists|
        k: int,
    |
        0 <= k < all.len() && covers(canvas, #[trigger] all[k], i) && after[i]
            == all[k].coverage by {
        let n = pixels.len() as int;
        if after[i] == coverage[i] {
            if coverage[i].bits != 0 {
                let k = choose|k: int|
                    0 <= k < pixels.len() && covers(canvas, #[trigger] pixels[k], i) && coverage[i]
                        == pixels[k].coverage;
                assert(all[k] == pixels[k]);
            }
        } else {
            assert(all[n] == p);
            assert(covers(canvas, all[n], i));
        }
    }
    assert forall|k: int, i: int|
        0 <= k < all.len() && #[trigger] covers(canvas, all[k], i)
            && !all[k].coverage.spec_is_nan() implies all[k].coverage.at_most(after[i]) by {
        if k < pixels.len() {
            assert(all[k] == pixels[k]);
            assert(covers(canvas, pixels[k], i));
            assert(0 <= i < coverage.len()) by (nonlinear_arith)
                requires
                    covers(canvas, pixels[k], i),
                    coverage.len() == canvas.0 * canvas.1,
            ;
            assert(!coverage[i].spec_is_nan());
        } else {
            assert(all[k] == p);
        }
    }
}

proof fn more_cover(
    canvas: (u32, u32),
    before: Seq<CoveredPixel>,
    coverage: Seq<Scalar>,
    pixels: Seq<CoveredPixel>,
)
    requires
        is_covered_by(canvas, before, coverage),
    ensures
        is_covered_by(
            canvas,
            before + pixels,
            crate::pause_overlay::plotted_all(canvas, coverage, pixels),
        ),
    decreases pixels.len(),
{
    if pixels.len() == 0 {
        assert(before + pixels =~= before);
    } else {
        let rest = pixels.drop_last();
        more_cover(canvas, before, coverage, rest);
        one_more_covers(
            canvas,
            before + rest,
            crate::pause_overlay::plotted_all(canvas, coverage, rest),
            pixels.last(),
        );
        assert((before + rest).push(pixels.last()) =~= before + pixels);
    }
}

/// All pixels of some glyphs.
pub open spec fn pixels_of_all(outlines: Seq<Vec<CoveredPixel>>) -> Seq<CoveredPixel> {
    outlines.map_values(|v: Vec<CoveredPixel>| v@).flatten_alt()
}

proof fn glyphs_cover(canvas: (u32, u32), outlines: Seq<Vec<CoveredPixel>>)
    ensures
        is_covered_by(
            canvas,
            pixels_of_all(outlines),
            crate::pause_overlay::plotted_glyphs(
                canvas,
                crate::pause_overlay::bare(canvas),
                outlines,
            ),
        ),
    decreases outlines.len(),
{
    let each = outlines.map_values(|v: Vec<CoveredPixel>| v@);
    if outlines.len() == 0 {
        assert(0 <= canvas.0 * canvas.1) by (nonlinear_arith)
            requires
                canvas.0 >= 0,
                canvas.1 >= 0,
        ;
    } else {
        let rest = outlines.drop_last();
        glyphs_cover(canvas, rest);
        assert(each.drop_last() =~= rest.map_values(|v: Vec<CoveredPixel>| v@));
        more_cover(
            canvas,
            pixels_of_all(rest),
            crate::pause_overlay::plotted_glyphs(canvas, crate::pause_overlay::bare(canvas), rest),
            outlines.last()@,
        );
    }
}

/// The pen goes from `from` by a length.
pub open spec fn pen_goes<F: CaptionFont>(font: F, from: Scalar, by: Scalar, to: Scalar) -> bool {
    call_ensures(F::sum, (&font, from, by), to)
}

/// The i-th letter of a text: its glyph stands at the pen, which was moved by the kerning with
/// the glyph before it, if there is one, and goes on by its advance; it covers the pixels of
/// its outline, as far from the start of the line as its pen is.
pub open spec fn is_set_letter<F: CaptionFont>(
    font: F,
    size: Scalar,
    text: Seq<char>,
    run: GlyphRun,
    i: int,
) -> bool {
    &&& call_ensures(F::glyph_id, (&font, text[i]), run.ids[i])
    &&& i == 0 ==> run.pens[i] == run.ends[i]
    &&& i > 0 ==> exists|k: Scalar|
        #[trigger] call_ensures(F::kern, (&font, size, run.ids[i - 1], run.ids[i]), k) && pen_goes(
            font,
            run.ends[i],
            k,
            run.pens[i],
        )
    &&& exists|a: Scalar|
        #[trigger] call_ensures(F::h_advance, (&font, size, run.ids[i]), a) && pen_goes(
            font,
            run.pens[i],
            a,
            run.ends[i + 1],
        )
    &&& exists|x: Scalar|
        #[trigger] pen_goes(font, run.origin.0, run.pens[i], x) && call_ensures(
            F::outline,
            (&font, size, run.ids[i], (x, run.origin.1)),
            run.outlines[i],
        )
}

/// A text is set letter by letter, from the place at which a line of its whole length starts,
/// and covers what its glyphs cover.
pub proof fn a_text_is_set_letter_by_letter<F: CaptionFont>(
    font: F,
    text: &str,
    width: u32,
    height: u32,
    size: Scalar,
    mask: TextMask,
) -> (run: GlyphRun)
    requires
        call_ensures(rasterize_text::<F>, (text, width, height, size, &font), mask),
    ensures
        mask.width == width,
        mask.height == height,
        run.ids.len() == text@.len(),
        run.pens.len() == text@.len(),
        run.outlines.len() == text@.len(),
        run.ends.len() == text@.len() + 1,
        run.ends[0].bits == 0,
        call_ensures(
            F::origin,
            (&font, size, (width, height), run.ends[text@.len() as int]),
            run.origin,
        ),
        forall|i: int|
            0 <= i < text@.len() ==> #[trigger] is_set_letter(font, size, text@, run, i),
        is_covered_by((width, height), pixels_of_all(run.outlines), mask.coverage@),
{
    let canvas = (width, height);
    let run = choose|run: GlyphRun|
        {
            &&& #[trigger] run.sets(font, size, text@, canvas)
            &&& mask.coverage@ == crate::pause_overlay::plotted_glyphs(
                canvas,
                crate::pause_overlay::bare(canvas),
                run.outlines,
            )
        };
    assert forall|i: int| 0 <= i < text@.len() implies #[trigger] is_set_letter(
        font,
        size,
        text@,
        run,
        i,
    ) by {
        let id = run.ids[i];
        let pixels = run.outlines[i];
        if i > 0 {
            let k = choose|k: Scalar|
                {
                    &&& #[trigger] call_ensures(F::kern, (&font, size, run.ids[i - 1], id), k)
                    &&& call_ensures(F::sum, (&font, run.ends[i], k), run.pens[i])
                };
            assert(pen_goes(font, run.ends[i], k, run.pens[i]));
        }
        let x = choose|x: Scalar|
            {
                &&& #[trigger] call_ensures(F::sum, (&font, run.origin.0, run.pens[i]), x)
                &&& call_ensures(F::outline, (&font, size, id, (x, run.origin.1)), pixels)
            };
        assert(pen_goes(font, run.origin.0, run.pens[i], x));
    }
    glyphs_cover(canvas, run.outlines);
    run
}

} // verus!
