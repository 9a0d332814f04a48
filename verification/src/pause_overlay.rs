//! A fade to black with a caption, held over every pause in the recording.

use crate::layer_math::{quantize, quantized, LayerMath};
use crate::overlay::{centred, contain_fit_render_scale, fitted, OverlayFrame, OverlayPlacement};
use crate::scalar::{Scalar, ONE, TWO, ZERO};
use vstd::prelude::*;
use vstd::string::{StrSliceExecFns, StringExecFns};

verus! {

/// The size that the fade and the caption are designed for.
pub const CANVAS_WIDTH: u32 = 960;

pub const CANVAS_HEIGHT: u32 = 540;

/// The caption is not drawn smaller than this.
pub const MIN_CAPTION_HEIGHT_PX: u32 = 96;

/// The size of letters in a caption of height one: the bits of 0.28.
pub const LETTERS: u32 = 0x3e8f_5c29;

/// The arithmetic of a pause.
pub trait PauseMath: LayerMath {
    /// The nearest count.
    fn nearest_count(&self, x: Scalar) -> u32;
}

/// `part` is what `num` is of `den`.
pub open spec fn part_of_count<M: PauseMath>(math: M, num: u64, den: u64, part: Scalar) -> bool {
    exists|n: Scalar, d: Scalar|
        {
            &&& #[trigger] call_ensures(M::whole, (&math, num), n)
            &&& #[trigger] call_ensures(M::whole, (&math, den), d)
            &&& call_ensures(M::ratio, (&math, n, d), part)
        }
}

fn count_part<M: PauseMath>(num: u64, den: u64, math: &M) -> (part: Scalar)
    ensures
        part_of_count(*math, num, den, part),
{
    let n: Scalar = math.whole(num);
    let d: Scalar = math.whole(den);
    math.ratio(n, d)
}

/// `rest` is what that part leaves of one.
pub open spec fn rest_of_count<M: PauseMath>(math: M, num: u64, den: u64, rest: Scalar) -> bool {
    exists|part: Scalar|
        {
            &&& #[trigger] part_of_count(math, num, den, part)
            &&& call_ensures(M::difference, (&math, Scalar { bits: ONE }, part), rest)
        }
}

/// `byte` is the opacity of a pixel of which a part is covered.
pub open spec fn shaded<M: PauseMath>(math: M, coverage: Scalar, alpha: u8, byte: u8) -> bool {
    exists|full: Scalar, x: Scalar|
        {
            &&& #[trigger] call_ensures(M::whole, (&math, alpha as u64), full)
            &&& #[trigger] call_ensures(M::product, (&math, coverage, full), x)
            &&& call_ensures(M::nearest, (&math, x), byte)
        }
}

fn shade<M: PauseMath>(coverage: Scalar, alpha: u8, math: &M) -> (byte: u8)
    ensures
        shaded(*math, coverage, alpha, byte),
{
    let full: Scalar = math.whole(alpha as u64);
    let x: Scalar = math.product(coverage, full);
    math.nearest(x)
}

/// `count` is a number of pixels, scaled and rounded.
pub open spec fn scaled_to<M: PauseMath>(math: M, pixels: u32, scale: Scalar, count: u32) -> bool {
    exists|n: Scalar, x: Scalar|
        {
            &&& #[trigger] call_ensures(M::whole, (&math, pixels as u64), n)
            &&& #[trigger] call_ensures(M::product, (&math, n, scale), x)
            &&& call_ensures(M::nearest_count, (&math, x), count)
        }
}

fn scaled<M: PauseMath>(pixels: u32, scale: Scalar, math: &M) -> (count: u32)
    ensures
        scaled_to(*math, pixels, scale, count),
{
    let n: Scalar = math.whole(pixels as u64);
    let x: Scalar = math.product(n, scale);
    math.nearest_count(x)
}

/// `size` is that of the letters in a caption of this height.
pub open spec fn letters_sized<M: PauseMath>(math: M, caption_height: u32, size: Scalar) -> bool {
    exists|n: Scalar|
        {
            &&& #[trigger] call_ensures(M::whole, (&math, caption_height as u64), n)
            &&& call_ensures(M::product, (&math, n, Scalar { bits: LETTERS }), size)
        }
}

fn letter_size<M: PauseMath>(caption_height: u32, math: &M) -> (size: Scalar)
    ensures
        letters_sized(*math, caption_height, size),
{
    let n: Scalar = math.whole(caption_height as u64);
    math.product(n, Scalar { bits: LETTERS })
}

/// A pixel that a glyph covers in part. It may lie off the canvas.
#[derive(Clone, Copy, Debug, PartialEq, Eq, Structural)]
pub struct CoveredPixel {
    pub x: i32,
    pub y: i32,
    pub coverage: Scalar,
}

/// A font, whose measures are numbers.
pub trait CaptionFont {
    fn glyph_id(&self, letter: char) -> u16;

    /// How much closer two glyphs stand than side by side.
    fn kern(&self, size: Scalar, before: u16, id: u16) -> Scalar;

    /// How far a glyph moves the pen.
    fn h_advance(&self, size: Scalar, id: u16) -> Scalar;

    /// The sum of two lengths.
    fn sum(&self, a: Scalar, b: Scalar) -> Scalar;

    /// Where a text of the given length starts that is centred on a canvas.
    fn origin(&self, size: Scalar, canvas: (u32, u32), length: Scalar) -> (Scalar, Scalar);

    /// The pixels that a glyph covers.
    fn outline(&self, size: Scalar, id: u16, at: (Scalar, Scalar)) -> Vec<CoveredPixel>;
}

/// How long a pause is shown, and what it says.
#[derive(Debug)]
pub struct PauseOverlayConfig {
    pub fade_secs: Scalar,
    pub hold_secs: Scalar,
    pub text: String,
}

/// Why a configuration is refused.
#[derive(Clone, Copy, Debug, PartialEq, Eq, Structural)]
pub enum PauseConfigError {
    Fade(Scalar),
    Hold(Scalar),
    NoDuration,
}

pub open spec fn unusable_duration(secs: Scalar) -> bool {
    !secs.spec_is_finite() || secs.below(Scalar { bits: ZERO })
}

/// What is wrong with the two durations, if anything. Two durations that are
/// not negative add up to nothing just when both are zero.
pub open spec fn duration_fault(fade: Scalar, hold: Scalar) -> Option<PauseConfigError> {
    if unusable_duration(fade) {
        Some(PauseConfigError::Fade(fade))
    } else if unusable_duration(hold) {
        Some(PauseConfigError::Hold(hold))
    } else if fade.equals(Scalar { bits: ZERO }) && hold.equals(Scalar { bits: ZERO }) {
        Some(PauseConfigError::NoDuration)
    } else {
        None
    }
}

impl PauseConfigError {
    pub open spec fn text(self, shown: Seq<char>) -> Seq<char> {
        match self {
            PauseConfigError::Fade(_) => "pause overlay fade duration ("@ + shown
                + "s) must be finite and >= 0"@,
            PauseConfigError::Hold(_) => "pause overlay hold duration ("@ + shown
                + "s) must be finite and >= 0"@,
            PauseConfigError::NoDuration => "pause overlay duration must be greater than 0"@,
        }
    }

    /// The message, with the offending duration as it is to be `shown`.
    pub fn message(&self, shown: &str) -> (m: String)
        ensures
            m@ == self.text(shown@),
    {
        match self {
            PauseConfigError::Fade(_) => {
                let mut m: String = "pause overlay fade duration (".to_owned();
                m.append(shown);
                m.append("s) must be finite and >= 0");
                m
            },
            PauseConfigError::Hold(_) => {
                let mut m: String = "pause overlay hold duration (".to_owned();
                m.append(shown);
                m.append("s) must be finite and >= 0");
                m
            },
            PauseConfigError::NoDuration => {
                "pause overlay duration must be greater than 0".to_owned()
            },
        }
    }
}

impl PauseOverlayConfig {
    pub fn new(fade_secs: Scalar, hold_secs: Scalar, text: String) -> (r: Result<
        PauseOverlayConfig,
        PauseConfigError,
    >)
        ensures
            r is Ok <==> duration_fault(fade_secs, hold_secs) is None,
            r matches Err(e) ==> duration_fault(fade_secs, hold_secs) == Some(e),
            r matches Ok(c) ==> c.fade_secs == fade_secs && c.hold_secs == hold_secs && c.text
                == text,
    {
        let zero = Scalar { bits: ZERO };
        if !fade_secs.is_finite() || fade_secs.lt(zero) {
            return Err(PauseConfigError::Fade(fade_secs));
        }
        if !hold_secs.is_finite() || hold_secs.lt(zero) {
            return Err(PauseConfigError::Hold(hold_secs));
        }
        if fade_secs.eq_number(zero) && hold_secs.eq_number(zero) {
            return Err(PauseConfigError::NoDuration);
        }
        Ok(PauseOverlayConfig { fade_secs, hold_secs, text })
    }

    /// How long one pause is on the screen.
    pub fn total_secs<M: PauseMath>(&self, math: &M) -> (secs: Scalar)
        ensures
            exists|fades: Scalar|
                {
                    &&& #[trigger] call_ensures(
                        M::product,
                        (math, self.fade_secs, Scalar { bits: TWO }),
                        fades,
                    )
                    &&& call_ensures(M::sum, (math, fades, self.hold_secs), secs)
                },
    {
        let fades: Scalar = math.product(self.fade_secs, Scalar { bits: TWO });
        math.sum(fades, self.hold_secs)
    }
}

/// The frames of one pause: it fades out from `fade_out_start`, is dark from
/// `hold_start`, fades in from `hold_end` and is over at `fade_in_end`.
#[derive(Clone, Copy, Debug, PartialEq, Eq, Structural)]
pub struct PauseBoundary {
    pub fade_out_start: u64,
    pub hold_start: u64,
    pub hold_end: u64,
    pub fade_in_end: u64,
}

/// How dark a frame is: not at all, completely, or by a fraction; `Falling` is
/// what the fraction leaves of completely.
#[derive(Clone, Copy, Debug, PartialEq, Eq, Structural)]
pub enum FadeLevel {
    Clear,
    Rising { num: u64, den: u64 },
    Full,
    Falling { num: u64, den: u64 },
}

impl PauseBoundary {
    /// The level of a frame that comes before the pause is over.
    pub open spec fn level(self, frame: u64) -> FadeLevel {
        if self.fade_out_start == self.fade_in_end || frame < self.fade_out_start {
            FadeLevel::Clear
        } else if frame < self.hold_start {
            FadeLevel::Rising {
                num: (frame - self.fade_out_start) as u64,
                den: (self.hold_start - self.fade_out_start) as u64,
            }
        } else if frame < self.hold_end {
            FadeLevel::Full
        } else {
            FadeLevel::Falling {
                num: (frame - self.hold_end) as u64,
                den: (self.fade_in_end - self.hold_end) as u64,
            }
        }
    }
}

impl FadeLevel {
    /// `a` is the opacity of this level.
    pub open spec fn opacity<M: PauseMath>(self, math: M, a: Scalar) -> bool {
        match self {
            FadeLevel::Clear => a == (Scalar { bits: ZERO }),
            FadeLevel::Full => a == (Scalar { bits: ONE }),
            FadeLevel::Rising { num, den } => part_of_count(math, num, den, a),
            FadeLevel::Falling { num, den } => rest_of_count(math, num, den, a),
        }
    }

    pub fn alpha<M: PauseMath>(&self, math: &M) -> (a: Scalar)
        ensures
            self.opacity(*math, a),
    {
        match self {
            FadeLevel::Clear => Scalar { bits: ZERO },
            FadeLevel::Full => Scalar { bits: ONE },
            FadeLevel::Rising { num, den } => count_part(*num, *den, math),
            FadeLevel::Falling { num, den } => {
                let part: Scalar = count_part(*num, *den, math);
                math.difference(Scalar { bits: ONE }, part)
            },
        }
    }
}

/// The first pause from the `cursor`-th on that is not over at `frame`.
pub open spec fn current_pause(boundaries: Seq<PauseBoundary>, cursor: int, frame: u64) -> int
    decreases boundaries.len() - cursor,
{
    if 0 <= cursor < boundaries.len() && frame >= boundaries[cursor].fade_in_end {
        current_pause(boundaries, cursor + 1, frame)
    } else {
        cursor
    }
}

pub open spec fn level_of(boundaries: Seq<PauseBoundary>, cursor: int, frame: u64) -> FadeLevel {
    if cursor < boundaries.len() {
        boundaries[cursor].level(frame)
    } else {
        FadeLevel::Clear
    }
}

/// The pauses of a recording, and how far through them the frames have come.
pub struct Schedule {
    boundaries: Vec<PauseBoundary>,
    cursor: usize,
    frame_index: u64,
}

impl Schedule {
    pub closed spec fn pauses(self) -> Seq<PauseBoundary> {
        self.boundaries@
    }

    /// The pause that the last frame asked for fell before or into.
    pub closed spec fn cursor(self) -> int {
        self.cursor as int
    }

    /// The frame that comes next.
    pub closed spec fn next_frame(self) -> u64 {
        self.frame_index
    }

    /// A schedule of these pauses that no frame was asked of yet.
    pub open spec fn starts(self, pauses: Seq<PauseBoundary>) -> bool {
        &&& self.wf()
        &&& self.pauses() == pauses
        &&& self.cursor() == 0
        &&& self.next_frame() == 0
    }

    /// `after` is the schedule once the next frame was asked for.
    pub open spec fn stepped(self, after: Schedule) -> bool {
        &&& after.wf()
        &&& after.pauses() == self.pauses()
        &&& after.next_frame() == self.next_frame() + 1
        &&& after.cursor() == current_pause(self.pauses(), self.cursor(), self.next_frame())
    }

    pub open spec fn wf(self) -> bool {
        0 <= self.cursor() <= self.pauses().len()
    }

    pub fn new(boundaries: Vec<PauseBoundary>) -> (s: Schedule)
        ensures
            s.starts(boundaries@),
    {
        Schedule { boundaries, cursor: 0, frame_index: 0 }
    }

    /// The level of the next frame.
    pub fn advance(&mut self) -> (level: FadeLevel)
        requires
            old(self).wf(),
            old(self).next_frame() < u64::MAX,
        ensures
            old(self).stepped(*final(self)),
            level == level_of(
                old(self).pauses(),
                final(self).cursor(),
                old(self).next_frame(),
            ),
    {
        let frame_index: u64 = self.frame_index;
        self.frame_index = frame_index + 1;
        self.alpha_at(frame_index)
    }

    /// The level of a frame. Pauses that are over by then are left behind for
    /// good, so frames are asked for in order.
    pub fn alpha_at(&mut self, frame_index: u64) -> (level: FadeLevel)
        requires
            old(self).wf(),
        ensures
            final(self).wf(),
            final(self).pauses() == old(self).pauses(),
            final(self).next_frame() == old(self).next_frame(),
            final(self).cursor() == current_pause(
                old(self).pauses(),
                old(self).cursor(),
                frame_index,
            ),
            level == level_of(old(self).pauses(), final(self).cursor(), frame_index),
    {
        while self.cursor < self.boundaries.len() && frame_index
            >= self.boundaries[self.cursor].fade_in_end
            invariant
                self.cursor <= self.boundaries@.len(),
                self.boundaries == old(self).boundaries,
                self.frame_index == old(self).frame_index,
                current_pause(self.boundaries@, self.cursor as int, frame_index) == current_pause(
                    old(self).boundaries@,
                    old(self).cursor as int,
                    frame_index,
                ),
            decreases self.boundaries@.len() - self.cursor,
        {
            self.cursor = self.cursor + 1;
        }
        if self.cursor >= self.boundaries.len() {
            return FadeLevel::Clear;
        }
        let b: PauseBoundary = self.boundaries[self.cursor];
        if b.fade_out_start == b.fade_in_end || frame_index < b.fade_out_start {
            FadeLevel::Clear
        } else if frame_index < b.hold_start {
            FadeLevel::Rising {
                num: frame_index - b.fade_out_start,
                den: b.hold_start - b.fade_out_start,
            }
        } else if frame_index < b.hold_end {
            FadeLevel::Full
        } else {
            FadeLevel::Falling { num: frame_index - b.hold_end, den: b.fade_in_end - b.hold_end }
        }
    }
}

/// Which frames have to be drawn again: a change of opacity, and the one frame
/// that clears the screen after a pause.
#[derive(Clone, Copy, Debug)]
pub struct FadeFilter {
    pub was_active: bool,
    pub last_alpha: Option<Scalar>,
}

pub open spec fn unchanged_alpha(last: Option<Scalar>, alpha: Scalar) -> bool {
    last matches Some(l) && l.equals(alpha)
}

impl FadeFilter {
    /// The opacity to draw, if the frame has to be drawn, and the filter after.
    pub open spec fn passed(self, alpha: Scalar) -> (Option<Scalar>, FadeFilter) {
        let zero = Scalar { bits: ZERO };
        if alpha.at_most(zero) {
            if self.was_active {
                (Some(zero), FadeFilter { was_active: false, last_alpha: Some(zero) })
            } else {
                (None, self)
            }
        } else if unchanged_alpha(self.last_alpha, alpha) {
            (None, self)
        } else {
            (Some(alpha), FadeFilter { was_active: true, last_alpha: Some(alpha) })
        }
    }

    pub fn new() -> (f: FadeFilter)
        ensures
            f == (FadeFilter { was_active: false, last_alpha: None }),
    {
        FadeFilter { was_active: false, last_alpha: None }
    }

    /// The opacity to draw for a frame of opacity `alpha`, if any.
    pub fn pass(&mut self, alpha: Scalar) -> (drawn: Option<Scalar>)
        ensures
            (drawn, *final(self)) == old(self).passed(alpha),
    {
        let zero = Scalar { bits: ZERO };
        if alpha.le(zero) {
            if self.was_active {
                self.was_active = false;
                self.last_alpha = Some(zero);
                return Some(zero);
            }
            return None;
        }
        let unchanged: bool = match self.last_alpha {
            Some(l) => l.eq_number(alpha),
            None => false,
        };
        if unchanged {
            return None;
        }
        self.was_active = true;
        self.last_alpha = Some(alpha);
        Some(alpha)
    }
}

/// An opacity between none and full.
pub open spec fn held_part(x: Scalar) -> Scalar {
    x.spec_clamp(Scalar { bits: ZERO }, Scalar { bits: ONE })
}

/// `frame` is black of the given opacity, as a single pixel.
pub open spec fn faded<M: PauseMath>(math: M, alpha: Scalar, frame: OverlayFrame) -> bool {
    &&& frame.width == 1
    &&& frame.height == 1
    &&& frame.design_size == (CANVAS_WIDTH, CANVAS_HEIGHT)
    &&& frame.rgba@ == seq![0u8, 0u8, 0u8, frame.rgba@[3]]
    &&& quantized(math, alpha, frame.rgba@[3])
}

pub fn render_fade<M: PauseMath>(alpha: Scalar, math: &M) -> (frame: OverlayFrame)
    ensures
        faded(*math, alpha, frame),
        frame.fault() is None,
{
    let byte: u8 = quantize(alpha, math);
    let mut rgba: Vec<u8> = Vec::new();
    rgba.push(0);
    rgba.push(0);
    rgba.push(0);
    rgba.push(byte);
    assert(rgba@ =~= seq![0u8, 0u8, 0u8, byte]);
    OverlayFrame { width: 1, height: 1, design_size: (CANVAS_WIDTH, CANVAS_HEIGHT), rgba }
}

/// How much of each pixel the caption covers.
#[derive(Debug)]
pub struct TextMask {
    pub width: u32,
    pub height: u32,
    pub coverage: Vec<Scalar>,
}

/// The coverage of a canvas once a pixel is covered by at least so much. A pixel
/// off the canvas is left out.
pub open spec fn plotted(canvas: (u32, u32), coverage: Seq<Scalar>, p: CoveredPixel) -> Seq<
    Scalar,
> {
    if 0 <= p.x < canvas.0 && 0 <= p.y < canvas.1 {
        let i = p.y * canvas.0 + p.x;
        coverage.update(i, coverage[i].spec_max(p.coverage))
    } else {
        coverage
    }
}

pub open spec fn plotted_all(
    canvas: (u32, u32),
    coverage: Seq<Scalar>,
    pixels: Seq<CoveredPixel>,
) -> Seq<Scalar>
    decreases pixels.len(),
{
    if pixels.len() == 0 {
        coverage
    } else {
        plotted(canvas, plotted_all(canvas, coverage, pixels.drop_last()), pixels.last())
    }
}

/// The coverage of a canvas once all glyphs are drawn, one after the other.
pub open spec fn plotted_glyphs(
    canvas: (u32, u32),
    coverage: Seq<Scalar>,
    outlines: Seq<Vec<CoveredPixel>>,
) -> Seq<Scalar>
    decreases outlines.len(),
{
    if outlines.len() == 0 {
        coverage
    } else {
        plotted_all(
            canvas,
            plotted_glyphs(canvas, coverage, outlines.drop_last()),
            outlines.last()@,
        )
    }
}

/// A canvas that nothing covers.
pub open spec fn bare(canvas: (u32, u32)) -> Seq<Scalar> {
    Seq::new((canvas.0 * canvas.1) as nat, |i: int| Scalar { bits: ZERO })
}

impl TextMask {
    pub open spec fn wf(self) -> bool {
        self.width * self.height <= u32::MAX && self.coverage@.len() == self.width * self.height
    }

    /// A mask that covers nothing.
    pub fn new(width: u32, height: u32) -> (m: TextMask)
        requires
            width * height <= u32::MAX,
        ensures
            m.wf(),
            m.width == width,
            m.height == height,
            m.coverage@ == bare((width, height)),
    {
        let n: u32 = width * height;
        let mut coverage: Vec<Scalar> = Vec::new();
        while coverage.len() < n as usize
            invariant
                coverage@.len() <= n,
                forall|i: int|
                    0 <= i < coverage@.len() ==> #[trigger] coverage@[i] == (Scalar {
                        bits: ZERO,
                    }),
            decreases n - coverage@.len(),
        {
            coverage.push(Scalar { bits: ZERO });
        }
        TextMask { width, height, coverage }
    }

    /// Covers a pixel by at least so much. A pixel off the mask is left out.
    pub fn plot(&mut self, p: CoveredPixel)
        requires
            old(self).wf(),
        ensures
            final(self).wf(),
            final(self).width == old(self).width,
            final(self).height == old(self).height,
            final(self).coverage@ == plotted(
                (old(self).width, old(self).height),
                old(self).coverage@,
                p,
            ),
    {
        if p.x >= 0 && p.y >= 0 && (p.x as u32) < self.width && (p.y as u32) < self.height {
            let x: u32 = p.x as u32;
            let y: u32 = p.y as u32;
            assert(0 <= y * self.width && y * self.width + self.width <= self.width * self.height)
                by (nonlinear_arith)
                requires
                    y + 1 <= self.height,
                    y >= 0,
                    self.width >= 0,
            ;
            let i: usize = (y * self.width + x) as usize;
            let held: Scalar = self.coverage[i].max(p.coverage);
            self.coverage[i] = held;
        }
    }

    fn plot_all(&mut self, pixels: &Vec<CoveredPixel>)
        requires
            old(self).wf(),
        ensures
            final(self).wf(),
            final(self).width == old(self).width,
            final(self).height == old(self).height,
            final(self).coverage@ == plotted_all(
                (old(self).width, old(self).height),
                old(self).coverage@,
                pixels@,
            ),
    {
        let mut i: usize = 0;
        while i < pixels.len()
            invariant
                i <= pixels@.len(),
                self.wf(),
                self.width == old(self).width,
                self.height == old(self).height,
                self.coverage@ == plotted_all(
                    (old(self).width, old(self).height),
                    old(self).coverage@,
                    pixels@.take(i as int),
                ),
            decreases pixels@.len() - i,
        {
            proof {
                assert(pixels@.take(i + 1).drop_last() =~= pixels@.take(i as int));
            }
            self.plot(pixels[i]);
            i += 1;
        }
        assert(pixels@.take(i as int) =~= pixels@);
    }
}

/// How a line of text is set: its glyphs, where the pen is at each glyph, where
/// it was before (and at last after) it, where the line starts, and which pixels
/// each glyph covers.
pub struct GlyphRun {
    pub ids: Seq<u16>,
    pub pens: Seq<Scalar>,
    pub ends: Seq<Scalar>,
    pub origin: (Scalar, Scalar),
    pub outlines: Seq<Vec<CoveredPixel>>,
}

/// `to` is the pen at a glyph: moved by the kerning from where the glyph before
/// left it.
pub open spec fn kerned<F: CaptionFont>(
    font: F,
    size: Scalar,
    from: Scalar,
    before: Option<u16>,
    id: u16,
    to: Scalar,
) -> bool {
    match before {
        None => to == from,
        Some(b) => moved_by_kern(font, size, from, b, id, to),
    }
}

pub open spec fn moved_by_kern<F: CaptionFont>(
    font: F,
    size: Scalar,
    from: Scalar,
    before: u16,
    id: u16,
    to: Scalar,
) -> bool {
    exists|k: Scalar|
        {
            &&& #[trigger] call_ensures(F::kern, (&font, size, before, id), k)
            &&& call_ensures(F::sum, (&font, from, k), to)
        }
}

/// `to` is the pen after a glyph.
pub open spec fn advanced<F: CaptionFont>(
    font: F,
    size: Scalar,
    from: Scalar,
    id: u16,
    to: Scalar,
) -> bool {
    exists|a: Scalar|
        {
            &&& #[trigger] call_ensures(F::h_advance, (&font, size, id), a)
            &&& call_ensures(F::sum, (&font, from, a), to)
        }
}

/// `pixels` are those that a glyph covers whose pen is at `pen`.
pub open spec fn outlined<F: CaptionFont>(
    font: F,
    size: Scalar,
    id: u16,
    origin: (Scalar, Scalar),
    pen: Scalar,
    pixels: Vec<CoveredPixel>,
) -> bool {
    exists|x: Scalar|
        {
            &&& #[trigger] call_ensures(F::sum, (&font, origin.0, pen), x)
            &&& call_ensures(F::outline, (&font, size, id, (x, origin.1)), pixels)
        }
}

impl GlyphRun {
    pub open spec fn before(self, i: int) -> Option<u16> {
        if i == 0 {
            None
        } else {
            Some(self.ids[i - 1])
        }
    }

    /// The pen's way along the first `n` letters.
    pub open spec fn paced<F: CaptionFont>(
        self,
        font: F,
        size: Scalar,
        text: Seq<char>,
        n: int,
    ) -> bool {
        &&& self.ids.len() == n
        &&& self.pens.len() == n
        &&& self.ends.len() == n + 1
        &&& self.ends[0] == (Scalar { bits: ZERO })
        &&& forall|i: int|
            0 <= i < n ==> {
                &&& call_ensures(F::glyph_id, (&font, text[i]), #[trigger] self.ids[i])
                &&& kerned(font, size, self.ends[i], self.before(i), self.ids[i], self.pens[i])
                &&& advanced(font, size, self.pens[i], self.ids[i], self.ends[i + 1])
            }
    }

    /// This is how the font sets a text, centred on a canvas.
    pub open spec fn sets<F: CaptionFont>(
        self,
        font: F,
        size: Scalar,
        text: Seq<char>,
        canvas: (u32, u32),
    ) -> bool {
        &&& self.paced(font, size, text, text.len() as int)
        &&& call_ensures(
            F::origin,
            (&font, size, canvas, self.ends[text.len() as int]),
            self.origin,
        )
        &&& self.outlines.len() == text.len()
        &&& forall|i: int|
            0 <= i < text.len() ==> outlined(
                font,
                size,
                self.ids[i],
                self.origin,
                self.pens[i],
                #[trigger] self.outlines[i],
            )
    }
}

/// `mask` is a text, centred on a canvas.
pub open spec fn rasterized<F: CaptionFont>(
    font: F,
    text: Seq<char>,
    canvas: (u32, u32),
    size: Scalar,
    mask: TextMask,
) -> bool {
    &&& mask.wf()
    &&& (mask.width, mask.height) == canvas
    &&& exists|run: GlyphRun|
        {
            &&& #[trigger] run.sets(font, size, text, canvas)
            &&& mask.coverage@ == plotted_glyphs(canvas, bare(canvas), run.outlines)
        }
}

/// Draws a text, centred on a canvas.
pub fn rasterize_text<F: CaptionFont>(
    text: &str,
    canvas_width: u32,
    canvas_height: u32,
    size: Scalar,
    font: &F,
) -> (mask: TextMask)
    requires
        canvas_width * canvas_height <= u32::MAX,
    ensures
        rasterized(*font, text@, (canvas_width, canvas_height), size, mask),
{
    let n: usize = text.unicode_len();
    let ghost mut run = GlyphRun {
        ids: Seq::empty(),
        pens: Seq::empty(),
        ends: seq![Scalar { bits: ZERO }],
        origin: (Scalar { bits: ZERO }, Scalar { bits: ZERO }),
        outlines: Seq::empty(),
    };
    let mut ids: Vec<u16> = Vec::new();
    let mut pens: Vec<Scalar> = Vec::new();
    let mut cursor: Scalar = Scalar { bits: ZERO };
    while ids.len() < n
        invariant
            n == text@.len(),
            ids@.len() <= n,
            ids@ == run.ids,
            pens@ == run.pens,
            cursor == run.ends[ids@.len() as int],
            run.outlines == Seq::<Vec<CoveredPixel>>::empty(),
            run.paced(*font, size, text@, ids@.len() as int),
        decreases n - ids@.len(),
    {
        let i: usize = ids.len();
        let id: u16 = font.glyph_id(text.get_char(i));
        if i > 0 {
            let before: u16 = ids[i - 1];
            let kern: Scalar = font.kern(size, before, id);
            cursor = font.sum(cursor, kern);
        }
        let pen: Scalar = cursor;
        let advance: Scalar = font.h_advance(size, id);
        cursor = font.sum(cursor, advance);
        ids.push(id);
        pens.push(pen);
        proof {
            run = GlyphRun {
                ids: run.ids.push(id),
                pens: run.pens.push(pen),
                ends: run.ends.push(cursor),
                ..run
            };
        }
    }
    let origin: (Scalar, Scalar) = font.origin(size, (canvas_width, canvas_height), cursor);
    proof {
        run = GlyphRun { origin, ..run };
    }
    let mut mask: TextMask = TextMask::new(canvas_width, canvas_height);
    let mut i: usize = 0;
    while i < ids.len()
        invariant
            i <= n,
            n == text@.len(),
            n == ids@.len(),
            ids@ == run.ids,
            pens@ == run.pens,
            origin == run.origin,
            run.paced(*font, size, text@, n as int),
            call_ensures(
                F::origin,
                (font, size, (canvas_width, canvas_height), run.ends[n as int]),
                run.origin,
            ),
            mask.wf(),
            mask.width == canvas_width,
            mask.height == canvas_height,
            run.outlines.len() == i,
            forall|k: int|
                0 <= k < i ==> outlined(
                    *font,
                    size,
                    run.ids[k],
                    run.origin,
                    run.pens[k],
                    #[trigger] run.outlines[k],
                ),
            mask.coverage@ == plotted_glyphs(
                (canvas_width, canvas_height),
                bare((canvas_width, canvas_height)),
                run.outlines,
            ),
        decreases n - i,
    {
        let x: Scalar = font.sum(origin.0, pens[i]);
        let pixels: Vec<CoveredPixel> = font.outline(size, ids[i], (x, origin.1));
        mask.plot_all(&pixels);
        proof {
            let longer = GlyphRun { outlines: run.outlines.push(pixels), ..run };
            assert(longer.outlines.drop_last() =~= run.outlines);
            run = longer;
        }
        i += 1;
    }
    assert(run.sets(*font, size, text@, (canvas_width, canvas_height)));
    mask
}

/// White, as opaque as each pixel's coverage makes it under `alpha`.
pub open spec fn captioned<M: PauseMath>(
    math: M,
    mask: TextMask,
    alpha: u8,
    rgba: Seq<u8>,
) -> bool {
    &&& rgba.len() == mask.coverage@.len() * 4
    &&& forall|i: int|
        0 <= i < mask.coverage@.len() ==> pixel_captioned(
            math,
            #[trigger] mask.coverage@[i],
            alpha,
            rgba.subrange(4 * i, 4 * i + 4),
        )
}

/// The bytes of a white pixel, as opaque as its coverage makes it under `alpha`.
pub open spec fn pixel_captioned<M: PauseMath>(
    math: M,
    coverage: Scalar,
    alpha: u8,
    rgba: Seq<u8>,
) -> bool {
    &&& rgba == seq![255u8, 255u8, 255u8, rgba[3]]
    &&& shaded(math, held_part(coverage), alpha, rgba[3])
}

/// `frame` is the caption at the given opacity.
pub open spec fn caption_drawn<M: PauseMath>(
    math: M,
    mask: TextMask,
    alpha: Scalar,
    frame: OverlayFrame,
) -> bool {
    &&& frame.width == mask.width
    &&& frame.height == mask.height
    &&& frame.design_size == (CANVAS_WIDTH, CANVAS_HEIGHT)
    &&& exists|byte: u8|
        {
            &&& #[trigger] quantized(math, alpha, byte)
            &&& captioned(math, mask, byte, frame.rgba@)
        }
}

pub fn render_caption<M: PauseMath>(mask: &TextMask, alpha: Scalar, math: &M) -> (frame:
    OverlayFrame)
    requires
        mask.wf(),
        mask.coverage@.len() * 4 <= usize::MAX,
    ensures
        caption_drawn(*math, *mask, alpha, frame),
{
    let byte: u8 = quantize(alpha, math);
    let mut rgba: Vec<u8> = Vec::new();
    let mut i: usize = 0;
    while i < mask.coverage.len()
        invariant
            i <= mask.coverage@.len(),
            rgba@.len() == 4 * i,
            forall|k: int|
                0 <= k < i ==> pixel_captioned(
                    *math,
                    #[trigger] mask.coverage@[k],
                    byte,
                    rgba@.subrange(4 * k, 4 * k + 4),
                ),
        decreases mask.coverage@.len() - i,
    {
        let covered: Scalar = mask.coverage[i].clamp(
            Scalar { bits: ZERO },
            Scalar { bits: ONE },
        );
        let a: u8 = shade(covered, byte, math);
        let ghost before = rgba@;
        rgba.push(255);
        rgba.push(255);
        rgba.push(255);
        rgba.push(a);
        assert forall|k: int| 0 <= k < i + 1 implies pixel_captioned(
            *math,
            #[trigger] mask.coverage@[k],
            byte,
            rgba@.subrange(4 * k, 4 * k + 4),
        ) by {
            if k < i {
                assert(rgba@.subrange(4 * k, 4 * k + 4) =~= before.subrange(4 * k, 4 * k + 4));
            } else {
                assert(rgba@.subrange(4 * k, 4 * k + 4) =~= seq![255u8, 255u8, 255u8, a]);
            }
        }
        i += 1;
    }
    assert(captioned(*math, *mask, byte, rgba@));
    OverlayFrame {
        width: mask.width,
        height: mask.height,
        design_size: (CANVAS_WIDTH, CANVAS_HEIGHT),
        rgba,
    }
}

/// What is drawn, if anything, for a frame at `level`, and the filter after it.
pub open spec fn filtered<M: PauseMath>(
    math: M,
    level: FadeLevel,
    before: FadeFilter,
    drawn: Option<Scalar>,
    after: FadeFilter,
) -> bool {
    exists|a: Scalar| #[trigger] level.opacity(math, a) && (drawn, after) == before.passed(a)
}

/// Where the fade is.
pub struct PauseFadeSource {
    pub schedule: Schedule,
    pub filter: FadeFilter,
}

impl PauseFadeSource {
    /// The next frame's fade, where it has to be drawn.
    pub fn try_frame<M: PauseMath>(&mut self, math: &M) -> (frame: Option<OverlayFrame>)
        requires
            old(self).schedule.wf(),
            old(self).schedule.next_frame() < u64::MAX,
        ensures
            old(self).schedule.stepped(final(self).schedule),
            exists|drawn: Option<Scalar>|
                {
                    &&& #[trigger] filtered(
                        *math,
                        level_of(
                            old(self).schedule.pauses(),
                            final(self).schedule.cursor(),
                            old(self).schedule.next_frame(),
                        ),
                        old(self).filter,
                        drawn,
                        final(self).filter,
                    )
                    &&& match drawn {
                        None => frame is None,
                        Some(a) => frame matches Some(f) && faded(*math, a, f),
                    }
                },
    {
        let level: FadeLevel = self.schedule.advance();
        let alpha: Scalar = level.alpha(math);
        let drawn: Option<Scalar> = self.filter.pass(alpha);
        assert(filtered(*math, level, old(self).filter, drawn, self.filter));
        match drawn {
            Some(a) => Some(render_fade(a, math)),
            None => None,
        }
    }
}

/// Where the caption is.
pub struct PauseCaptionSource {
    pub schedule: Schedule,
    pub filter: FadeFilter,
    pub mask: TextMask,
}

impl PauseCaptionSource {
    /// The next frame's caption, where it has to be drawn.
    pub fn try_frame<M: PauseMath>(&mut self, math: &M) -> (frame: Option<OverlayFrame>)
        requires
            old(self).schedule.wf(),
            old(self).schedule.next_frame() < u64::MAX,
            old(self).mask.wf(),
            old(self).mask.coverage@.len() * 4 <= usize::MAX,
        ensures
            old(self).schedule.stepped(final(self).schedule),
            final(self).mask == old(self).mask,
            exists|drawn: Option<Scalar>|
                {
                    &&& #[trigger] filtered(
                        *math,
                        level_of(
                            old(self).schedule.pauses(),
                            final(self).schedule.cursor(),
                            old(self).schedule.next_frame(),
                        ),
                        old(self).filter,
                        drawn,
                        final(self).filter,
                    )
                    &&& match drawn {
                        None => frame is None,
                        Some(a) => frame matches Some(f) && caption_drawn(
                            *math,
                            old(self).mask,
                            a,
                            f,
                        ),
                    }
                },
    {
        let level: FadeLevel = self.schedule.advance();
        let alpha: Scalar = level.alpha(math);
        let drawn: Option<Scalar> = self.filter.pass(alpha);
        assert(filtered(*math, level, old(self).filter, drawn, self.filter));
        match drawn {
            Some(a) => Some(render_caption(&self.mask, a, math)),
            None => None,
        }
    }
}

/// A caption's side: within the design, and never less than the smallest.
pub open spec fn held_side(scaled: u32, least: int, design: u32) -> int {
    if scaled < least {
        least
    } else if scaled > design {
        design as int
    } else {
        scaled as int
    }
}

/// The pixels of a caption, from the design size scaled to the output.
pub open spec fn spec_caption_size(scaled_width: u32, scaled_height: u32) -> (int, int) {
    (
        held_side(
            scaled_width,
            MIN_CAPTION_HEIGHT_PX * CANVAS_WIDTH / CANVAS_HEIGHT as int,
            CANVAS_WIDTH,
        ),
        held_side(scaled_height, MIN_CAPTION_HEIGHT_PX as int, CANVAS_HEIGHT),
    )
}

pub fn caption_size(scaled_width: u32, scaled_height: u32) -> (size: (u32, u32))
    ensures
        (size.0 as int, size.1 as int) == spec_caption_size(scaled_width, scaled_height),
{
    let least_width: u32 = MIN_CAPTION_HEIGHT_PX * CANVAS_WIDTH / CANVAS_HEIGHT;
    (
        scaled_width.min(CANVAS_WIDTH).max(least_width),
        scaled_height.min(CANVAS_HEIGHT).max(MIN_CAPTION_HEIGHT_PX),
    )
}

/// `size` is the caption's for an output of the given size. It is scaled with
/// the output, but not past its design.
pub open spec fn caption_fitted<M: PauseMath>(
    math: M,
    output: (u32, u32),
    size: (u32, u32),
) -> bool {
    exists|scale: Scalar, w: u32, h: u32|
        {
            &&& fitted(math, (CANVAS_WIDTH, CANVAS_HEIGHT), output, centred(), scale)
            &&& #[trigger] scaled_to(math, CANVAS_WIDTH, scale.spec_min(Scalar { bits: ONE }), w)
            &&& #[trigger] scaled_to(math, CANVAS_HEIGHT, scale.spec_min(Scalar { bits: ONE }), h)
            &&& (size.0 as int, size.1 as int) == spec_caption_size(w, h)
        }
}

/// `mask` is the caption of a text for an output of the given size.
pub open spec fn caption_laid<M: PauseMath + CaptionFont>(
    math: M,
    text: Seq<char>,
    output: (u32, u32),
    mask: TextMask,
) -> bool {
    &&& caption_fitted(math, output, (mask.width, mask.height))
    &&& exists|letters: Scalar|
        {
            &&& #[trigger] letters_sized(math, mask.height, letters)
            &&& rasterized(math, text, (mask.width, mask.height), letters, mask)
        }
}

/// The two layers of the pauses, the fade to be drawn under the caption. Both
/// follow the same pauses.
pub fn build_layers<M: PauseMath + CaptionFont>(
    boundaries: Vec<PauseBoundary>,
    config: &PauseOverlayConfig,
    output_size: (u32, u32),
    math: &M,
) -> (layers: (PauseFadeSource, PauseCaptionSource))
    ensures
        layers.0.schedule.starts(boundaries@),
        layers.0.filter == (FadeFilter { was_active: false, last_alpha: None }),
        layers.1.schedule.starts(boundaries@),
        layers.1.filter == (FadeFilter { was_active: false, last_alpha: None }),
        caption_laid(*math, config.text@, output_size, layers.1.mask),
        layers.1.mask.coverage@.len() * 4 <= usize::MAX,
{
    let mut shared: Vec<PauseBoundary> = Vec::new();
    let mut i: usize = 0;
    while i < boundaries.len()
        invariant
            i <= boundaries@.len(),
            shared@ == boundaries@.take(i as int),
        decreases boundaries@.len() - i,
    {
        shared.push(boundaries[i]);
        i += 1;
    }
    assert(shared@ =~= boundaries@);
    let fade = PauseFadeSource { schedule: Schedule::new(shared), filter: FadeFilter::new() };
    let fit: Scalar = contain_fit_render_scale(
        (CANVAS_WIDTH, CANVAS_HEIGHT),
        output_size,
        OverlayPlacement::default(),
        math,
    );
    let scale: Scalar = fit.min(Scalar { bits: ONE });
    let height: u32 = scaled(CANVAS_HEIGHT, scale, math);
    let width: u32 = scaled(CANVAS_WIDTH, scale, math);
    let (caption_w, caption_h): (u32, u32) = caption_size(width, height);
    assert(caption_w * caption_h <= CANVAS_WIDTH * CANVAS_HEIGHT) by (nonlinear_arith)
        requires
            0 <= caption_w <= CANVAS_WIDTH,
            0 <= caption_h <= CANVAS_HEIGHT,
    ;
    let letters: Scalar = letter_size(caption_h, math);
    let mask: TextMask = rasterize_text(
        config.text.as_str(),
        caption_w,
        caption_h,
        letters,
        math,
    );
    let caption = PauseCaptionSource {
        schedule: Schedule::new(boundaries),
        filter: FadeFilter::new(),
        mask,
    };
    (fade, caption)
}

/// A caption is never larger than its design, nor smaller than the smallest that
/// can be read.
pub proof fn caption_stays_within_the_design(scaled_width: u32, scaled_height: u32)
    ensures
        ({
            let (w, h) = spec_caption_size(scaled_width, scaled_height);
            170 <= w <= CANVAS_WIDTH && MIN_CAPTION_HEIGHT_PX <= h <= CANVAS_HEIGHT
        }),
{
}

/// Pauses that are over before a frame do not matter to it, so a schedule that
/// has come to a frame one by one agrees with one that starts there.
pub proof fn past_pauses_do_not_matter(boundaries: Seq<PauseBoundary>, cursor: int, frame: u64)
    requires
        0 <= cursor <= boundaries.len(),
        forall|j: int| 0 <= j < cursor ==> (#[trigger] boundaries[j]).fade_in_end <= frame,
    ensures
        current_pause(boundaries, cursor, frame) == current_pause(boundaries, 0, frame),
    decreases cursor,
{
    if cursor > 0 {
        past_pauses_do_not_matter(boundaries, cursor - 1, frame);
    }
}

/// The pauses before the current one are over, and the current one is not.
pub proof fn current_pause_is_the_first_unfinished(
    boundaries: Seq<PauseBoundary>,
    cursor: int,
    frame: u64,
)
    requires
        0 <= cursor <= boundaries.len(),
    ensures
        cursor <= current_pause(boundaries, cursor, frame) <= boundaries.len(),
        forall|j: int|
            cursor <= j < current_pause(boundaries, cursor, frame) ==> (
            #[trigger] boundaries[j]).fade_in_end <= frame,
        current_pause(boundaries, cursor, frame) < boundaries.len() ==> frame
            < boundaries[current_pause(boundaries, cursor, frame)].fade_in_end,
    decreases boundaries.len() - cursor,
{
    if cursor < boundaries.len() && frame >= boundaries[cursor].fade_in_end {
        current_pause_is_the_first_unfinished(boundaries, cursor + 1, frame);
    }
}

/// Where a schedule's cursor is after `n` frames.
pub open spec fn cursor_after(boundaries: Seq<PauseBoundary>, n: nat) -> int
    decreases n,
{
    if n == 0 {
        0
    } else {
        current_pause(boundaries, cursor_after(boundaries, (n - 1) as nat), (n - 1) as u64)
    }
}

/// The n-th frame of a schedule depends on the pauses and on `n` alone. So two
/// schedules of the same pauses, asked once for every frame, stay in step.
pub proof fn schedules_stay_in_step(boundaries: Seq<PauseBoundary>, n: nat)
    requires
        n <= u64::MAX,
    ensures
        0 <= cursor_after(boundaries, n) <= boundaries.len(),
        current_pause(boundaries, cursor_after(boundaries, n), n as u64) == current_pause(
            boundaries,
            0,
            n as u64,
        ),
{
    passed_pauses_are_over(boundaries, n);
    past_pauses_do_not_matter(boundaries, cursor_after(boundaries, n), n as u64);
}

proof fn passed_pauses_are_over(boundaries: Seq<PauseBoundary>, n: nat)
    requires
        n <= u64::MAX,
    ensures
        0 <= cursor_after(boundaries, n) <= boundaries.len(),
        forall|j: int|
            0 <= j < cursor_after(boundaries, n) ==> (#[trigger] boundaries[j]).fade_in_end <= n,
    decreases n,
{
    if n > 0 {
        let before = (n - 1) as nat;
        passed_pauses_are_over(boundaries, before);
        current_pause_is_the_first_unfinished(
            boundaries,
            cursor_after(boundaries, before),
            before as u64,
        );
    }
}

/// While a pause is not over, its fractions are proper: the opacity never
/// passes full and never falls below none.
pub proof fn fade_fractions_are_proper(b: PauseBoundary, frame: u64)
    requires
        frame < b.fade_in_end,
    ensures
        b.level(frame) matches FadeLevel::Rising { num, den } ==> num < den,
        b.level(frame) matches FadeLevel::Falling { num, den } ==> num < den,
{
}

/// A level that is held is drawn once.
pub proof fn held_level_is_drawn_once(filter: FadeFilter, alpha: Scalar)
    requires
        !alpha.spec_is_nan(),
        !alpha.at_most(Scalar { bits: ZERO }),
    ensures
        filter.passed(alpha).1.passed(alpha).0 is None,
        filter.passed(alpha).1.passed(alpha).1 == filter.passed(alpha).1,
{
}

/// After a pause the screen is cleared once, and then nothing is drawn until
/// the next.
pub proof fn screen_is_cleared_once(filter: FadeFilter, alpha: Scalar, again: Scalar)
    requires
        filter.was_active,
        alpha.at_most(Scalar { bits: ZERO }),
        again.at_most(Scalar { bits: ZERO }),
    ensures
        filter.passed(alpha).0 == Some(Scalar { bits: ZERO }),
        filter.passed(alpha).1.passed(again).0 is None,
{
}

/// Before its first pause a source draws nothing.
pub proof fn nothing_is_drawn_before_a_pause(filter: FadeFilter, alpha: Scalar)
    requires
        !filter.was_active,
        alpha.at_most(Scalar { bits: ZERO }),
    ensures
        filter.passed(alpha) == (None::<Scalar>, filter),
{
}

} // verus!
