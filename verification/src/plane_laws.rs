//! Where the bytes go: rows without their padding, samples apart by camera, frames in
//! order.

use crate::band_gather::{
    mirrored_180, BandGather, GatherDispatch, GatheredSamples, PositionKey, PositionUpload,
};
use crate::bytes::encodes;
use crate::frame_buffer::{BufferedFrame, FrameBuffer, PendingWorldState};
use crate::nv12_readback::{MapFailure, Nv12Readback, Nv12ReadbackError, PlaneCopy};
use crate::overlay::{OverlayError, OverlayFrame, RgbaOverlayCompositor, UploadPlan};
use crate::planes::{copy_plane_tight, copy_rows, FramePlaneView, StridedYuvPlanes, YuvPlanes};
use crate::scalar::Scalar;
use crate::single_camera::SingleCameraRenderer;
use crate::world::WorldState;
use vstd::arithmetic::div_mod::lemma_fundamental_div_mod_converse;
use vstd::prelude::*;

verus! {

/// `tight` are the rows of `padded`, each from its own start on, one after the other.
pub open spec fn are_rows_of(
    tight: Seq<u8>,
    padded: Seq<u8>,
    row: int,
    stride: int,
    rows: int,
) -> bool {
    &&& tight.len() == row * rows
    &&& forall|r: int, c: int|
        0 <= r < rows && 0 <= c < row ==> #[trigger] is_byte_of_row(
            tight,
            padded,
            row,
            stride,
            r,
            c,
        )
}

pub open spec fn is_byte_of_row(
    tight: Seq<u8>,
    padded: Seq<u8>,
    row: int,
    stride: int,
    r: int,
    c: int,
) -> bool {
    tight[r * row + c] == padded[r * stride + c]
}

proof fn packed_are_rows(padded: Seq<u8>, row: nat, stride: nat, rows: nat)
    ensures
        are_rows_of(
            crate::planes::packed_rows(padded, row, stride, rows),
            padded,
            row as int,
            stride as int,
            rows as int,
        ),
{
    let tight = crate::planes::packed_rows(padded, row, stride, rows);
    assert forall|r: int, c: int| 0 <= r < rows && 0 <= c < row implies #[trigger] is_byte_of_row(
        tight,
        padded,
        row as int,
        stride as int,
        r,
        c,
    ) by {
        let i = r * row + c;
        assert(0 <= i < row * rows) by (nonlinear_arith)
            requires
                i == r * row + c,
                0 <= r,
                r + 1 <= rows,
                0 <= c < row,
        ;
        lemma_fundamental_div_mod_converse(i, row as int, r, c);
    }
}

/// Copying rows leaves out what is between them.
pub proof fn rows_are_copied_without_padding()
    ensures
        forall|data: &[u8], row: usize, stride: usize, rows: usize, dst: &mut [u8]| #[trigger]
            call_ensures(copy_rows, (data, row, stride, rows, dst), ()) ==> are_rows_of(
                final(dst)@,
                data@,
                row as int,
                stride as int,
                rows as int,
            ),
{
    assert forall|data: &[u8], row: usize, stride: usize, rows: usize, dst: &mut [u8]| #[trigger]
        call_ensures(copy_rows, (data, row, stride, rows, dst), ()) implies are_rows_of(
        final(dst)@,
        data@,
        row as int,
        stride as int,
        rows as int,
    ) by {
        packed_are_rows(data@, row as nat, stride as nat, rows as nat);
    }
}

/// The plane's rows lie one after the other in its data.
pub open spec fn holds_its_rows(p: FramePlaneView<'_>) -> bool {
    &&& p.width <= p.stride
    &&& p.height > 0 ==> (p.height - 1) * p.stride + p.width <= p.data@.len()
}

/// `tight` is a plane without its padding, or zeros where it does not hold its rows.
pub open spec fn is_tight(p: FramePlaneView<'_>, tight: Seq<u8>) -> bool {
    &&& tight.len() == p.width * p.height
    &&& holds_its_rows(p) ==> are_rows_of(
        tight,
        p.data@,
        p.width as int,
        p.stride as int,
        p.height as int,
    )
    &&& !holds_its_rows(p) ==> forall|i: int| 0 <= i < tight.len() ==> #[trigger] tight[i] == 0
}

proof fn tight_is_tight(p: FramePlaneView<'_>)
    ensures
        is_tight(p, p.tight()),
{
    packed_are_rows(p.data@, p.width as nat, p.stride as nat, p.height as nat);
    assert(0 <= p.width * p.height) by (nonlinear_arith)
        requires
            p.width >= 0,
            p.height >= 0,
    ;
}

/// A plane is copied without its padding where it fits; where it does not hold its rows, or
/// there is other room than for them, zeros are left.
pub proof fn a_plane_is_copied_tight()
    ensures
        forall|p: &FramePlaneView<'_>, dst: &mut [u8]| #[trigger]
            call_ensures(copy_plane_tight, (p, dst), ()) ==> {
                &&& final(dst)@.len() == dst@.len()
                &&& dst@.len() == p.width * p.height ==> is_tight(*p, final(dst)@)
                &&& dst@.len() != p.width * p.height ==> forall|i: int|
                    0 <= i < final(dst)@.len() ==> #[trigger] final(dst)@[i] == 0
            },
{
    assert forall|p: &FramePlaneView<'_>, dst: &mut [u8]| #[trigger]
        call_ensures(copy_plane_tight, (p, dst), ()) implies {
        &&& final(dst)@.len() == dst@.len()
        &&& dst@.len() == p.width * p.height ==> is_tight(*p, final(dst)@)
        &&& dst@.len() != p.width * p.height ==> forall|i: int|
            0 <= i < final(dst)@.len() ==> #[trigger] final(dst)@[i] == 0
    } by {
        tight_is_tight(*p);
    }
}

/// Three planes are packed in the order of luma and the two chromas, each from its own.
pub proof fn planes_are_packed_in_order<'a>()
    ensures
        forall|p: &StridedYuvPlanes<'a>, buffer: &mut Vec<u8>, out: YuvPlanes<'_>| #[trigger]
            call_ensures(StridedYuvPlanes::<'a>::copy_into, (p, buffer), out) ==> {
                &&& is_tight(p.y, out.y@)
                &&& is_tight(p.u, out.u@)
                &&& is_tight(p.v, out.v@)
                &&& final(buffer)@ == out.y@ + out.u@ + out.v@
            },
{
    assert forall|p: &StridedYuvPlanes<'a>, buffer: &mut Vec<u8>, out: YuvPlanes<'_>| #[trigger]
        call_ensures(StridedYuvPlanes::<'a>::copy_into, (p, buffer), out) implies {
        &&& is_tight(p.y, out.y@)
        &&& is_tight(p.u, out.u@)
        &&& is_tight(p.v, out.v@)
        &&& final(buffer)@ == out.y@ + out.u@ + out.v@
    } by {
        tight_is_tight(p.y);
        tight_is_tight(p.u);
        tight_is_tight(p.v);
    }
}

/// A readback is for pictures of an even size that is not nought. Its rows are padded to
/// the next multiple of 256 bytes, and it copies luma whole and chroma at half the size.
pub proof fn a_readback_is_laid_out_for_its_size(
    width: u32,
    height: u32,
    r: Result<Nv12Readback, Nv12ReadbackError>,
)
    requires
        call_ensures(Nv12Readback::new, (width, height), r),
    ensures
        r is Ok <==> width > 0 && height > 0 && width % 2 == 0 && height % 2 == 0,
        r matches Ok(b) ==> {
            &&& b.width == width
            &&& b.height == height
            &&& b.y_out@.len() == width * height
            &&& b.uv_out@.len() == width * (height / 2)
            &&& is_padded(width as int, b.y_padded_bytes_per_row as int)
            &&& is_padded(width as int, b.uv_padded_bytes_per_row as int)
        },
{
}

pub open spec fn is_padded(row: int, padded: int) -> bool {
    padded % 256 == 0 && row <= padded < row + 256
}

pub proof fn both_planes_are_copied(b: Nv12Readback, y: PlaneCopy, uv: PlaneCopy)
    requires
        b.wf(),
        call_ensures(Nv12Readback::y_copy, (&b,), y),
        call_ensures(Nv12Readback::uv_copy, (&b,), uv),
    ensures
        y.width == b.width,
        y.height == b.height,
        y.bytes_per_row == b.y_padded_bytes_per_row,
        y.staging_bytes == y.bytes_per_row * y.height,
        uv.width == b.width / 2,
        uv.height == b.height / 2,
        uv.bytes_per_row == b.uv_padded_bytes_per_row,
        uv.staging_bytes == uv.bytes_per_row * uv.height,
{
    assert(0 <= b.y_padded_bytes_per_row * b.height <= 0xffff_ffff * 0xffff_ffff)
        by (nonlinear_arith)
        requires
            0 <= b.y_padded_bytes_per_row <= 0xffff_ffff,
            0 <= b.height <= 0xffff_ffff,
    ;
    assert(0 <= b.uv_padded_bytes_per_row * (b.height / 2) <= 0xffff_ffff * 0xffff_ffff)
        by (nonlinear_arith)
        requires
            0 <= b.uv_padded_bytes_per_row <= 0xffff_ffff,
            0 <= b.height / 2 <= 0xffff_ffff,
    ;
}

/// The planes of a readback are what the device mapped, without the padding of the rows,
/// each in its own place. A failure changes neither.
pub proof fn a_readback_keeps_what_was_mapped()
    ensures
        forall|
            b: &mut Nv12Readback,
            mapped: Result<&[u8], MapFailure>,
            r: Result<(), Nv12ReadbackError>,
        | #[trigger]
            call_ensures(Nv12Readback::accept_y, (b, mapped), r) ==> {
                &&& r is Ok <==> mapped is Ok
                &&& final(b).uv_out@ == b.uv_out@
                &&& mapped is Err ==> final(b).y_out@ == b.y_out@
                &&& mapped matches Ok(data) ==> are_rows_of(
                    final(b).y_out@,
                    data@,
                    b.width as int,
                    b.y_padded_bytes_per_row as int,
                    b.height as int,
                )
            },
        forall|
            b: &mut Nv12Readback,
            mapped: Result<&[u8], MapFailure>,
            r: Result<(), Nv12ReadbackError>,
        | #[trigger]
            call_ensures(Nv12Readback::accept_uv, (b, mapped), r) ==> {
                &&& r is Ok <==> mapped is Ok
                &&& final(b).y_out@ == b.y_out@
                &&& mapped is Err ==> final(b).uv_out@ == b.uv_out@
                &&& mapped matches Ok(data) ==> are_rows_of(
                    final(b).uv_out@,
                    data@,
                    b.width as int,
                    b.uv_padded_bytes_per_row as int,
                    (b.height / 2) as int,
                )
            },
{
    assert forall|
        b: &mut Nv12Readback,
        mapped: Result<&[u8], MapFailure>,
        r: Result<(), Nv12ReadbackError>,
    | #[trigger]
        call_ensures(Nv12Readback::accept_y, (b, mapped), r) && mapped is Ok implies are_rows_of(
        final(b).y_out@,
        mapped->Ok_0@,
        b.width as int,
        b.y_padded_bytes_per_row as int,
        b.height as int,
    ) by {
        packed_are_rows(
            mapped->Ok_0@,
            b.width as nat,
            b.y_padded_bytes_per_row as nat,
            b.height as nat,
        );
    }
    assert forall|
        b: &mut Nv12Readback,
        mapped: Result<&[u8], MapFailure>,
        r: Result<(), Nv12ReadbackError>,
    | #[trigger]
        call_ensures(Nv12Readback::accept_uv, (b, mapped), r) && mapped is Ok implies are_rows_of(
        final(b).uv_out@,
        mapped->Ok_0@,
        b.width as int,
        b.uv_padded_bytes_per_row as int,
        (b.height / 2) as int,
    ) by {
        packed_are_rows(
            mapped->Ok_0@,
            b.width as nat,
            b.uv_padded_bytes_per_row as nat,
            (b.height / 2) as nat,
        );
    }
}

/// The picture of a single camera is what was read back, four bytes to the pixel, without
/// the padding of its rows.
pub proof fn a_single_picture_is_stripped(
    s: SingleCameraRenderer,
    mapped: &[u8],
    rgba: Vec<u8>,
) -> (padded: int)
    requires
        s.wf(),
        call_ensures(SingleCameraRenderer::strip_readback, (&s, mapped), rgba),
    ensures
        is_padded(s.eval_width * 4, padded),
        are_rows_of(rgba@, mapped@, s.eval_width * 4, padded, s.eval_height as int),
{
    packed_are_rows(
        mapped@,
        (s.eval_width * 4) as nat,
        s.spec_aligned_row(),
        s.eval_height as nat,
    );
    crate::nv12_readback::padding_is_least((s.eval_width * 4) as nat);
    s.spec_aligned_row() as int
}

/// A position in a picture that is turned by 180 degrees is as far from the last pixel as it
/// was from the first, across and down.
pub proof fn a_turned_position_is_counted_from_the_end(
    positions: &[[u32; 2]],
    width: u32,
    height: u32,
    out: Vec<[u32; 2]>,
    i: int,
)
    requires
        call_ensures(mirrored_180, (positions, width, height), out),
        0 <= i < positions@.len(),
    ensures
        out@.len() == positions@.len(),
        positions@[i][0] < width ==> out@[i][0] + positions@[i][0] + 1 == width,
        positions@[i][1] < height ==> out@[i][1] + positions@[i][1] + 1 == height,
{
}

/// The samples of the two cameras lie apart: the left one's from the first word on, the
/// right one's from the 2048th sample on, four words to each.
pub proof fn samples_lie_apart_by_camera(
    g: BandGather,
    words: Vec<u32>,
    s: GatheredSamples,
    i: int,
    k: int,
)
    requires
        call_ensures(BandGather::split_words, (&g, &words), s),
        0 <= k < 4,
    ensures
        s.left@.len() == g.left_count,
        s.right@.len() == g.right_count,
        0 <= i < g.left_count ==> s.left@[i][k].bits == words@[4 * i + k],
        0 <= i < g.right_count ==> s.right@[i][k].bits == words@[4 * (2048 + i) + k],
{
}

/// The words are positions, across before down, as many as there is room for.
pub open spec fn are_words_of(words: Seq<u32>, positions: Seq<[u32; 2]>) -> bool {
    &&& positions.len() <= 2048 ==> words.len() == 2 * positions.len()
    &&& positions.len() > 2048 ==> words.len() == 2 * 2048
    &&& forall|i: int|
        0 <= i < positions.len() && i < 2048 ==> words[2 * i] == (#[trigger] positions[i])[0]
            && words[2 * i + 1] == positions[i][1]
}

pub(crate) proof fn position_words_are_words(positions: Seq<[u32; 2]>)
    ensures
        are_words_of(
            crate::band_gather::position_words(crate::band_gather::kept(positions)),
            positions,
        ),
{
}

/// Each camera's positions are uploaded as its own, with their number; the right camera's
/// start at the 2048th.
pub proof fn positions_are_uploaded_by_camera()
    ensures
        forall|
            g: &mut BandGather,
            left: &[[u32; 2]],
            right: &[[u32; 2]],
            key: PositionKey,
            u: PositionUpload,
        | #[trigger]
            call_ensures(BandGather::set_positions, (g, left, right, key), u) ==> {
                &&& final(g).uploaded_for == Some(key)
                &&& final(g).state == g.state
                &&& final(g).left_count == if left@.len() <= 2048 {
                    left@.len()
                } else {
                    2048
                }
                &&& final(g).right_count == if right@.len() <= 2048 {
                    right@.len()
                } else {
                    2048
                }
                &&& exists|words: Seq<u32>|
                    #[trigger] encodes(words, u.left_coords@) && are_words_of(words, left@)
                &&& exists|words: Seq<u32>|
                    #[trigger] encodes(words, u.right_coords@) && are_words_of(words, right@)
                &&& encodes(seq![0u32, final(g).left_count, 0u32, 0u32], u.left_params@)
                &&& encodes(seq![2048u32, final(g).right_count, 0u32, 0u32], u.right_params@)
            },
{
    assert forall|
        g: &mut BandGather,
        left: &[[u32; 2]],
        right: &[[u32; 2]],
        key: PositionKey,
        u: PositionUpload,
    | #[trigger]
        call_ensures(BandGather::set_positions, (g, left, right, key), u) implies {
        &&& exists|words: Seq<u32>|
            #[trigger] encodes(words, u.left_coords@) && are_words_of(words, left@)
        &&& exists|words: Seq<u32>|
            #[trigger] encodes(words, u.right_coords@) && are_words_of(words, right@)
    } by {
        position_words_are_words(left@);
        position_words_are_words(right@);
    }
}

/// A gather runs in groups of 64, just enough for the positions of each camera, and only
/// where both cameras have some.
pub proof fn a_gather_runs_for_all_positions()
    ensures
        forall|g: &mut BandGather, plan: Option<GatherDispatch>| #[trigger]
            call_ensures(BandGather::dispatch, (g,), plan) ==> {
                &&& plan is Some <==> g.left_count > 0 && g.right_count > 0
                &&& plan matches Some(p) ==> {
                    &&& g.left_count <= 64 * p.left_groups < g.left_count + 64
                    &&& g.right_count <= 64 * p.right_groups < g.right_count + 64
                    &&& final(g).state == crate::band_gather::Readback::Submitted
                }
            },
{
}

/// Positions are used again only where nothing has changed that they depend on.
pub proof fn positions_are_current_only_for_their_key(g: BandGather, key: PositionKey, r: bool)
    requires
        call_ensures(BandGather::positions_current, (&g, &key), r),
    ensures
        r ==> (g.uploaded_for matches Some(k) && {
            &&& k.band_width.equals(key.band_width)
            &&& k.seam_offset.equals(key.seam_offset)
            &&& k.grid_cols == key.grid_cols
            &&& k.grid_rows == key.grid_rows
            &&& k.blend_flip_direction == key.blend_flip_direction
            &&& k.input_width == key.input_width
            &&& k.input_height == key.input_height
            &&& k.flip_180 == key.flip_180
        }),
        g.uploaded_for == Some(key) && !key.band_width.spec_is_nan()
            && !key.seam_offset.spec_is_nan() ==> r,
{
}

/// An overlay's opacity is held between nought and one, and its parameters are written just
/// when that changes it.
pub proof fn an_opacity_is_held()
    ensures
        forall|c: &mut RgbaOverlayCompositor, opacity: Scalar, written: bool| #[trigger]
            call_ensures(RgbaOverlayCompositor::set_opacity, (c, opacity), written) ==> {
                let zero = Scalar { bits: 0 };
                let one = Scalar { bits: 0x3f80_0000 };
                &&& final(c).placement == c.placement
                &&& final(c).output_size == c.output_size
                &&& final(c).reference_size == c.reference_size
                &&& final(c).texture_size == c.texture_size
                &&& zero.at_most(opacity) && opacity.at_most(one) ==> final(c).opacity.equals(
                    opacity,
                )
                &&& opacity.below(zero) ==> final(c).opacity.equals(zero)
                &&& one.below(opacity) ==> final(c).opacity.equals(one)
                &&& !opacity.spec_is_nan() ==> (written <==> !c.opacity.equals(final(c).opacity))
                &&& !written ==> *final(c) == *c
            },
{
}

/// A frame is shown in a texture of its own size, for the size that it was designed for. The
/// texture is made anew just when its size changes, and the parameters are written just
/// when the design does.
pub proof fn an_upload_takes_the_frames_sizes()
    ensures
        forall|
            c: &mut RgbaOverlayCompositor,
            frame: &OverlayFrame,
            r: Result<UploadPlan, OverlayError>,
        | #[trigger]
            call_ensures(RgbaOverlayCompositor::upload, (c, frame), r) ==> {
                &&& r is Ok <==> is_whole_frame(*frame)
                &&& r is Err ==> *final(c) == *c
                &&& r matches Ok(plan) ==> {
                    &&& final(c).texture_size == (frame.width, frame.height)
                    &&& final(c).reference_size == frame.design_size
                    &&& final(c).output_size == c.output_size
                    &&& final(c).placement == c.placement
                    &&& final(c).opacity == c.opacity
                    &&& plan.recreate_texture <==> c.texture_size != (frame.width, frame.height)
                    &&& plan.write_params <==> c.reference_size != frame.design_size
                    &&& plan.width == frame.width
                    &&& plan.height == frame.height
                    &&& plan.bytes_per_row == frame.width * 4
                }
            },
{
    assert forall|
        c: &mut RgbaOverlayCompositor,
        frame: &OverlayFrame,
        r: Result<UploadPlan, OverlayError>,
    | #[trigger]
        call_ensures(RgbaOverlayCompositor::upload, (c, frame), r) && r is Ok implies frame.width
        * 4 <= u32::MAX by {
        assert(frame.width * 4 <= frame.width * frame.height * 4) by (nonlinear_arith)
            requires
                frame.height >= 1,
                frame.width >= 0,
        ;
    }
}

/// A frame with some extent, designed for some, that can be addressed and holds just four
/// bytes for every pixel.
pub open spec fn is_whole_frame(f: OverlayFrame) -> bool {
    &&& f.width > 0
    &&& f.height > 0
    &&& f.design_size.0 > 0
    &&& f.design_size.1 > 0
    &&& f.width * f.height * 4 <= u32::MAX
    &&& f.rgba@.len() == f.width * f.height * 4
}

/// A new compositor shows its frame whole, centred and opaque.
pub proof fn a_new_overlay_is_centred_and_opaque(
    output: (u32, u32),
    frame: OverlayFrame,
    r: Result<(RgbaOverlayCompositor, UploadPlan), OverlayError>,
)
    requires
        call_ensures(RgbaOverlayCompositor::new, (output, &frame), r),
    ensures
        r is Ok <==> is_whole_frame(frame),
        r matches Ok((c, plan)) ==> {
            &&& c.output_size == output
            &&& c.texture_size == (frame.width, frame.height)
            &&& c.reference_size == frame.design_size
            &&& c.opacity == (Scalar { bits: 0x3f80_0000 })
            &&& c.placement.offset == (Scalar { bits: 0 }, Scalar { bits: 0 })
            &&& c.placement.scale == (Scalar { bits: 0x3f80_0000 })
            &&& !plan.recreate_texture
            &&& !plan.write_params
            &&& plan.width == frame.width
            &&& plan.height == frame.height
        },
{
}

/// The shader reads the design's size, the output's, the offset, the scale and the opacity,
/// in that order.
pub proof fn an_overlays_parameters_are_in_order(
    c: RgbaOverlayCompositor,
    reference: [Scalar; 2],
    output: [Scalar; 2],
    w: [u32; 8],
)
    requires
        call_ensures(RgbaOverlayCompositor::params_words, (&c, reference, output), w),
    ensures
        w[0] == reference[0].bits,
        w[1] == reference[1].bits,
        w[2] == output[0].bits,
        w[3] == output[1].bits,
        w[4] == c.placement.offset.0.bits,
        w[5] == c.placement.offset.1.bits,
        w[6] == c.placement.scale.bits,
        w[7] == c.opacity.bits,
{
    assert(w@[0] == w[0] && w@[1] == w[1] && w@[2] == w[2] && w@[3] == w[3]);
    assert(w@[4] == w[4] && w@[5] == w[5] && w@[6] == w[6] && w@[7] == w[7]);
}

/// A frame that was pushed leaves after those before it and before those after it: what
/// leaves is the oldest, and the rest stays in order.
pub proof fn the_oldest_frame_leaves_first()
    ensures
        forall|b: &mut FrameBuffer, frame: BufferedFrame| #[trigger]
            call_ensures(FrameBuffer::push, (b, frame), ()) ==> {
                &&& final(b).frames().len() == b.frames().len() + 1
                &&& final(b).frames().last() == frame
                &&& forall|i: int|
                    0 <= i < b.frames().len() ==> #[trigger] final(b).frames()[i] == b.frames()[i]
                &&& final(b).fallback() == b.fallback()
                &&& final(b).capacity() == b.capacity()
            },
        forall|b: &mut FrameBuffer, frame: Option<BufferedFrame>| #[trigger]
            call_ensures(FrameBuffer::pop, (b,), frame) ==> {
                &&& frame is None <==> b.frames().len() == 0
                &&& frame matches Some(f) ==> {
                    &&& f == b.frames()[0]
                    &&& final(b).frames().len() == b.frames().len() - 1
                    &&& forall|i: int|
                        0 <= i < final(b).frames().len() ==> #[trigger] final(b).frames()[i]
                            == b.frames()[i + 1]
                }
                &&& final(b).fallback() == b.fallback()
            },
{
}

/// Each waiting frame shows its own world where that is known, and else the last one that
/// was; none is left out.
pub proof fn the_future_is_that_of_the_waiting_frames(b: FrameBuffer, worlds: Vec<WorldState>)
    requires
        call_ensures(FrameBuffer::future_world_states, (&b,), worlds),
    ensures
        worlds@.len() == b.frames().len(),
        forall|i: int|
            0 <= i < worlds@.len() ==> match b.frames()[i].world_state {
                PendingWorldState::Ready(w) => is_same_world(#[trigger] worlds@[i], w),
                PendingWorldState::Pending(_) => is_same_world(worlds@[i], b.fallback()),
            },
{
}

pub open spec fn is_same_world(a: WorldState, b: WorldState) -> bool {
    a.ball == b.ball && a.players@ == b.players@
}

} // verus!
