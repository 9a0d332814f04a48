//! Image planes as slices, tight and strided.

use vstd::arithmetic::div_mod::lemma_fundamental_div_mod_converse;
use vstd::prelude::*;
use vstd::slice::slice_subrange;

verus! {

/// Every byte of `rows` rows of `row` bytes, the k-th of which starts at
/// `k * stride`, lies below `len`.
pub open spec fn rows_present(len: nat, row: nat, stride: nat, rows: nat) -> bool {
    rows == 0 || (rows - 1) * stride + row <= len
}

/// Those rows one after the other, without what stands between them.
pub open spec fn packed_rows(data: Seq<u8>, row: nat, stride: nat, rows: nat) -> Seq<u8> {
    Seq::new(row * rows, |i: int| data[(i / row as int) * stride + i % (row as int)])
}

/// `n` zero bytes.
pub open spec fn blank(n: nat) -> Seq<u8> {
    Seq::new(n, |i: int| 0u8)
}

/// Copies rows out of a padded buffer into a tight one.
pub fn copy_rows(data: &[u8], row: usize, stride: usize, rows: usize, dst: &mut [u8])
    requires
        row <= stride,
        rows_present(data@.len(), row as nat, stride as nat, rows as nat),
        old(dst)@.len() == row * rows,
    ensures
        final(dst)@ == packed_rows(data@, row as nat, stride as nat, rows as nat),
{
    let room: usize = dst.len();
    let available: usize = data.len();
    let mut r: usize = 0;
    let mut at: usize = 0;
    let mut from: usize = 0;
    while r < rows
        invariant
            row <= stride,
            available == data@.len(),
            rows_present(data@.len(), row as nat, stride as nat, rows as nat),
            room == row * rows,
            dst@.len() == room,
            r <= rows,
            at == r * row,
            r < rows ==> from == r * stride,
            forall|i: int|
                0 <= i < at ==> #[trigger] dst@[i] == data@[(i / row as int) * stride + i % (
                row as int)],
        decreases rows - r,
    {
        assert(r * row + row <= row * rows && r * stride + row <= (rows - 1) * stride + row)
            by (nonlinear_arith)
            requires
                r + 1 <= rows,
                r >= 0,
                row >= 0,
                stride >= 0,
        ;
        let mut c: usize = 0;
        while c < row
            invariant
                row <= stride,
                r < rows,
                c <= row,
                dst@.len() == room,
                data@.len() == available,
                at == r * row,
                from == r * stride,
                at + row <= room,
                from + row <= available,
                forall|i: int|
                    0 <= i < at + c ==> #[trigger] dst@[i] == data@[(i / row as int) * stride + i
                        % (row as int)],
            decreases row - c,
        {
            proof {
                lemma_fundamental_div_mod_converse(
                    (at + c) as int,
                    row as int,
                    r as int,
                    c as int,
                );
            }
            dst[at + c] = data[from + c];
            c += 1;
        }
        assert((r + 1) * row == r * row + row) by (nonlinear_arith);
        at += row;
        if r + 1 < rows {
            assert((r + 1) * stride == r * stride + stride) by (nonlinear_arith);
            assert((r + 1) * stride <= (rows - 1) * stride) by (nonlinear_arith)
                requires
                    r + 1 <= rows - 1,
                    stride >= 0,
            ;
            from += stride;
        }
        r += 1;
    }
    assert(at == row * rows) by (nonlinear_arith)
        requires
            at == r * row,
            r == rows,
    ;
}

/// Sets every byte to zero.
pub fn fill_blank(dst: &mut [u8])
    ensures
        final(dst)@ == blank(old(dst)@.len()),
{
    let n: usize = dst.len();
    let mut i: usize = 0;
    while i < n
        invariant
            i <= n,
            dst@.len() == n,
            n == old(dst)@.len(),
            forall|k: int| 0 <= k < i ==> #[trigger] dst@[k] == 0u8,
        decreases n - i,
    {
        dst[i] = 0u8;
        i += 1;
    }
}

/// One plane whose rows may be followed by padding.
#[derive(Clone, Copy, Debug)]
pub struct FramePlaneView<'a> {
    pub data: &'a [u8],
    pub stride: u32,
    pub width: u32,
    pub height: u32,
}

/// Three tight planes, chroma at half size.
#[derive(Clone, Copy, Debug)]
pub struct YuvPlanes<'a> {
    pub y: &'a [u8],
    pub u: &'a [u8],
    pub v: &'a [u8],
}

/// A tight luma plane and a tight plane of interleaved chroma.
#[derive(Clone, Copy, Debug)]
pub struct Nv12Planes<'a> {
    pub y: &'a [u8],
    pub uv: &'a [u8],
}

/// One tight plane of four bytes to the pixel.
#[derive(Clone, Copy, Debug)]
pub struct BgraPlanes<'a> {
    pub rgba: &'a [u8],
}

/// Three planes with padding.
#[derive(Clone, Copy, Debug)]
pub struct StridedYuvPlanes<'a> {
    pub y: FramePlaneView<'a>,
    pub u: FramePlaneView<'a>,
    pub v: FramePlaneView<'a>,
}

impl<'a> FramePlaneView<'a> {
    pub open spec fn tight_len(self) -> nat {
        self.width as nat * self.height as nat
    }

    /// The declared rows do not overlap and lie within the data.
    pub open spec fn well_formed(self) -> bool {
        &&& self.width <= self.stride
        &&& rows_present(
            self.data@.len(),
            self.width as nat,
            self.stride as nat,
            self.height as nat,
        )
    }

    /// The plane without its padding, or zeros where the declared shape does
    /// not fit the data.
    pub open spec fn tight(self) -> Seq<u8> {
        if self.well_formed() {
            packed_rows(self.data@, self.width as nat, self.stride as nat, self.height as nat)
        } else {
            blank(self.tight_len())
        }
    }
}

/// Copies `src` into `dst` without its padding. A plane whose shape does not
/// fit its data, or `dst`, leaves zeros in `dst`.
pub fn copy_plane_tight(src: &FramePlaneView<'_>, dst: &mut [u8])
    ensures
        old(dst)@.len() == src.tight_len() ==> final(dst)@ == src.tight(),
        old(dst)@.len() != src.tight_len() ==> final(dst)@ == blank(old(dst)@.len()),
{
    let row: u64 = src.width as u64;
    let rows: u64 = src.height as u64;
    let stride: u64 = src.stride as u64;
    assert(0 <= row * rows <= 0xffff_ffff * 0xffff_ffff) by (nonlinear_arith)
        requires
            0 <= row <= 0xffff_ffff,
            0 <= rows <= 0xffff_ffff,
    ;
    assert(rows > 0 ==> 0 <= (rows - 1) * stride <= 0xffff_fffe * 0xffff_ffff) by (nonlinear_arith)
        requires
            0 <= stride <= 0xffff_ffff,
            0 <= rows <= 0xffff_ffff,
    ;
    let fits: bool = row <= stride && (rows == 0 || (rows - 1) * stride + row
        <= src.data.len() as u64);
    if dst.len() as u64 == row * rows && fits {
        copy_rows(src.data, row as usize, stride as usize, rows as usize, dst);
    } else {
        fill_blank(dst);
    }
}

impl<'a> StridedYuvPlanes<'a> {
    pub open spec fn total_len(self) -> nat {
        self.y.tight_len() + self.u.tight_len() + self.v.tight_len()
    }

    /// Packs the three planes into `buffer`, in the order y, u, v, and hands
    /// them back as slices of it. What `buffer` held is lost; its allocation is
    /// kept where it is large enough.
    pub fn copy_into<'b>(&self, buffer: &'b mut Vec<u8>) -> (tight: YuvPlanes<'b>)
        requires
            self.total_len() <= usize::MAX,
        ensures
            tight.y@ == self.y.tight(),
            tight.u@ == self.u.tight(),
            tight.v@ == self.v.tight(),
            final(buffer)@ == self.y.tight() + self.u.tight() + self.v.tight(),
    {
        let ny: usize = self.y.width as usize * self.y.height as usize;
        let nu: usize = self.u.width as usize * self.u.height as usize;
        let nv: usize = self.v.width as usize * self.v.height as usize;
        buffer.clear();
        buffer.resize(ny + nu + nv, 0u8);
        {
            let (y, rest) = buffer.as_mut_slice().split_at_mut(ny);
            copy_plane_tight(&self.y, y);
            let (u, v) = rest.split_at_mut(nu);
            copy_plane_tight(&self.u, u);
            copy_plane_tight(&self.v, v);
        }
        let all: &'b [u8] = buffer.as_slice();
        YuvPlanes {
            y: slice_subrange(all, 0, ny),
            u: slice_subrange(all, ny, ny + nu),
            v: slice_subrange(all, ny + nu, ny + nu + nv),
        }
    }
}

/// A plane that has no padding is copied byte for byte.
pub proof fn tight_plane_is_copied_whole(plane: FramePlaneView<'_>)
    requires
        plane.stride == plane.width,
        plane.data@.len() == plane.tight_len(),
    ensures
        plane.tight() == plane.data@,
{
    let w = plane.width as int;
    let h = plane.height as int;
    assert(h > 0 ==> (h - 1) * w + w == w * h) by (nonlinear_arith);
    assert forall|i: int| 0 <= i < w * h implies #[trigger] plane.tight()[i] == plane.data@[i] by {
        assert(w != 0) by (nonlinear_arith)
            requires
                0 <= i < w * h,
        ;
        vstd::arithmetic::div_mod::lemma_fundamental_div_mod(i, w);
        assert((i / w) * w == w * (i / w)) by (nonlinear_arith);
    }
}

} // verus!
