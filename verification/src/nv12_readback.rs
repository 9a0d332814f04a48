//! Reading an NV12 image back from the device.

use crate::planes::{copy_rows, packed_rows};
use crate::text::{append_dims, dims_text};
use vstd::prelude::*;
use vstd::string::StringExecFns;

verus! {

/// Rows of a device buffer start at multiples of this.
pub const ROW_ALIGNMENT: u32 = 256;

/// The longest row whose padded length still fits.
pub const LONGEST_ROW: u32 = 0xffff_ff00;

/// A row length rounded up to the device's alignment.
pub open spec fn padded_len(row: nat) -> nat {
    (row + 255) / 256 * 256
}

pub fn padded_row(row: u32) -> (p: u32)
    requires
        row <= LONGEST_ROW,
    ensures
        p == padded_len(row as nat),
        p % 256 == 0,
        row <= p < row + 256,
{
    let rest: u32 = row % ROW_ALIGNMENT;
    if rest == 0 {
        row
    } else {
        row / ROW_ALIGNMENT * ROW_ALIGNMENT + ROW_ALIGNMENT
    }
}

#[derive(Debug)]
pub enum Nv12ReadbackError {
    InvalidDimensions(String),
    MapFailed(String),
}

impl Nv12ReadbackError {
    pub open spec fn text(self) -> Seq<char> {
        match self {
            Nv12ReadbackError::InvalidDimensions(m) => "invalid dimensions: "@ + m@,
            Nv12ReadbackError::MapFailed(m) => "buffer map failed: "@ + m@,
        }
    }

    pub fn message(&self) -> (m: String)
        ensures
            m@ == self.text(),
    {
        match self {
            Nv12ReadbackError::InvalidDimensions(inner) => {
                let mut m: String = "invalid dimensions: ".to_owned();
                m.append(inner.as_str());
                m
            },
            Nv12ReadbackError::MapFailed(inner) => {
                let mut m: String = "buffer map failed: ".to_owned();
                m.append(inner.as_str());
                m
            },
        }
    }
}

/// How the mapping of a staging buffer can fail, with the device's words.
pub enum MapFailure {
    Poll(String),
    CallbackDropped,
    Device(String),
}

pub open spec fn failure_text(failure: MapFailure) -> Seq<char> {
    match failure {
        MapFailure::Poll(m) => "poll failed: "@ + m@,
        MapFailure::CallbackDropped => "map callback dropped"@,
        MapFailure::Device(m) => m@,
    }
}

/// The error that a failed mapping is reported as.
pub fn map_error(failure: MapFailure) -> (e: Nv12ReadbackError)
    ensures
        e matches Nv12ReadbackError::MapFailed(m) && m@ == failure_text(failure),
{
    match failure {
        MapFailure::Poll(m) => {
            let mut text: String = "poll failed: ".to_owned();
            text.append(m.as_str());
            Nv12ReadbackError::MapFailed(text)
        },
        MapFailure::CallbackDropped => Nv12ReadbackError::MapFailed(
            "map callback dropped".to_owned(),
        ),
        MapFailure::Device(m) => Nv12ReadbackError::MapFailed(m),
    }
}

/// A copy of one plane into a staging buffer.
#[derive(Clone, Copy, Debug, PartialEq, Eq, Structural)]
pub struct PlaneCopy {
    pub width: u32,
    pub height: u32,
    pub bytes_per_row: u32,
    pub staging_bytes: u64,
}

/// The layout of a readback and the planes it last read.
pub struct Nv12Readback {
    pub y_out: Vec<u8>,
    pub uv_out: Vec<u8>,
    pub width: u32,
    pub height: u32,
    pub y_bytes_per_row: u32,
    pub y_padded_bytes_per_row: u32,
    pub uv_bytes_per_row: u32,
    pub uv_padded_bytes_per_row: u32,
}

pub open spec fn nv12_dims(width: u32, height: u32) -> bool {
    width > 0 && height > 0 && width % 2 == 0 && height % 2 == 0
}

impl Nv12Readback {
    pub open spec fn wf(self) -> bool {
        &&& nv12_dims(self.width, self.height)
        &&& self.width <= LONGEST_ROW
        &&& self.width * self.height <= usize::MAX
        &&& self.y_bytes_per_row == self.width
        &&& self.uv_bytes_per_row == self.width
        &&& self.y_padded_bytes_per_row == padded_len(self.width as nat)
        &&& self.uv_padded_bytes_per_row == padded_len(self.width as nat)
        &&& self.y_out@.len() == self.width * self.height
        &&& self.uv_out@.len() == self.width * (self.height / 2)
    }

    /// A readback of images of one size, which must be even and not zero.
    pub fn new(width: u32, height: u32) -> (r: Result<Nv12Readback, Nv12ReadbackError>)
        requires
            nv12_dims(width, height) ==> width <= LONGEST_ROW && width * height <= usize::MAX,
        ensures
            r is Ok <==> nv12_dims(width, height),
            r matches Ok(b) ==> b.wf() && b.width == width && b.height == height && b.y_out@
                == crate::planes::blank((width * height) as nat) && b.uv_out@
                == crate::planes::blank((width * (height / 2)) as nat),
            r matches Err(e) ==> (e matches Nv12ReadbackError::InvalidDimensions(m) && m@ == (
            if width == 0 || height == 0 {
                "must be > 0, got "@
            } else {
                "must be even, got "@
            }) + dims_text(width as nat, height as nat)),
    {
        if width == 0 || height == 0 {
            let mut m: String = "must be > 0, got ".to_owned();
            append_dims(&mut m, width as u64, height as u64);
            return Err(Nv12ReadbackError::InvalidDimensions(m));
        }
        if width % 2 != 0 || height % 2 != 0 {
            let mut m: String = "must be even, got ".to_owned();
            append_dims(&mut m, width as u64, height as u64);
            return Err(Nv12ReadbackError::InvalidDimensions(m));
        }
        let uv_height: u32 = height / 2;
        assert(width * uv_height <= width * height) by (nonlinear_arith)
            requires
                uv_height <= height,
                width >= 0,
        ;
        let mut y_out: Vec<u8> = Vec::new();
        y_out.resize(width as usize * height as usize, 0u8);
        let mut uv_out: Vec<u8> = Vec::new();
        uv_out.resize(width as usize * uv_height as usize, 0u8);
        let padded: u32 = padded_row(width);
        Ok(
            Nv12Readback {
                y_out,
                uv_out,
                width,
                height,
                y_bytes_per_row: width,
                y_padded_bytes_per_row: padded,
                uv_bytes_per_row: width,
                uv_padded_bytes_per_row: padded,
            },
        )
    }

    pub fn frame_size(&self) -> (size: (u32, u32))
        ensures
            size == (self.width, self.height),
    {
        (self.width, self.height)
    }

    /// The copy of the luma plane.
    pub fn y_copy(&self) -> (c: PlaneCopy)
        requires
            self.wf(),
        ensures
            c == (PlaneCopy {
                width: self.width,
                height: self.height,
                bytes_per_row: self.y_padded_bytes_per_row,
                staging_bytes: (self.y_padded_bytes_per_row * self.height) as u64,
            }),
    {
        assert(0 <= self.y_padded_bytes_per_row * self.height <= 0xffff_ffff * 0xffff_ffff)
            by (nonlinear_arith)
            requires
                0 <= self.y_padded_bytes_per_row <= 0xffff_ffff,
                0 <= self.height <= 0xffff_ffff,
        ;
        PlaneCopy {
            width: self.width,
            height: self.height,
            bytes_per_row: self.y_padded_bytes_per_row,
            staging_bytes: self.y_padded_bytes_per_row as u64 * self.height as u64,
        }
    }

    /// The copy of the chroma plane: half the size, two bytes to the sample.
    pub fn uv_copy(&self) -> (c: PlaneCopy)
        requires
            self.wf(),
        ensures
            c == (PlaneCopy {
                width: self.width / 2,
                height: self.height / 2,
                bytes_per_row: self.uv_padded_bytes_per_row,
                staging_bytes: (self.uv_padded_bytes_per_row * (self.height / 2)) as u64,
            }),
    {
        let rows: u32 = self.height / 2;
        assert(0 <= self.uv_padded_bytes_per_row * rows <= 0xffff_ffff * 0xffff_ffff)
            by (nonlinear_arith)
            requires
                0 <= self.uv_padded_bytes_per_row <= 0xffff_ffff,
                0 <= rows <= 0xffff_ffff,
        ;
        PlaneCopy {
            width: self.width / 2,
            height: rows,
            bytes_per_row: self.uv_padded_bytes_per_row,
            staging_bytes: self.uv_padded_bytes_per_row as u64 * rows as u64,
        }
    }

    /// Takes the mapped luma plane, without its padding.
    pub fn accept_y(&mut self, mapped: Result<&[u8], MapFailure>) -> (r: Result<
        (),
        Nv12ReadbackError,
    >)
        requires
            old(self).wf(),
            mapped matches Ok(data) ==> data@.len() == old(self).y_padded_bytes_per_row * old(
                self,
            ).height,
        ensures
            final(self).wf(),
            final(self).width == old(self).width,
            final(self).height == old(self).height,
            final(self).uv_out@ == old(self).uv_out@,
            r is Ok <==> mapped is Ok,
            mapped matches Ok(data) ==> final(self).y_out@ == packed_rows(
                data@,
                old(self).width as nat,
                old(self).y_padded_bytes_per_row as nat,
                old(self).height as nat,
            ),
            mapped matches Err(f) ==> final(self).y_out@ == old(self).y_out@ && (r matches Err(
                Nv12ReadbackError::MapFailed(m),
            ) && m@ == failure_text(f)),
    {
        match mapped {
            Ok(data) => {
                let row: usize = self.y_bytes_per_row as usize;
                let stride: usize = self.y_padded_bytes_per_row as usize;
                let rows: usize = self.height as usize;
                proof {
                    padded_rows_present(row as nat, stride as nat, rows as nat);
                }
                copy_rows(data, row, stride, rows, self.y_out.as_mut_slice());
                Ok(())
            },
            Err(f) => Err(map_error(f)),
        }
    }

    /// Takes the mapped chroma plane, without its padding.
    pub fn accept_uv(&mut self, mapped: Result<&[u8], MapFailure>) -> (r: Result<
        (),
        Nv12ReadbackError,
    >)
        requires
            old(self).wf(),
            mapped matches Ok(data) ==> data@.len() == old(self).uv_padded_bytes_per_row * (old(
                self,
            ).height / 2),
        ensures
            final(self).wf(),
            final(self).width == old(self).width,
            final(self).height == old(self).height,
            final(self).y_out@ == old(self).y_out@,
            r is Ok <==> mapped is Ok,
            mapped matches Ok(data) ==> final(self).uv_out@ == packed_rows(
                data@,
                old(self).width as nat,
                old(self).uv_padded_bytes_per_row as nat,
                (old(self).height / 2) as nat,
            ),
            mapped matches Err(f) ==> final(self).uv_out@ == old(self).uv_out@ && (r matches Err(
                Nv12ReadbackError::MapFailed(m),
            ) && m@ == failure_text(f)),
    {
        match mapped {
            Ok(data) => {
                let row: usize = self.uv_bytes_per_row as usize;
                let stride: usize = self.uv_padded_bytes_per_row as usize;
                let rows: usize = (self.height / 2) as usize;
                proof {
                    padded_rows_present(row as nat, stride as nat, rows as nat);
                }
                copy_rows(data, row, stride, rows, self.uv_out.as_mut_slice());
                Ok(())
            },
            Err(f) => Err(map_error(f)),
        }
    }
}

proof fn padded_rows_present(row: nat, stride: nat, rows: nat)
    requires
        row <= stride,
    ensures
        crate::planes::rows_present(stride * rows, row, stride, rows),
{
    if rows > 0 {
        assert((rows - 1) * stride + row <= stride * rows) by (nonlinear_arith)
            requires
                row <= stride,
                rows > 0,
        ;
    }
}

/// A row length is padded to the next multiple of the alignment, and one that
/// is a multiple already is left alone.
pub proof fn padding_is_least(row: nat)
    ensures
        padded_len(row) % 256 == 0,
        row <= padded_len(row) < row + 256,
        row % 256 == 0 ==> padded_len(row) == row,
{
}

} // verus!
