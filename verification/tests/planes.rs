//! Planes with and without padding.

use reco_core::planes::{copy_plane_tight, FramePlaneView, StridedYuvPlanes};

/// Build a test plane where row `r` contains byte value `r` for the first
/// `width` bytes, followed by `0xFF` padding up to `stride`.
fn padded_plane(width: u32, height: u32, stride: u32) -> Vec<u8> {
    let mut buf = vec![0xFF; (stride * height) as usize];
    for r in 0..height {
        for c in 0..width {
            buf[(r * stride + c) as usize] = r as u8;
        }
    }
    buf
}

#[test]
fn copy_into_strips_row_padding() {
    // 4-pixel wide plane padded to 8-byte rows (typical OBS alignment).
    let y_data = padded_plane(4, 3, 8);
    let u_data = padded_plane(2, 2, 4);
    let v_data = padded_plane(2, 2, 4);
    let strided = StridedYuvPlanes {
        y: FramePlaneView {
            data: &y_data,
            stride: 8,
            width: 4,
            height: 3,
        },
        u: FramePlaneView {
            data: &u_data,
            stride: 4,
            width: 2,
            height: 2,
        },
        v: FramePlaneView {
            data: &v_data,
            stride: 4,
            width: 2,
            height: 2,
        },
    };

    let mut buffer = Vec::new();
    let tight = strided.copy_into(&mut buffer);

    assert_eq!(tight.y.len(), 12);
    assert_eq!(tight.u.len(), 4);
    assert_eq!(tight.v.len(), 4);
    // Row 0 should be [0,0,0,0], row 1 [1,1,1,1], etc - no 0xFF padding.
    assert_eq!(tight.y, &[0, 0, 0, 0, 1, 1, 1, 1, 2, 2, 2, 2]);
    assert_eq!(tight.u, &[0, 0, 1, 1]);
    assert_eq!(tight.v, &[0, 0, 1, 1]);
}

#[test]
fn copy_into_fast_path_when_tight() {
    // stride == width means no padding - fast path takes a single memcpy.
    let y_data: Vec<u8> = (0..12).collect();
    let u_data: Vec<u8> = (0..4).collect();
    let v_data: Vec<u8> = (4..8).collect();
    let strided = StridedYuvPlanes {
        y: FramePlaneView {
            data: &y_data,
            stride: 4,
            width: 4,
            height: 3,
        },
        u: FramePlaneView {
            data: &u_data,
            stride: 2,
            width: 2,
            height: 2,
        },
        v: FramePlaneView {
            data: &v_data,
            stride: 2,
            width: 2,
            height: 2,
        },
    };
    let mut buffer = Vec::new();
    let tight = strided.copy_into(&mut buffer);
    assert_eq!(tight.y, y_data.as_slice());
    assert_eq!(tight.u, u_data.as_slice());
    assert_eq!(tight.v, v_data.as_slice());
}

#[test]
fn copy_into_reuses_buffer_without_realloc() {
    let plane = padded_plane(4, 3, 8);
    let strided = StridedYuvPlanes {
        y: FramePlaneView {
            data: &plane,
            stride: 8,
            width: 4,
            height: 3,
        },
        u: FramePlaneView {
            data: &plane,
            stride: 8,
            width: 2,
            height: 2,
        },
        v: FramePlaneView {
            data: &plane,
            stride: 8,
            width: 2,
            height: 2,
        },
    };

    let mut buffer = Vec::with_capacity(64);
    let cap_before = buffer.capacity();
    let _tight = strided.copy_into(&mut buffer);
    // 12 + 4 + 4 = 20 bytes needed, 64 capacity, no realloc.
    assert_eq!(buffer.capacity(), cap_before);

    // Second call with same dims: still no realloc.
    let _tight2 = strided.copy_into(&mut buffer);
    assert_eq!(buffer.capacity(), cap_before);
}


#[test]
fn copy_plane_tight_handles_stride_less_than_width() {
    // Pathological: caller declares width=8 but stride=4.
    // Reading it row by row would overlap rows and run off the
    // slice, so the plane is zero-filled.
    let data = vec![0xAA_u8; 16]; // 4 rows * 4 stride
    let src = FramePlaneView {
        data: &data,
        stride: 4,
        width: 8,
        height: 4,
    };
    let mut dst = vec![0xFF_u8; 32]; // 8*4
    copy_plane_tight(&src, &mut dst);
    assert!(
        dst.iter().all(|&b| b == 0),
        "zero-fill expected on stride<width"
    );
}

#[test]
fn copy_plane_tight_handles_short_source_buffer() {
    let data = vec![0x77_u8; 4]; // Way too small for 8*4 claim.
    let src = FramePlaneView {
        data: &data,
        stride: 8,
        width: 8,
        height: 4,
    };
    let mut dst = vec![0xFF_u8; 32];
    copy_plane_tight(&src, &mut dst);
    assert!(dst.iter().all(|&b| b == 0));
}

#[test]
fn copy_plane_tight_handles_dst_size_mismatch() {
    let data = vec![0xAB_u8; 32];
    let src = FramePlaneView {
        data: &data,
        stride: 8,
        width: 8,
        height: 4,
    };
    let mut dst = vec![0xFF_u8; 16]; // half of what's claimed
    copy_plane_tight(&src, &mut dst);
    assert!(dst.iter().all(|&b| b == 0));
}

#[test]
fn copy_plane_tight_still_fast_path_when_tight() {
    let data: Vec<u8> = (0..32).collect();
    let src = FramePlaneView {
        data: &data,
        stride: 8,
        width: 8,
        height: 4,
    };
    let mut dst = vec![0; 32];
    copy_plane_tight(&src, &mut dst);
    assert_eq!(dst.as_slice(), data.as_slice());
}

#[test]
fn the_last_row_needs_no_padding() {
    // Two rows of two bytes, three apart: five bytes are enough.
    let data = vec![1u8, 2, 9, 3, 4];
    let src = FramePlaneView {
        data: &data,
        stride: 3,
        width: 2,
        height: 2,
    };
    let mut dst = vec![0u8; 4];
    copy_plane_tight(&src, &mut dst);
    assert_eq!(dst, vec![1, 2, 3, 4]);
    let short = FramePlaneView {
        data: &data[..4],
        ..src
    };
    copy_plane_tight(&short, &mut dst);
    assert_eq!(dst, vec![0, 0, 0, 0]);
}

#[test]
fn planes_are_packed_in_order_over_what_the_buffer_held() {
    let y: Vec<u8> = vec![1, 2, 3, 4];
    let u: Vec<u8> = vec![5];
    let v: Vec<u8> = vec![6];
    let one = |data| FramePlaneView {
        data,
        stride: 1,
        width: 1,
        height: 1,
    };
    let strided = StridedYuvPlanes {
        y: FramePlaneView {
            data: &y,
            stride: 2,
            width: 2,
            height: 2,
        },
        u: one(&u),
        v: one(&v),
    };
    let mut buffer = vec![7u8; 100];
    let tight = strided.copy_into(&mut buffer);
    assert_eq!(tight.v, &[6]);
    assert_eq!(buffer, vec![1, 2, 3, 4, 5, 6]);
}
