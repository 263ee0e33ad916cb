//! Pixel-format conversion for camera frames: YUYV and greyscale to
//! interleaved RGB, with the buffer checks the capture path needs.
//!
//! The YUV coefficients are the usual BT.601 constants carried in fixed
//! point, so the conversion is exact integer arithmetic.

use vstd::prelude::*;
use crate::fixed::{ONE, tdiv};
use crate::VisionError;
use vstd::arithmetic::div_mod::{lemma_mod_division_less_than_divisor, lemma_multiply_divide_lt};

verus! {

/// Clamp into a byte, the final step of every conversion formula.
pub open spec fn spec_clamp_u8(v: int) -> u8 {
    if v < 0 {
        0
    } else if v > 255 {
        255
    } else {
        v as u8
    }
}

/// Clamps a pixel value into the byte range.
pub fn clamp(v: i64) -> (r: u8)
    ensures
        r == spec_clamp_u8(v as int),
{
    if v < 0 {
        0
    } else if v > 255 {
        255
    } else {
        v as u8
    }
}

/// Red from luma and red-chroma: `y + 1.402 * v`.
pub open spec fn spec_yuv_r(y: int, v: int) -> u8 {
    spec_clamp_u8(tdiv(y * (ONE as int) + 1470104 * v, ONE as int))
}

/// Green from luma and both chromas: `y - 0.344136 * u - 0.714136 * v`.
pub open spec fn spec_yuv_g(y: int, u: int, v: int) -> u8 {
    spec_clamp_u8(tdiv(y * (ONE as int) - 360857 * u - 748830 * v, ONE as int))
}

/// Blue from luma and blue-chroma: `y + 1.772 * u`.
pub open spec fn spec_yuv_b(y: int, u: int) -> u8 {
    spec_clamp_u8(tdiv(y * (ONE as int) + 1858077 * u, ONE as int))
}

/// Byte `n` of the RGB image decoded from packed YUYV: each four-byte
/// chunk `y0 u y1 v` yields two RGB pixels sharing the chroma pair.
pub open spec fn spec_yuyv_at(data: Seq<u8>, n: int) -> u8 {
    let chunk = n / 6;
    let ofs = n % 6;
    let y = (if ofs < 3 {
        data[4 * chunk]
    } else {
        data[4 * chunk + 2]
    }) as int;
    let u = data[4 * chunk + 1] - 128;
    let v = data[4 * chunk + 3] - 128;
    if ofs % 3 == 0 {
        spec_yuv_r(y, v)
    } else if ofs % 3 == 1 {
        spec_yuv_g(y, u, v)
    } else {
        spec_yuv_b(y, u)
    }
}

/// The full RGB sequence decoded from a YUYV buffer.
pub open spec fn spec_yuyv_rgb(data: Seq<u8>) -> Seq<u8> {
    Seq::new(((data.len() as int / 4) * 6) as nat, |n: int| spec_yuyv_at(data, n))
}

fn yuv_pixel(y: i64, u: i64, v: i64) -> (r: (u8, u8, u8))
    requires
        0 <= y <= 255,
        -128 <= u <= 127,
        -128 <= v <= 127,
    ensures
        r.0 == spec_yuv_r(y as int, v as int),
        r.1 == spec_yuv_g(y as int, u as int, v as int),
        r.2 == spec_yuv_b(y as int, u as int),
{
    let red = clamp((y * ONE + 1470104 * v) / ONE);
    let green = clamp((y * ONE - 360857 * u - 748830 * v) / ONE);
    let blue = clamp((y * ONE + 1858077 * u) / ONE);
    (red, green, blue)
}

/// Decodes a packed YUYV frame into interleaved RGB.  A buffer shorter
/// than the frame needs is an input error; as in the capture path, every
/// complete four-byte chunk of the buffer is decoded.
#[verifier::rlimit(100)]
pub fn yuyv_to_rgb(width: usize, height: usize, data: &Vec<u8>) -> (r: Result<
    Vec<u8>,
    VisionError,
>)
    requires
        width <= 8192,
        height <= 8192,
        data@.len() <= 268435456,
    ensures
        r is Ok <==> data@.len() >= 2 * (width * height),
        r is Err ==> r == Result::<Vec<u8>, VisionError>::Err(VisionError::InputError),
        r matches Ok(out) ==> out@ == spec_yuyv_rgb(data@),
{
    proof {
        assert(width * height <= 67108864) by (nonlinear_arith)
            requires
                width <= 8192,
                height <= 8192,
        ;
    }
    let expected = 2 * (width * height);
    if data.len() < expected {
        return Err(VisionError::InputError);
    }
    let chunks = data.len() / 4;
    proof {
        vstd::arithmetic::div_mod::lemma_fundamental_div_mod(data@.len() as int, 4);
        vstd::arithmetic::div_mod::lemma_mod_division_less_than_divisor(data@.len() as int, 4);
    }
    let total = 6 * chunks;
    let mut out: Vec<u8> = Vec::new();
    let mut n: usize = 0;
    while n < total
        invariant
            chunks == data@.len() as int / 4,
            4 * chunks <= data@.len(),
            total == 6 * chunks,
            n <= total,
            out@.len() == n,
            forall|m: int| 0 <= m < n ==> out@[m] == spec_yuyv_at(data@, m),
        decreases total - n,
    {
        let chunk = n / 6;
        let ofs = n % 6;
        proof {
            lemma_multiply_divide_lt(n as int, 6, chunks as int);
        }
        let idx = 4 * chunk;
        let y: i64 = if ofs < 3 {
            data[idx] as i64
        } else {
            data[idx + 2] as i64
        };
        let u: i64 = data[idx + 1] as i64 - 128;
        let v: i64 = data[idx + 3] as i64 - 128;
        let val: u8 = if ofs % 3 == 0 {
            clamp((y * ONE + 1470104 * v) / ONE)
        } else if ofs % 3 == 1 {
            clamp((y * ONE - 360857 * u - 748830 * v) / ONE)
        } else {
            clamp((y * ONE + 1858077 * u) / ONE)
        };
        out.push(val);
        n = n + 1;
    }
    proof {
        assert(out@ =~= spec_yuyv_rgb(data@));
    }
    Ok(out)
}

/// Byte `n` of the RGB image expanded from greyscale: each luma byte is
/// repeated across the three channels.
pub open spec fn spec_grey_rgb(data: Seq<u8>, count: int) -> Seq<u8> {
    Seq::new((3 * count) as nat, |n: int| data[n / 3])
}

/// Expands a greyscale frame into interleaved RGB.  A buffer shorter than
/// one byte per pixel is an input error; exactly the frame's pixels are
/// converted.
pub fn grey_to_rgb(width: usize, height: usize, data: &Vec<u8>) -> (r: Result<
    Vec<u8>,
    VisionError,
>)
    requires
        width <= 8192,
        height <= 8192,
    ensures
        r is Ok <==> data@.len() >= width * height,
        r is Err ==> r == Result::<Vec<u8>, VisionError>::Err(VisionError::InputError),
        r matches Ok(out) ==> out@ == spec_grey_rgb(data@, (width * height) as int),
{
    proof {
        assert(width * height <= 67108864) by (nonlinear_arith)
            requires
                width <= 8192,
                height <= 8192,
        ;
    }
    let expected = width * height;
    if data.len() < expected {
        return Err(VisionError::InputError);
    }
    let total = 3 * expected;
    let mut out: Vec<u8> = Vec::new();
    let mut n: usize = 0;
    while n < total
        invariant
            expected == width * height,
            total == 3 * expected,
            expected <= data@.len(),
            n <= total,
            out@.len() == n,
            forall|m: int| 0 <= m < n ==> out@[m] == data@[m / 3],
        decreases total - n,
    {
        proof {
            lemma_multiply_divide_lt(n as int, 3, expected as int);
        }
        out.push(data[n / 3]);
        n = n + 1;
    }
    proof {
        assert(out@ =~= spec_grey_rgb(data@, (width * height) as int));
    }
    Ok(out)
}

/// The pixel layouts the capture path distinguishes; anything else is
/// passed through as already-interleaved RGB.
#[derive(Clone, Copy, Debug, PartialEq, Eq, Structural)]
pub enum PixelFormat {
    Rgb,
    Yuyv,
    Grey,
    Other,
}

/// The RGB bytes a raw frame buffer decodes to, before the length check.
pub open spec fn spec_frame_bytes(
    format: PixelFormat,
    width: int,
    height: int,
    data: Seq<u8>,
) -> Seq<u8> {
    match format {
        PixelFormat::Yuyv => spec_yuyv_rgb(data),
        PixelFormat::Grey => spec_grey_rgb(data, width * height),
        _ => data,
    }
}

/// Decodes a raw camera frame into exactly `3 * width * height` RGB bytes:
/// YUYV and greyscale frames are converted, anything else passes through;
/// a decoded buffer shorter than the frame is an input error and a longer
/// one is cut to size.
pub fn frame_to_rgb(format: PixelFormat, width: usize, height: usize, data: &Vec<u8>) -> (r:
    Result<Vec<u8>, VisionError>)
    requires
        width <= 8192,
        height <= 8192,
        data@.len() <= 268435456,
    ensures
        r is Ok <==> (match format {
            PixelFormat::Yuyv => data@.len() >= 2 * (width * height),
            PixelFormat::Grey => data@.len() >= width * height,
            _ => true,
        }) && spec_frame_bytes(format, width as int, height as int, data@).len() >= 3 * (
        width * height),
        r is Err ==> r == Result::<Vec<u8>, VisionError>::Err(VisionError::InputError),
        r matches Ok(out) ==> out@ == spec_frame_bytes(format, width as int, height as int,
            data@).take(3 * (width * height) as int),
{
    proof {
        assert(width * height <= 67108864) by (nonlinear_arith)
            requires
                width <= 8192,
                height <= 8192,
        ;
    }
    let buf: Vec<u8> = match format {
        PixelFormat::Yuyv => {
            match yuyv_to_rgb(width, height, data) {
                Ok(b) => b,
                Err(e) => {
                    return Err(e);
                },
            }
        },
        PixelFormat::Grey => {
            match grey_to_rgb(width, height, data) {
                Ok(b) => b,
                Err(e) => {
                    return Err(e);
                },
            }
        },
        _ => {
            let c = data.clone();
            proof {
                assert(c@ =~= data@);
            }
            c
        },
    };
    let expected = 3 * (width * height);
    if buf.len() < expected {
        return Err(VisionError::InputError);
    }
    let mut buf = buf;
    buf.truncate(expected);
    proof {
        assert(buf@ =~= spec_frame_bytes(format, width as int, height as int, data@).take(
            3 * (width * height) as int));
    }
    Ok(buf)
}

} // verus!
