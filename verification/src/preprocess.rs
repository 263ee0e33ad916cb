//! Preprocessing: letterboxing onto a square canvas and conversion to the
//! planar, channel-reversed tensor layout the models take.
//!
//! The aspect-preserving resample itself is done by the `image` crate; its
//! result is named, and everything around it — the scaled dimensions, the
//! centered placement, the padding and the channel shuffle — is computed and
//! proved here.

use vstd::prelude::*;
use crate::VisionError;
use vstd::arithmetic::div_mod::{
    lemma_fundamental_div_mod_converse, lemma_multiply_divide_lt,
    lemma_mod_division_less_than_divisor, lemma_div_is_ordered,
};

verus! {

/// An owned 8-bit RGB image: interleaved rows, three bytes per pixel.
#[derive(Clone, Debug)]
pub struct ImageBuf {
    pub width: usize,
    pub height: usize,
    pub data: Vec<u8>,
}

impl ImageBuf {
    /// The buffer covers the dimensions exactly; dimensions stay small
    /// enough for every index computation of the pipeline.
    pub open spec fn wf(self) -> bool {
        self.data@.len() == 3 * self.width * self.height && self.width <= 8192
            && self.height <= 8192
    }
}

/// What `image::imageops::resize` with the Triangle filter returns for the
/// given source pixels and dimensions; a pure function of its arguments.
pub uninterp spec fn resized_of(pixels: Seq<u8>, sw: int, sh: int, dw: int, dh: int) -> Seq<u8>;

/// Relies on `image::imageops::resize` (Triangle filter): the result is an
/// image of exactly the requested dimensions, computed from the source
/// pixels and the dimensions alone.
#[verifier::external_body]
fn resize_triangle(img: &ImageBuf, new_w: usize, new_h: usize) -> (r: ImageBuf)
    requires
        img.wf(),
        0 < img.width,
        0 < img.height,
        0 < new_w <= 8192,
        0 < new_h <= 8192,
    ensures
        r.width == new_w,
        r.height == new_h,
        r.data@.len() == 3 * new_w * new_h,
        r.data@ == resized_of(img.data@, img.width as int, img.height as int, new_w as int,
            new_h as int),
{
    let src = image::RgbImage::from_raw(img.width as u32, img.height as u32, img.data.clone())
        .expect("buffer length matches dimensions");
    let out = image::imageops::resize(&src, new_w as u32, new_h as u32,
        image::imageops::FilterType::Triangle);
    ImageBuf { width: new_w, height: new_h, data: out.into_raw() }
}

/// Letterbox placement: scaled dimensions and centered offsets on a square
/// canvas of side `size`.  The scale is `size / max_dim` as an exact
/// rational; scaled dimensions round to nearest.
#[derive(Clone, Copy, Debug, PartialEq, Eq, Structural)]
pub struct LetterboxParams {
    pub size: usize,
    pub max_dim: usize,
    pub new_w: usize,
    pub new_h: usize,
    pub offset_x: usize,
    pub offset_y: usize,
}

impl LetterboxParams {
    pub open spec fn wf(self) -> bool {
        32 <= self.size <= 4096 && 0 < self.max_dim <= 16384 && 0 < self.new_w <= self.size
            && 0 < self.new_h <= self.size && self.offset_x == (self.size - self.new_w) / 2
            && self.offset_y == (self.size - self.new_h) / 2
    }
}

/// `round(d * size / m)`, carried out exactly on integers.
pub open spec fn spec_scaled_dim(d: int, size: int, m: int) -> int {
    (2 * d * size + m) / (2 * m)
}

/// Scaling the largest dimension yields the canvas side exactly.
proof fn lemma_scaled_dim_of_max(size: int, m: int)
    requires
        0 < size,
        0 < m,
    ensures
        spec_scaled_dim(m, size, m) == size,
{
    assert(2 * m * size + m == size * (2 * m) + m) by (nonlinear_arith);
    lemma_fundamental_div_mod_converse(2 * m * size + m, 2 * m, size, m);
}

/// Scaled dimensions never pass the canvas side.
proof fn lemma_scaled_dim_le(d: int, size: int, m: int)
    requires
        0 < size,
        0 < d <= m,
    ensures
        spec_scaled_dim(d, size, m) <= size,
        spec_scaled_dim(d, size, m) >= 0,
{
    assert(2 * d * size + m <= 2 * m * size + m) by (nonlinear_arith)
        requires
            0 < size,
            0 < d <= m,
    ;
    lemma_div_is_ordered(2 * d * size + m, 2 * m * size + m, 2 * m);
    lemma_scaled_dim_of_max(size, m);
    vstd::arithmetic::div_mod::lemma_div_pos_is_pos(2 * d * size + m, 2 * m);
}

/// Computes the letterbox placement for an image of the given dimensions on
/// a square canvas: `scale = size / max(width, height)`, aspect preserved,
/// offsets centered with the left/top side taking the smaller half of the
/// padding.  An image with a zero dimension — or one so elongated that its
/// short side scales to nothing — is an input error.
pub fn letterbox_geometry(width: usize, height: usize, size: usize) -> (r: Result<
    LetterboxParams,
    VisionError,
>)
    requires
        32 <= size <= 4096,
        width <= 16384,
        height <= 16384,
    ensures
        r is Ok <==> 0 < width && 0 < height && 0 < spec_scaled_dim(width as int, size as int,
            vstd::math::max(width as int, height as int)) && 0 < spec_scaled_dim(height as int,
            size as int, vstd::math::max(width as int, height as int)),
        r is Err ==> r == Result::<LetterboxParams, VisionError>::Err(VisionError::InputError),
        r matches Ok(p) ==> {
            &&& p.size == size
            &&& p.max_dim == vstd::math::max(width as int, height as int)
            &&& p.new_w == spec_scaled_dim(width as int, size as int, p.max_dim as int)
            &&& p.new_h == spec_scaled_dim(height as int, size as int, p.max_dim as int)
            &&& p.offset_x == (size - p.new_w) / 2
            &&& p.offset_y == (size - p.new_h) / 2
            &&& p.wf()
            &&& height >= width ==> p.new_h == size && p.offset_y == 0
            &&& width >= height ==> p.new_w == size && p.offset_x == 0
            &&& p.offset_x <= (size - p.new_w) - p.offset_x <= p.offset_x + 1
            &&& p.offset_y <= (size - p.new_h) - p.offset_y <= p.offset_y + 1
        },
{
    if width == 0 || height == 0 {
        return Err(VisionError::InputError);
    }
    let m = if width >= height {
        width
    } else {
        height
    };
    proof {
        assert(2 * width * size <= 134217728 && 2 * height * size <= 134217728)
            by (nonlinear_arith)
            requires
                width <= 16384,
                height <= 16384,
                size <= 4096,
        ;
    }
    let new_w = (2 * width * size + m) / (2 * m);
    let new_h = (2 * height * size + m) / (2 * m);
    proof {
        lemma_scaled_dim_le(width as int, size as int, m as int);
        lemma_scaled_dim_le(height as int, size as int, m as int);
        lemma_scaled_dim_of_max(size as int, m as int);
    }
    if new_w == 0 || new_h == 0 {
        return Err(VisionError::InputError);
    }
    let offset_x = (size - new_w) / 2;
    let offset_y = (size - new_h) / 2;
    Ok(LetterboxParams { size, max_dim: m, new_w, new_h, offset_x, offset_y })
}

/// Byte `n` of the letterboxed canvas: the pasted image inside the centered
/// window, zero padding outside.
pub open spec fn spec_canvas_at(
    src: Seq<u8>,
    new_w: int,
    new_h: int,
    ox: int,
    oy: int,
    size: int,
    n: int,
) -> u8 {
    let c = n % 3;
    let p = n / 3;
    let px = p % size;
    let py = p / size;
    if ox <= px < ox + new_w && oy <= py < oy + new_h {
        src[3 * ((py - oy) * new_w + (px - ox)) + c]
    } else {
        0
    }
}

/// The letterboxed square canvas as a byte sequence.
pub open spec fn spec_canvas(
    src: Seq<u8>,
    new_w: int,
    new_h: int,
    ox: int,
    oy: int,
    size: int,
) -> Seq<u8> {
    Seq::new((3 * size * size) as nat, |n: int| spec_canvas_at(src, new_w, new_h, ox, oy, size, n))
}

/// Pastes the resized image onto a zero-filled square canvas at the centered
/// offsets.
fn letterbox_canvas(resized: &ImageBuf, p: &LetterboxParams) -> (r: ImageBuf)
    requires
        p.wf(),
        resized.wf(),
        resized.width == p.new_w,
        resized.height == p.new_h,
    ensures
        r.width == p.size,
        r.height == p.size,
        r.wf(),
        r.data@ == spec_canvas(resized.data@, p.new_w as int, p.new_h as int, p.offset_x as int,
            p.offset_y as int, p.size as int),
{
    let size = p.size;
    proof {
        assert(size * size <= 16777216) by (nonlinear_arith)
            requires
                size <= 4096,
        ;
    }
    let total: usize = 3 * (size * size);
    let mut data: Vec<u8> = Vec::new();
    let mut n: usize = 0;
    while n < total
        invariant
            p.wf(),
            resized.wf(),
            resized.width == p.new_w,
            resized.height == p.new_h,
            size == p.size,
            total == 3 * (size * size),
            n <= total,
            data@.len() == n,
            forall|m: int| 0 <= m < n ==> data@[m] == spec_canvas_at(resized.data@,
                p.new_w as int, p.new_h as int, p.offset_x as int, p.offset_y as int,
                p.size as int, m),
        decreases total - n,
    {
        let c = n % 3;
        let pix = n / 3;
        let px = pix % size;
        let py = pix / size;
        proof {
            lemma_multiply_divide_lt(n as int, 3, (size * size) as int);
            lemma_mod_division_less_than_divisor(pix as int, size as int);
            lemma_multiply_divide_lt(pix as int, size as int, size as int);
        }
        let v: u8 = if p.offset_x <= px && px < p.offset_x + p.new_w && p.offset_y <= py && py
            < p.offset_y + p.new_h {
            let rx = px - p.offset_x;
            let ry = py - p.offset_y;
            proof {
                assert(ry * p.new_w + rx < p.new_h * p.new_w && ry * p.new_w <= 16773120)
                    by (nonlinear_arith)
                    requires
                        0 <= rx < p.new_w,
                        0 <= ry < p.new_h,
                        p.new_w <= 4096,
                        p.new_h <= 4096,
                ;
                assert(3 * (p.new_h * p.new_w) <= 3 * resized.width * resized.height)
                    by (nonlinear_arith)
                    requires
                        resized.width == p.new_w,
                        resized.height == p.new_h,
                ;
            }
            let si = 3 * (ry * p.new_w + rx) + c;
            resized.data[si]
        } else {
            0
        };
        data.push(v);
        n = n + 1;
    }
    proof {
        assert(3 * ((size * size) as int) == 3 * (size as int) * (size as int))
            by (nonlinear_arith);
        assert(data@ =~= spec_canvas(resized.data@, p.new_w as int, p.new_h as int,
            p.offset_x as int, p.offset_y as int, p.size as int));
    }
    ImageBuf { width: size, height: size, data }
}

/// Byte `n` of the planar, channel-reversed tensor: plane 0 takes the third
/// interleaved channel, plane 2 the first.
pub open spec fn spec_planar_at(img: Seq<u8>, wh: int, n: int) -> u8 {
    img[3 * (n % wh) + 2 - n / wh]
}

/// The planar tensor `[3, h, w]` with reversed channel order, as bytes; the
/// inference engine takes each byte as a float with no further
/// normalization.
pub open spec fn spec_planar(img: Seq<u8>, wh: int) -> Seq<u8> {
    Seq::new((3 * wh) as nat, |n: int| spec_planar_at(img, wh, n))
}

/// Rearranges an interleaved RGB image into the planar, channel-reversed
/// tensor layout.
fn planar_reversed_tensor(img: &ImageBuf) -> (r: Vec<u8>)
    requires
        img.wf(),
    ensures
        r@.len() == 3 * img.width * img.height,
        r@ == spec_planar(img.data@, (img.width * img.height) as int),
{
    proof {
        assert(img.width * img.height <= 67108864 && 3 * (img.width * img.height)
            == 3 * img.width * img.height) by (nonlinear_arith)
            requires
                img.width <= 8192,
                img.height <= 8192,
        ;
    }
    let wh: usize = img.width * img.height;
    let total: usize = 3 * wh;
    let mut out: Vec<u8> = Vec::new();
    let mut n: usize = 0;
    while n < total
        invariant
            img.wf(),
            wh == img.width * img.height,
            3 * wh == 3 * img.width * img.height,
            total == 3 * wh,
            n <= total,
            out@.len() == n,
            forall|m: int| 0 <= m < n ==> out@[m] == spec_planar_at(img.data@, wh as int, m),
        decreases total - n,
    {
        let plane = n / wh;
        let i = n % wh;
        proof {
            lemma_multiply_divide_lt(n as int, wh as int, 3);
            lemma_mod_division_less_than_divisor(n as int, wh as int);
            assert(wh as int * 3 == 3 * wh as int) by (nonlinear_arith);
        }
        out.push(img.data[3 * i + 2 - plane]);
        n = n + 1;
    }
    proof {
        assert(out@ =~= spec_planar(img.data@, wh as int));
    }
    out
}

/// The detection input: letterboxes the image onto a `size` by `size`
/// canvas — aspect-preserving resize, centered paste, zero padding — and
/// lays it out as the planar, channel-reversed byte tensor, returning the
/// placement for later unmapping.
pub fn prepare_detect_input(img: &ImageBuf, size: usize) -> (r: Result<
    (Vec<u8>, LetterboxParams),
    VisionError,
>)
    requires
        img.wf(),
        32 <= size <= 4096,
    ensures
        r is Ok <==> 0 < img.width && 0 < img.height && 0 < spec_scaled_dim(img.width as int,
            size as int, vstd::math::max(img.width as int, img.height as int))
            && 0 < spec_scaled_dim(img.height as int, size as int,
            vstd::math::max(img.width as int, img.height as int)),
        r is Err ==> r == Result::<(Vec<u8>, LetterboxParams), VisionError>::Err(
            VisionError::InputError),
        r matches Ok(t) ==> {
            &&& t.1.wf()
            &&& t.1.size == size
            &&& t.1.max_dim == vstd::math::max(img.width as int, img.height as int)
            &&& t.1.new_w == spec_scaled_dim(img.width as int, size as int, t.1.max_dim as int)
            &&& t.1.new_h == spec_scaled_dim(img.height as int, size as int, t.1.max_dim as int)
            &&& t.0@.len() == 3 * size * size
            &&& t.0@ == spec_planar(spec_canvas(resized_of(img.data@, img.width as int,
                img.height as int, t.1.new_w as int, t.1.new_h as int), t.1.new_w as int,
                t.1.new_h as int, t.1.offset_x as int, t.1.offset_y as int, size as int),
                (size * size) as int)
        },
{
    let params = match letterbox_geometry(img.width, img.height, size) {
        Ok(p) => p,
        Err(e) => {
            return Err(e);
        },
    };
    let resized = resize_triangle(img, params.new_w, params.new_h);
    let canvas = letterbox_canvas(&resized, &params);
    let tensor = planar_reversed_tensor(&canvas);
    proof {
        assert(3 * canvas.width * canvas.height == 3 * (size * size)) by (nonlinear_arith)
            requires
                canvas.width == size,
                canvas.height == size,
        ;
    }
    Ok((tensor, params))
}

/// The recognition input: exact resize to `size` by `size` — no
/// letterboxing — and the same planar, channel-reversed layout.
pub fn recog_input_tensor(img: &ImageBuf, size: usize) -> (r: Result<Vec<u8>, VisionError>)
    requires
        img.wf(),
        0 < size <= 4096,
    ensures
        r is Ok <==> 0 < img.width && 0 < img.height,
        r is Err ==> r == Result::<Vec<u8>, VisionError>::Err(VisionError::InputError),
        r matches Ok(t) ==> {
            &&& t@.len() == 3 * size * size
            &&& t@ == spec_planar(resized_of(img.data@, img.width as int, img.height as int,
                size as int, size as int), (size * size) as int)
        },
{
    if img.width == 0 || img.height == 0 {
        return Err(VisionError::InputError);
    }
    let resized = resize_triangle(img, size, size);
    let tensor = planar_reversed_tensor(&resized);
    proof {
        assert(3 * resized.width * resized.height == 3 * (size * size)) by (nonlinear_arith)
            requires
                resized.width == size,
                resized.height == size,
        ;
    }
    Ok(tensor)
}

} // verus!
