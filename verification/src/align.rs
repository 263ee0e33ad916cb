//! Face alignment: similarity-transform estimation from the eye landmarks
//! and bilinear resampling of the face crop.
//!
//! The forward map is a pure rotation plus uniform scale plus translation —
//! no shear.  Writing `cos` and `sin` as ratios over the eye vector turns
//! every entry into an exact rational of the landmark coordinates, so the
//! whole estimation is integer arithmetic: no trigonometry is needed.

use vstd::prelude::*;
use crate::fixed::{
    ONE, tdiv, qmul, q_mul, spec_isqrt, isqrt_u128, lemma_tdiv_range, lemma_mul_abs_bound,
};
use crate::types::{Point, Detection};
use crate::preprocess::ImageBuf;
use crate::VisionError;

verus! {

/// Magnitude bound on eye and reference coordinates fed to the estimator.
pub const EYE_LIMIT: i64 = 34359738368;

/// Magnitude bound on the linear entries of an estimated transform.
pub const A_LIMIT: i64 = 137438953472;

/// Magnitude bound on the translation of an estimated transform.
pub const T_LIMIT: i64 = 18014398509481984;

/// An affine map `out = [a b; c d] * in + (tx, ty)`, fixed point.  Estimated
/// maps satisfy `c == -b` and `d == a`: rotation times uniform scale.
#[derive(Clone, Copy, Debug, PartialEq, Eq, Structural)]
pub struct Transform {
    pub a: i64,
    pub b: i64,
    pub c: i64,
    pub d: i64,
    pub tx: i64,
    pub ty: i64,
}

impl Transform {
    pub open spec fn wf(self) -> bool {
        -A_LIMIT <= self.a <= A_LIMIT && -A_LIMIT <= self.b <= A_LIMIT
            && -A_LIMIT <= self.c <= A_LIMIT && -A_LIMIT <= self.d <= A_LIMIT
            && -T_LIMIT <= self.tx <= T_LIMIT && -T_LIMIT <= self.ty <= T_LIMIT
    }

    /// Determinant, in fixed point.
    pub open spec fn det(self) -> int {
        qmul(self.a as int, self.d as int) - qmul(self.b as int, self.c as int)
    }
}

/// The forward map applied to a point.
pub open spec fn spec_forward(t: Transform, px: int, py: int) -> (int, int) {
    (
        qmul(t.a as int, px) + qmul(t.b as int, py) + t.tx,
        qmul(t.c as int, px) + qmul(t.d as int, py) + t.ty,
    )
}

/// Midpoint with truncation, the exec `(u + v) / 2`.
pub open spec fn spec_mid(u: int, v: int) -> int {
    tdiv(u + v, 2)
}

/// Squared length of the source eye vector.
pub open spec fn spec_eye_d2(sl: Point, sr: Point) -> int {
    let dx = sr.x - sl.x;
    let dy = sr.y - sl.y;
    dx * dx + dy * dy
}

/// Length of the target eye vector, by integer square root.
pub open spec fn spec_ref_dist(dl: Point, dr: Point) -> int {
    let dx = dr.x - dl.x;
    let dy = dr.y - dl.y;
    spec_isqrt(dx * dx + dy * dy)
}

/// `scale * cos` entry: `ref_dist * eye_dx / eye_dist^2`, in fixed point.
pub open spec fn spec_entry(dd: int, s: int, d2: int) -> int {
    tdiv(dd * s * (ONE as int), d2)
}

/// The estimated transform: `a = scale*cos`, `b = scale*sin`, `c = -b`,
/// `d = a`, and a translation taking the source eye midpoint exactly onto
/// the target eye midpoint.
pub open spec fn spec_similarity(sl: Point, sr: Point, dl: Point, dr: Point) -> Transform {
    let d2 = spec_eye_d2(sl, sr);
    let dd = spec_ref_dist(dl, dr);
    let a = spec_entry(dd, sr.x - sl.x, d2);
    let b = spec_entry(dd, sr.y - sl.y, d2);
    let smx = spec_mid(sl.x as int, sr.x as int);
    let smy = spec_mid(sl.y as int, sr.y as int);
    let dmx = spec_mid(dl.x as int, dr.x as int);
    let dmy = spec_mid(dl.y as int, dr.y as int);
    Transform {
        a: a as i64,
        b: b as i64,
        c: (-b) as i64,
        d: a as i64,
        tx: (dmx - qmul(a, smx) - qmul(b, smy)) as i64,
        ty: (dmy - qmul(-b, smx) - qmul(a, smy)) as i64,
    }
}

/// Geometric-mean step: a transform entry is bounded by the reference
/// distance whenever the eye separation is at least one pixel.
proof fn lemma_entry_bound(dd: int, s: int, d2: int)
    requires
        0 <= dd,
        s * s <= d2,
        (ONE as int) * (ONE as int) <= d2,
    ensures
        -dd <= spec_entry(dd, s, d2) <= dd,
{
    assert(-d2 <= s * (ONE as int) <= d2) by (nonlinear_arith)
        requires
            s * s <= d2,
            (ONE as int) * (ONE as int) <= d2,
            ONE == 1048576,
    ;
    assert(-dd * d2 <= dd * s * (ONE as int) <= dd * d2) by (nonlinear_arith)
        requires
            0 <= dd,
            -d2 <= s * (ONE as int) <= d2,
    ;
    lemma_tdiv_range(dd * s * (ONE as int), d2, -dd, dd);
}

/// Estimates the similarity transform that maps the source eye pair onto
/// the target eye pair: rotation from the source eye angle, scale from the
/// ratio of eye distances, translation matching the eye midpoints exactly.
/// A source eye separation below one pixel is degenerate and fails.
pub fn estimate_similarity(sl: &Point, sr: &Point, dl: &Point, dr: &Point) -> (r: Result<
    Transform,
    VisionError,
>)
    requires
        -EYE_LIMIT <= sl.x <= EYE_LIMIT,
        -EYE_LIMIT <= sl.y <= EYE_LIMIT,
        -EYE_LIMIT <= sr.x <= EYE_LIMIT,
        -EYE_LIMIT <= sr.y <= EYE_LIMIT,
        -EYE_LIMIT <= dl.x <= EYE_LIMIT,
        -EYE_LIMIT <= dl.y <= EYE_LIMIT,
        -EYE_LIMIT <= dr.x <= EYE_LIMIT,
        -EYE_LIMIT <= dr.y <= EYE_LIMIT,
    ensures
        r is Ok <==> spec_eye_d2(*sl, *sr) >= (ONE as int) * (ONE as int),
        r is Err ==> r == Result::<Transform, VisionError>::Err(VisionError::AlignmentError),
        r matches Ok(t) ==> {
            &&& t == spec_similarity(*sl, *sr, *dl, *dr)
            &&& t.wf()
            &&& t.c == -t.b
            &&& t.d == t.a
            &&& spec_forward(t, spec_mid(sl.x as int, sr.x as int),
                spec_mid(sl.y as int, sr.y as int)) == (spec_mid(dl.x as int, dr.x as int),
                spec_mid(dl.y as int, dr.y as int))
        },
{
    let sdx: i64 = sr.x - sl.x;
    let sdy: i64 = sr.y - sl.y;
    proof {
        lemma_mul_abs_bound(sdx as int, sdx as int, 2 * EYE_LIMIT as int);
        lemma_mul_abs_bound(sdy as int, sdy as int, 2 * EYE_LIMIT as int);
        assert(sdx as int * sdx as int >= 0 && sdy as int * sdy as int >= 0)
            by (nonlinear_arith);
    }
    let d2: i128 = (sdx as i128) * (sdx as i128) + (sdy as i128) * (sdy as i128);
    if d2 < (ONE as i128) * (ONE as i128) {
        return Err(VisionError::AlignmentError);
    }
    let ddx: i64 = dr.x - dl.x;
    let ddy: i64 = dr.y - dl.y;
    proof {
        lemma_mul_abs_bound(ddx as int, ddx as int, 2 * EYE_LIMIT as int);
        lemma_mul_abs_bound(ddy as int, ddy as int, 2 * EYE_LIMIT as int);
        assert(ddx as int * ddx as int >= 0 && ddy as int * ddy as int >= 0)
            by (nonlinear_arith);
    }
    let dsq: i128 = (ddx as i128) * (ddx as i128) + (ddy as i128) * (ddy as i128);
    let ddu = isqrt_u128(dsq as u128);
    proof {
        assert(ddu as int * ddu as int <= dsq as int);
        assert(ddu <= A_LIMIT) by (nonlinear_arith)
            requires
                0 <= ddu,
                ddu as int * ddu as int <= dsq as int,
                dsq <= 9444732965739290427392,
                A_LIMIT == 137438953472,
        ;
    }
    let dd: i64 = ddu as i64;
    let a: i64 = entry(dd, sdx, d2);
    let b: i64 = entry(dd, sdy, d2);
    let smx = (sl.x + sr.x) / 2;
    let smy = (sl.y + sr.y) / 2;
    let dmx = (dl.x + dr.x) / 2;
    let dmy = (dl.y + dr.y) / 2;
    proof {
        assert(-4722366482869645213696 <= a as int * smx as int <= 4722366482869645213696
            && -4722366482869645213696 <= b as int * smy as int <= 4722366482869645213696
            && -4722366482869645213696 <= (-b) as int * smx as int <= 4722366482869645213696
            && -4722366482869645213696 <= a as int * smy as int <= 4722366482869645213696)
            by (nonlinear_arith)
            requires
                -A_LIMIT <= a <= A_LIMIT,
                -A_LIMIT <= b <= A_LIMIT,
                -EYE_LIMIT <= smx <= EYE_LIMIT,
                -EYE_LIMIT <= smy <= EYE_LIMIT,
                A_LIMIT == 137438953472,
                EYE_LIMIT == 34359738368,
        ;
    }
    let qa = q_mul(a, smx);
    let qb = q_mul(b, smy);
    let qc = q_mul(-b, smx);
    let qd = q_mul(a, smy);
    let tx = dmx - qa - qb;
    let ty = dmy - qc - qd;
    Ok(Transform { a, b, c: -b, d: a, tx, ty })
}

/// Applies the forward map to a point.
pub fn forward_point(t: &Transform, p: &Point) -> (r: Point)
    requires
        t.wf(),
        -EYE_LIMIT <= p.x <= EYE_LIMIT,
        -EYE_LIMIT <= p.y <= EYE_LIMIT,
    ensures
        (r.x as int, r.y as int) == spec_forward(*t, p.x as int, p.y as int),
{
    proof {
        assert(-4722366482869645213696 <= t.a as int * p.x as int <= 4722366482869645213696
            && -4722366482869645213696 <= t.b as int * p.y as int <= 4722366482869645213696
            && -4722366482869645213696 <= t.c as int * p.x as int <= 4722366482869645213696
            && -4722366482869645213696 <= t.d as int * p.y as int <= 4722366482869645213696)
            by (nonlinear_arith)
            requires
                -A_LIMIT <= t.a <= A_LIMIT,
                -A_LIMIT <= t.b <= A_LIMIT,
                -A_LIMIT <= t.c <= A_LIMIT,
                -A_LIMIT <= t.d <= A_LIMIT,
                -EYE_LIMIT <= p.x <= EYE_LIMIT,
                -EYE_LIMIT <= p.y <= EYE_LIMIT,
                A_LIMIT == 137438953472,
                EYE_LIMIT == 34359738368,
        ;
    }
    let x = q_mul(t.a, p.x) + q_mul(t.b, p.y) + t.tx;
    let y = q_mul(t.c, p.x) + q_mul(t.d, p.y) + t.ty;
    Point { x, y }
}

/// Canonical reference eye positions for a crop of side `size`: the
/// standard positions at side 112 — left (38.3, 51.7), right (73.5, 51.5) —
/// scaled linearly by `size / 112`, carried as exact tenths.
pub open spec fn spec_ref_coord(tenths: int, size: int) -> int {
    tdiv(tenths * (ONE as int) * size, 1120)
}

fn ref_coord(tenths: i64, size: usize) -> (r: i64)
    requires
        0 <= tenths <= 1000,
        0 < size <= 4096,
    ensures
        r == spec_ref_coord(tenths as int, size as int),
        0 <= r <= EYE_LIMIT,
{
    proof {
        assert(0 <= tenths as int * (ONE as int) * (size as int) <= 4294967296000)
            by (nonlinear_arith)
            requires
                0 <= tenths <= 1000,
                0 < size <= 4096,
                ONE == 1048576,
        ;
        lemma_tdiv_range(tenths as int * (ONE as int) * (size as int), 1120, 0,
            EYE_LIMIT as int);
    }
    let n: i64 = tenths * ONE * (size as i64);
    n / 1120
}

/// Byte `n` of the aligned crop: the output pixel is pulled back through the
/// inverse transform and bilinearly sampled from the source, or left black
/// when the pullback lands outside the source.
pub open spec fn spec_sample_at(
    src: Seq<u8>,
    w: int,
    h: int,
    t: Transform,
    size: int,
    n: int,
) -> u8 {
    let c = n % 3;
    let p = n / 3;
    let ox = p % size;
    let oy = p / size;
    let tmpx = ox * (ONE as int) - t.tx;
    let tmpy = oy * (ONE as int) - t.ty;
    let dt = t.det();
    let inx = tdiv(t.d * tmpx - t.b * tmpy, dt);
    let iny = tdiv(t.a * tmpy - t.c * tmpx, dt);
    if 0 <= inx < w * (ONE as int) && 0 <= iny < h * (ONE as int) {
        let x0 = inx / (ONE as int);
        let y0 = iny / (ONE as int);
        let x1 = if x0 + 1 <= w - 1 { x0 + 1 } else { w - 1 };
        let y1 = if y0 + 1 <= h - 1 { y0 + 1 } else { h - 1 };
        let fx = inx % (ONE as int);
        let fy = iny % (ONE as int);
        let w00 = qmul((ONE as int) - fx, (ONE as int) - fy);
        let w10 = qmul(fx, (ONE as int) - fy);
        let w01 = qmul((ONE as int) - fx, fy);
        let w11 = qmul(fx, fy);
        let acc = src[3 * (y0 * w + x0) + c] * w00 + src[3 * (y0 * w + x1) + c] * w10
            + src[3 * (y1 * w + x0) + c] * w01 + src[3 * (y1 * w + x1) + c] * w11;
        tdiv(acc, ONE as int) as u8
    } else {
        0
    }
}

/// The whole aligned crop as a byte sequence.
pub open spec fn spec_resampled(src: Seq<u8>, w: int, h: int, t: Transform, size: int) -> Seq<
    u8,
> {
    Seq::new((3 * size * size) as nat, |n: int| spec_sample_at(src, w, h, t, size, n))
}

/// One source byte, by pixel coordinates and channel.
fn fetch(img: &ImageBuf, x: usize, y: usize, c: usize) -> (r: u8)
    requires
        img.wf(),
        x < img.width,
        y < img.height,
        c < 3,
    ensures
        r == img.data@[3 * (y * img.width + x) + c],
{
    proof {
        assert(y * img.width + x < img.height * img.width && 3 * (img.height * img.width)
            == 3 * img.width * img.height && y * img.width <= 67108864) by (nonlinear_arith)
            requires
                x < img.width,
                y < img.height,
                img.width <= 8192,
                img.height <= 8192,
        ;
    }
    img.data[3 * (y * img.width + x) + c]
}

/// Resamples the source through the inverse transform into a square crop of
/// side `size`, bilinear weights on the four neighbors, black outside.
fn resample_face(img: &ImageBuf, t: &Transform, dt: i64, size: usize) -> (r: ImageBuf)
    requires
        img.wf(),
        t.wf(),
        dt == t.det(),
        dt > 0,
        0 < size <= 4096,
    ensures
        r.width == size,
        r.height == size,
        r.wf(),
        r.data@ == spec_resampled(img.data@, img.width as int, img.height as int, *t,
            size as int),
{
    let w = img.width;
    let h = img.height;
    proof {
        assert(size * size <= 16777216) by (nonlinear_arith)
            requires
                size <= 4096,
        ;
    }
    let total: usize = 3 * (size * size);
    let mut data: Vec<u8> = Vec::new();
    let mut n: usize = 0;
    while n < total
        invariant
            img.wf(),
            t.wf(),
            dt == t.det(),
            dt > 0,
            0 < size <= 4096,
            w == img.width,
            h == img.height,
            total == 3 * (size * size),
            n <= total,
            data@.len() == n,
            forall|m: int| 0 <= m < n ==> data@[m] == spec_sample_at(img.data@, w as int,
                h as int, *t, size as int, m),
        decreases total - n,
    {
        let c = n % 3;
        let pix = n / 3;
        let ox = pix % size;
        let oy = pix / size;
        proof {
            vstd::arithmetic::div_mod::lemma_multiply_divide_lt(n as int, 3,
                (size * size) as int);
            vstd::arithmetic::div_mod::lemma_mod_division_less_than_divisor(pix as int,
                size as int);
            vstd::arithmetic::div_mod::lemma_multiply_divide_lt(pix as int, size as int,
                size as int);
        }
        let tmpx: i64 = (ox as i64) * ONE - t.tx;
        let tmpy: i64 = (oy as i64) * ONE - t.ty;
        proof {
            assert(-9903520314283042199192993792 <= t.d as int * tmpx as int
                <= 9903520314283042199192993792
                && -9903520314283042199192993792 <= t.b as int * tmpy as int
                <= 9903520314283042199192993792
                && -9903520314283042199192993792 <= t.a as int * tmpy as int
                <= 9903520314283042199192993792
                && -9903520314283042199192993792 <= t.c as int * tmpx as int
                <= 9903520314283042199192993792) by (nonlinear_arith)
                requires
                    -A_LIMIT <= t.a <= A_LIMIT,
                    -A_LIMIT <= t.b <= A_LIMIT,
                    -A_LIMIT <= t.c <= A_LIMIT,
                    -A_LIMIT <= t.d <= A_LIMIT,
                    -22518998108160000 <= tmpx <= 22518998108160000,
                    -22518998108160000 <= tmpy <= 22518998108160000,
                    A_LIMIT == 137438953472,
            ;
        }
        let numx: i128 = (t.d as i128) * (tmpx as i128) - (t.b as i128) * (tmpy as i128);
        let numy: i128 = (t.a as i128) * (tmpy as i128) - (t.c as i128) * (tmpx as i128);
        let inx128: i128 = numx / (dt as i128);
        let iny128: i128 = numy / (dt as i128);
        let wlim: i128 = (w as i128) * (ONE as i128);
        let hlim: i128 = (h as i128) * (ONE as i128);
        let v: u8 = if 0 <= inx128 && inx128 < wlim && 0 <= iny128 && iny128 < hlim {
            let inx: i64 = inx128 as i64;
            let iny: i64 = iny128 as i64;
            let x0u = (inx / ONE) as usize;
            let y0u = (iny / ONE) as usize;
            proof {
                vstd::arithmetic::div_mod::lemma_multiply_divide_lt(inx as int, ONE as int,
                    w as int);
                vstd::arithmetic::div_mod::lemma_multiply_divide_lt(iny as int, ONE as int,
                    h as int);
            }
            let x1u = if x0u + 1 <= w - 1 {
                x0u + 1
            } else {
                w - 1
            };
            let y1u = if y0u + 1 <= h - 1 {
                y0u + 1
            } else {
                h - 1
            };
            let fx: i64 = inx % ONE;
            let fy: i64 = iny % ONE;
            proof {
                lemma_mul_abs_bound((ONE as int) - fx, (ONE as int) - fy, ONE as int);
                lemma_mul_abs_bound(fx as int, (ONE as int) - fy, ONE as int);
                lemma_mul_abs_bound((ONE as int) - fx, fy as int, ONE as int);
                lemma_mul_abs_bound(fx as int, fy as int, ONE as int);
            }
            let w00 = q_mul(ONE - fx, ONE - fy);
            let w10 = q_mul(fx, ONE - fy);
            let w01 = q_mul(ONE - fx, fy);
            let w11 = q_mul(fx, fy);
            proof {
                assert(((ONE as int) - fx) * ((ONE as int) - fy) + fx as int * ((
                ONE as int) - fy) + ((ONE as int) - fx) * fy as int + fx as int * fy as int
                    == (ONE as int) * (ONE as int)) by (nonlinear_arith);
            }
            let p00 = fetch(img, x0u, y0u, c) as i64;
            let p10 = fetch(img, x1u, y0u, c) as i64;
            let p01 = fetch(img, x0u, y1u, c) as i64;
            let p11 = fetch(img, x1u, y1u, c) as i64;
            proof {
                assert(p00 * w00 <= 255 * w00 && p10 * w10 <= 255 * w10 && p01 * w01 <= 255
                    * w01 && p11 * w11 <= 255 * w11 && 0 <= p00 * w00 && 0 <= p10 * w10
                    && 0 <= p01 * w01 && 0 <= p11 * w11) by (nonlinear_arith)
                    requires
                        0 <= p00 <= 255,
                        0 <= p10 <= 255,
                        0 <= p01 <= 255,
                        0 <= p11 <= 255,
                        0 <= w00,
                        0 <= w10,
                        0 <= w01,
                        0 <= w11,
                ;
                assert(255 * w00 + 255 * w10 + 255 * w01 + 255 * w11 <= 255 * (ONE as int))
                    by (nonlinear_arith)
                    requires
                        w00 + w10 + w01 + w11 <= ONE,
                        0 <= w00,
                        0 <= w10,
                        0 <= w01,
                        0 <= w11,
                        ONE == 1048576,
                ;
            }
            let acc: i64 = p00 * w00 + p10 * w10 + p01 * w01 + p11 * w11;
            (acc / ONE) as u8
        } else {
            0
        };
        data.push(v);
        n = n + 1;
    }
    proof {
        assert(3 * ((size * size) as int) == 3 * (size as int) * (size as int))
            by (nonlinear_arith);
        assert(data@ =~= spec_resampled(img.data@, img.width as int, img.height as int, *t,
            size as int));
    }
    ImageBuf { width: size, height: size, data }
}

/// The transform `align_face` uses: source eyes from the detection, target
/// eyes at the canonical positions scaled to the crop size.
pub open spec fn spec_align_transform(det: Detection, size: int) -> Transform {
    spec_similarity(det.landmarks.left_eye, det.landmarks.right_eye,
        Point { x: spec_ref_coord(383, size) as i64, y: spec_ref_coord(517, size) as i64 },
        Point { x: spec_ref_coord(735, size) as i64, y: spec_ref_coord(515, size) as i64 })
}

/// Whether a detection's eyes admit alignment: coordinates in range, at
/// least one pixel of eye separation, and an invertible estimated map.
pub open spec fn spec_alignable(det: Detection, size: int) -> bool {
    let le = det.landmarks.left_eye;
    let re = det.landmarks.right_eye;
    &&& -EYE_LIMIT <= le.x <= EYE_LIMIT
    &&& -EYE_LIMIT <= le.y <= EYE_LIMIT
    &&& -EYE_LIMIT <= re.x <= EYE_LIMIT
    &&& -EYE_LIMIT <= re.y <= EYE_LIMIT
    &&& spec_eye_d2(le, re) >= (ONE as int) * (ONE as int)
    &&& spec_align_transform(det, size).det() > 0
}

/// Aligns a face to the canonical pose and crops it to `size` by `size`:
/// estimates the eye-based similarity transform and resamples the source
/// through its inverse, bilinearly, black outside the source.  Degenerate
/// eye geometry — out-of-range coordinates, separation under one pixel, or
/// a non-invertible map — is an alignment error.
pub fn align_face(img: &ImageBuf, detection: &Detection, size: usize) -> (r: Result<
    ImageBuf,
    VisionError,
>)
    requires
        img.wf(),
        0 < size <= 4096,
    ensures
        r is Ok <==> spec_alignable(*detection, size as int),
        r is Err ==> r == Result::<ImageBuf, VisionError>::Err(VisionError::AlignmentError),
        r matches Ok(out) ==> {
            &&& out.width == size
            &&& out.height == size
            &&& out.wf()
            &&& out.data@ == spec_resampled(img.data@, img.width as int, img.height as int,
                spec_align_transform(*detection, size as int), size as int)
        },
{
    let le = detection.landmarks.left_eye;
    let re = detection.landmarks.right_eye;
    if le.x < -EYE_LIMIT || le.x > EYE_LIMIT || le.y < -EYE_LIMIT || le.y > EYE_LIMIT
        || re.x < -EYE_LIMIT || re.x > EYE_LIMIT || re.y < -EYE_LIMIT || re.y > EYE_LIMIT {
        return Err(VisionError::AlignmentError);
    }
    let dl = Point { x: ref_coord(383, size), y: ref_coord(517, size) };
    let dr = Point { x: ref_coord(735, size), y: ref_coord(515, size) };
    let t = match estimate_similarity(&le, &re, &dl, &dr) {
        Ok(t) => t,
        Err(e) => {
            return Err(e);
        },
    };
    proof {
        lemma_mul_abs_bound(t.a as int, t.d as int, A_LIMIT as int);
        lemma_mul_abs_bound(t.b as int, t.c as int, A_LIMIT as int);
    }
    let dt = q_mul(t.a, t.d) - q_mul(t.b, t.c);
    if dt <= 0 {
        return Err(VisionError::AlignmentError);
    }
    Ok(resample_face(img, &t, dt, size))
}

/// One linear entry of the similarity transform, `dd * s * ONE / d2`.
fn entry(dd: i64, s: i64, d2: i128) -> (r: i64)
    requires
        0 <= dd <= A_LIMIT,
        -2 * EYE_LIMIT <= s <= 2 * EYE_LIMIT,
        s * s <= d2,
        (ONE as int) * (ONE as int) <= d2,
        d2 <= 9444732965739290427392,
    ensures
        r == spec_entry(dd as int, s as int, d2 as int),
        -dd <= r <= dd,
{
    proof {
        assert(-12980742146337069071326240823050240 <= dd as int * s as int * (ONE as int)
            <= 12980742146337069071326240823050240) by (nonlinear_arith)
            requires
                0 <= dd <= A_LIMIT,
                -2 * EYE_LIMIT <= s <= 2 * EYE_LIMIT,
                A_LIMIT == 137438953472,
                EYE_LIMIT == 34359738368,
                ONE == 1048576,
        ;
        lemma_entry_bound(dd as int, s as int, d2 as int);
    }
    let num: i128 = (dd as i128) * (s as i128) * (ONE as i128);
    (num / d2) as i64
}

} // verus!
