//! Thumbnail size calculation and raster resizing.
//!
//! The size calculation is pure integer arithmetic: the scale factor
//! `min(max_w/src_w, max_h/src_h)` is applied exactly, with rounding
//! to the nearest integer (half away from zero) and a floor of one
//! pixel.  The resampling itself is done by the `fast_image_resize`
//! crate behind a trusted wrapper.

use vstd::prelude::*;
use vstd::arithmetic::div_mod::{
    lemma_div_denominator, lemma_div_is_ordered, lemma_div_multiples_vanish,
    lemma_div_pos_is_pos, lemma_fundamental_div_mod, lemma_mod_bound,
};
use vstd::arithmetic::mul::lemma_mul_upper_bound;
use vstd::math::abs;
use fast_image_resize as fir;
use crate::errors::CbxError;

verus! {

/// The convolution kernel used for resampling.
#[derive(Debug, Clone, Copy, PartialEq, Eq, Structural)]
pub enum ResizeFilter {
    /// Bilinear kernel: fastest, good quality; the default.
    Triangle,
    /// Lanczos-3 kernel: slower, highest quality.
    Lanczos3,
}

/// `a / b` rounded to the nearest integer, halves rounded up.
pub open spec fn round_div(a: int, b: int) -> int {
    (2 * a + b) / (2 * b)
}

/// The thumbnail dimensions for a source of `sw x sh` fitted into a
/// `mw x mh` box: unchanged when the source already fits (never
/// upscale), `(0, 0)` for a zero-area source, and otherwise the source
/// scaled by the smaller of the two axis ratios, each result rounded
/// and floored to one pixel.
pub open spec fn spec_thumbnail_size(sw: int, sh: int, mw: int, mh: int) -> (int, int) {
    if sw <= 0 || sh <= 0 {
        (0, 0)
    } else if sw <= mw && sh <= mh {
        (sw, sh)
    } else if mw * sh <= mh * sw {
        let h = round_div(sh * mw, sw);
        (if mw < 1 { 1 } else { mw }, if h < 1 { 1 } else { h })
    } else {
        let w = round_div(sw * mh, sh);
        (if w < 1 { 1 } else { w }, if mh < 1 { 1 } else { mh })
    }
}

proof fn lemma_round_div_le(a: int, b: int, m: int)
    requires
        b > 0,
        m >= 0,
        a <= m * b,
        a >= 0,
    ensures
        0 <= round_div(a, b) <= m,
{
    lemma_div_pos_is_pos(2 * a + b, 2 * b);
    assert(2 * a + b <= b * (2 * m + 1)) by (nonlinear_arith)
        requires
            a <= m * b,
    ;
    lemma_div_is_ordered(2 * a + b, b * (2 * m + 1), 2 * b);
    lemma_div_denominator(b * (2 * m + 1), b, 2);
    lemma_div_multiples_vanish(2 * m + 1, b);
    assert(b * 2 == 2 * b);
    assert((b * (2 * m + 1)) / (2 * b) == m);
}

/// Calculates thumbnail dimensions that preserve the aspect ratio of
/// the source and fit within `max_width x max_height`, never
/// upscaling.  A zero-area source yields `(0, 0)`, which callers must
/// treat as a failure.
pub fn calculate_thumbnail_size(src_width: u32, src_height: u32, max_width: u32, max_height: u32)
    -> (r: (u32, u32))
    ensures
        (r.0 as int, r.1 as int) == spec_thumbnail_size(
            src_width as int,
            src_height as int,
            max_width as int,
            max_height as int,
        ),
        src_width == 0 || src_height == 0 ==> r == (0u32, 0u32),
        0 < src_width <= max_width && 0 < src_height <= max_height ==> r == (
            src_width,
            src_height,
        ),
        src_width > 0 && src_height > 0 ==> r.0 >= 1 && r.1 >= 1,
{
    if src_width == 0 || src_height == 0 {
        return (0, 0);
    }
    if src_width <= max_width && src_height <= max_height {
        return (src_width, src_height);
    }
    let sw = src_width as u128;
    let sh = src_height as u128;
    let mw = max_width as u128;
    let mh = max_height as u128;
    proof {
        lemma_mul_upper_bound(mw as int, 0xFFFF_FFFF, sh as int, 0xFFFF_FFFF);
        lemma_mul_upper_bound(mh as int, 0xFFFF_FFFF, sw as int, 0xFFFF_FFFF);
        lemma_mul_upper_bound(sh as int, 0xFFFF_FFFF, mw as int, 0xFFFF_FFFF);
        lemma_mul_upper_bound(sw as int, 0xFFFF_FFFF, mh as int, 0xFFFF_FFFF);
    }
    if mw * sh <= mh * sw {
        let prod: u128 = sh * mw;
        let num: u128 = 2 * prod + sw;
        let den: u128 = 2 * sw;
        let h128: u128 = num / den;
        proof {
            lemma_round_div_le(sh as int * mw as int, sw as int, mh as int);
        }
        let h = h128 as u32;
        let w = if max_width < 1 {
            1
        } else {
            max_width
        };
        let h = if h < 1 {
            1
        } else {
            h
        };
        (w, h)
    } else {
        let prod: u128 = sw * mh;
        let num: u128 = 2 * prod + sh;
        let den: u128 = 2 * sh;
        let w128: u128 = num / den;
        proof {
            lemma_round_div_le(sw as int * mh as int, sh as int, mw as int);
        }
        let w = w128 as u32;
        let w = if w < 1 {
            1
        } else {
            w
        };
        let h = if max_height < 1 {
            1
        } else {
            max_height
        };
        (w, h)
    }
}

/// For a scaled-down result, the rounded dimension lies within half a
/// source unit of the exact aspect-preserving value: on the
/// width-constrained branch `|h*sw - sh*mw| <= sw/2`, and on the
/// height-constrained branch `|w*sh - sw*mh| <= sh/2`, unless the
/// one-pixel floor was applied.  The ratio of the result therefore
/// differs from the source ratio by less than one part in a hundred
/// whenever the result is not extremely thin.
pub proof fn lemma_aspect_ratio_bound(sw: int, sh: int, mw: int, mh: int)
    requires
        sw > 0,
        sh > 0,
        !(sw <= mw && sh <= mh),
    ensures
        ({
            let (w, h) = spec_thumbnail_size(sw, sh, mw, mh);
            &&& (mw * sh <= mh * sw ==> w == if mw < 1 { 1int } else { mw } && (h == 1 || 2 * abs(
                h * sw - sh * mw,
            ) <= sw))
            &&& (mw * sh > mh * sw ==> h == if mh < 1 { 1int } else { mh } && (w == 1 || 2 * abs(
                w * sh - sw * mh,
            ) <= sh))
        }),
{
    if mw * sh <= mh * sw {
        let a = sh * mw;
        let h = round_div(a, sw);
        lemma_fundamental_div_mod(2 * a + sw, 2 * sw);
        lemma_mod_bound(2 * a + sw, 2 * sw);
        let rr = (2 * a + sw) % (2 * sw);
        if h >= 1 {
            assert(-sw <= 2 * (h * sw - a) && 2 * (h * sw - a) <= sw) by (nonlinear_arith)
                requires
                    2 * a + sw == 2 * sw * h + rr,
                    0 <= rr < 2 * sw,
            ;
            assert(2 * abs(h * sw - a) <= sw);
        }
    } else {
        let a = sw * mh;
        let w = round_div(a, sh);
        lemma_fundamental_div_mod(2 * a + sh, 2 * sh);
        lemma_mod_bound(2 * a + sh, 2 * sh);
        let rr = (2 * a + sh) % (2 * sh);
        if w >= 1 {
            assert(-sh <= 2 * (w * sh - a) && 2 * (w * sh - a) <= sh) by (nonlinear_arith)
                requires
                    2 * a + sh == 2 * sh * w + rr,
                    0 <= rr < 2 * sh,
            ;
            assert(2 * abs(w * sh - a) <= sh);
        }
    }
}

/// Relies on `fast_image_resize`: `Image::new` allocates a
/// `tw * th * 4` byte buffer, `Resizer::resize` fills it by
/// convolution without changing its size, and `into_vec` hands that
/// buffer back.
#[verifier::external_body]
fn resample_rgba(src: &Vec<u8>, sw: u32, sh: u32, tw: u32, th: u32, lanczos: bool) -> (r: Result<
    Vec<u8>,
    String,
>)
    requires
        src@.len() == 4 * (sw as int) * (sh as int),
        sw > 0,
        sh > 0,
        tw > 0,
        th > 0,
    ensures
        r matches Ok(v) ==> v@.len() == 4 * (tw as int) * (th as int),
{
    let ft = if lanczos { fir::FilterType::Lanczos3 } else { fir::FilterType::Bilinear };
    let opts = fir::ResizeOptions::new().resize_alg(fir::ResizeAlg::Convolution(ft));
    let src_img = fir::images::Image::from_vec_u8(sw, sh, src.clone(), fir::PixelType::U8x4)
        .map_err(|e| e.to_string())?;
    let mut dst = fir::images::Image::new(tw, th, fir::PixelType::U8x4);
    fir::Resizer::new().resize(&src_img, &mut dst, &opts).map_err(|e| e.to_string())?;
    Ok(dst.into_vec())
}

/// Resizes an RGBA raster of `src_width x src_height` to
/// `target_width x target_height` with the selected convolution
/// kernel.  Matching dimensions return the source unchanged; a zero
/// target dimension, a zero source dimension or a buffer whose length
/// does not fit the source dimensions is rejected.  A successful
/// result always holds exactly `4 * target_width * target_height`
/// bytes.
pub fn resize_image(
    source: &Vec<u8>,
    src_width: u32,
    src_height: u32,
    target_width: u32,
    target_height: u32,
    filter: ResizeFilter,
) -> (r: Result<Vec<u8>, CbxError>)
    ensures
        r matches Err(e) ==> e matches CbxError::Image(_),
        target_width == 0 || target_height == 0 ==> r is Err,
        target_width > 0 && target_height > 0 && source@.len() != 4 * (src_width as int) * (
        src_height as int) ==> r is Err,
        target_width > 0 && target_height > 0 && source@.len() == 4 * (src_width as int) * (
        src_height as int) && (src_width == 0 || src_height == 0) && !(src_width == target_width
            && src_height == target_height) ==> r is Err,
        r matches Ok(v) ==> v@.len() == 4 * (target_width as int) * (target_height as int),
        target_width > 0 && target_height > 0 && src_width == target_width && src_height
            == target_height && source@.len() == 4 * (src_width as int) * (src_height as int)
            ==> (r matches Ok(v) && v@ == source@),
{
    if target_width == 0 || target_height == 0 {
        return Err(CbxError::Image("target dimensions must be greater than zero".to_owned()));
    }
    proof {
        lemma_mul_upper_bound(src_width as int, 0xFFFF_FFFF, src_height as int, 0xFFFF_FFFF);
    }
    let pixels: u128 = (src_width as u128) * (src_height as u128);
    let len_ok: bool = (source.len() as u128) == 4 * pixels;
    proof {
        assert(4 * ((src_width as int) * (src_height as int)) == 4 * (src_width as int) * (
        src_height as int)) by (nonlinear_arith);
    }
    if !len_ok {
        return Err(CbxError::Image("source buffer does not match its dimensions".to_owned()));
    }
    if src_width == target_width && src_height == target_height {
        return Ok(source.clone());
    }
    if src_width == 0 || src_height == 0 {
        return Err(CbxError::Image("source dimensions must be greater than zero".to_owned()));
    }
    let lanczos = match filter {
        ResizeFilter::Triangle => false,
        ResizeFilter::Lanczos3 => true,
    };
    match resample_rgba(source, src_width, src_height, target_width, target_height, lanczos) {
        Ok(v) => Ok(v),
        Err(_) => Err(CbxError::Image("resize operation failed".to_owned())),
    }
}

} // verus!
