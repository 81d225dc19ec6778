//! Pixel-buffer transformations: alpha compositing onto an opaque
//! background and the RGBA-to-target channel reorder.  Buffers hold
//! four bytes per pixel; a trailing fragment shorter than one pixel is
//! left untouched.

use vstd::prelude::*;

verus! {

/// Length of the complete-pixel region of a buffer of `n` bytes.
pub open spec fn whole_pixels(n: int) -> int {
    n - n % 4
}

/// The channel-swapped image: channels 0 and 2 of every complete
/// 4-byte pixel exchanged, channels 1 and 3 kept.
pub open spec fn swap_rb(s: Seq<u8>) -> Seq<u8> {
    Seq::new(
        s.len(),
        |i: int|
            if i < whole_pixels(s.len() as int) {
                if i % 4 == 0 {
                    s[i + 2]
                } else if i % 4 == 2 {
                    s[i - 2]
                } else {
                    s[i]
                }
            } else {
                s[i]
            },
    )
}

/// One blended channel value: `p` weighted by `alpha`, the background
/// channel `b` by `255 - alpha`, truncated to an 8-bit integer.
pub open spec fn blend_channel(p: u8, b: u8, alpha: u8) -> int {
    (p * alpha + b * (255 - alpha)) / 255
}

/// The background channel that applies at byte offset `i` of a pixel.
pub open spec fn bg_at(bg: (u8, u8, u8, u8), k: int) -> u8 {
    if k == 0 {
        bg.0
    } else if k == 1 {
        bg.1
    } else if k == 2 {
        bg.2
    } else {
        bg.3
    }
}

/// The composited image: every complete pixel is blended onto the
/// background by its own alpha and forced fully opaque; a fully opaque
/// pixel keeps its channels.
pub open spec fn composite(s: Seq<u8>, bg: (u8, u8, u8, u8)) -> Seq<u8> {
    Seq::new(
        s.len(),
        |i: int|
            if i < whole_pixels(s.len() as int) {
                let base = i - i % 4;
                let alpha = s[base + 3];
                if i % 4 == 3 {
                    255
                } else if alpha == 255 {
                    s[i]
                } else {
                    blend_channel(s[i], bg_at(bg, i % 4), alpha) as u8
                }
            } else {
                s[i]
            },
    )
}

/// Reorders every complete 4-byte pixel of an RGBA buffer into the
/// target surface's channel order by exchanging channels 0 and 2,
/// leaving channels 1 and 3 untouched.  Pure: a new buffer of the same
/// length is returned.
pub fn rgba_to_bgra(rgba: &[u8]) -> (r: Vec<u8>)
    ensures
        r@ == swap_rb(rgba@),
{
    let n = rgba.len();
    let mut out = vstd::slice::slice_to_vec(rgba);
    let mut k: usize = 0;
    while n - k >= 4
        invariant
            n == rgba@.len(),
            out@.len() == n,
            k % 4 == 0,
            k <= n,
            forall|i: int| 0 <= i < k ==> out@[i] == swap_rb(rgba@)[i],
            forall|i: int| k <= i < n ==> out@[i] == rgba@[i],
        decreases n - k,
    {
        let lo = out[k];
        let hi = out[k + 2];
        out[k] = hi;
        out[k + 2] = lo;
        k = k + 4;
    }
    proof {
        assert(out@ =~= swap_rb(rgba@));
    }
    out
}

/// Applying the channel swap twice gives back the original buffer.
pub proof fn lemma_swap_rb_involutive(s: Seq<u8>)
    ensures
        swap_rb(swap_rb(s)) == s,
{
    assert(swap_rb(swap_rb(s)) =~= s);
}

/// Composites every pixel of the RGBA buffer onto the background
/// colour in place: each colour channel becomes
/// `channel * alpha/255 + background * (1 - alpha/255)` (truncated),
/// and the alpha channel is then forced to 255, because the target
/// surface does not honour partial transparency.  Total: no failure
/// path.
pub fn apply_background(rgba: &mut Vec<u8>, bg: (u8, u8, u8, u8))
    ensures
        final(rgba)@ == composite(old(rgba)@, bg),
{
    let n = rgba.len();
    let mut k: usize = 0;
    while n - k >= 4
        invariant
            n == rgba@.len(),
            rgba@.len() == old(rgba)@.len(),
            k % 4 == 0,
            k <= n,
            forall|i: int| 0 <= i < k ==> rgba@[i] == composite(old(rgba)@, bg)[i],
            forall|i: int| k <= i < n ==> rgba@[i] == old(rgba)@[i],
        decreases n - k,
    {
        let alpha = rgba[k + 3];
        if alpha != 255 {
            let a = alpha as u32;
            let p0 = rgba[k] as u32;
            let p1 = rgba[k + 1] as u32;
            let p2 = rgba[k + 2] as u32;
            let b0 = bg.0 as u32;
            let b1 = bg.1 as u32;
            let b2 = bg.2 as u32;
            proof {
                assert(p0 * a + b0 * (255 - a) <= 65025 && p1 * a + b1 * (255 - a) <= 65025 && p2
                    * a + b2 * (255 - a) <= 65025) by (nonlinear_arith)
                    requires
                        p0 <= 255 && p1 <= 255 && p2 <= 255 && a <= 255 && b0 <= 255 && b1 <= 255
                            && b2 <= 255,
                ;
            }
            rgba[k] = ((p0 * a + b0 * (255 - a)) / 255) as u8;
            rgba[k + 1] = ((p1 * a + b1 * (255 - a)) / 255) as u8;
            rgba[k + 2] = ((p2 * a + b2 * (255 - a)) / 255) as u8;
        }
        rgba[k + 3] = 255;
        k = k + 4;
    }
    proof {
        assert(rgba@ =~= composite(old(rgba)@, bg));
    }
}

/// A fully transparent pixel composites to the background colour with
/// full opacity, and a fully opaque pixel keeps its colour channels;
/// in both cases the stored alpha becomes 255.
pub proof fn lemma_composite_extremes(s: Seq<u8>, bg: (u8, u8, u8, u8), p: int)
    requires
        0 <= p,
        4 * p + 4 <= s.len(),
    ensures
        s[4 * p + 3] == 0 ==> composite(s, bg)[4 * p] == bg.0 && composite(s, bg)[4 * p + 1]
            == bg.1 && composite(s, bg)[4 * p + 2] == bg.2,
        s[4 * p + 3] == 255 ==> composite(s, bg)[4 * p] == s[4 * p] && composite(s, bg)[4 * p + 1]
            == s[4 * p + 1] && composite(s, bg)[4 * p + 2] == s[4 * p + 2],
        composite(s, bg)[4 * p + 3] == 255,
{
    let n = s.len() as int;
    vstd::arithmetic::div_mod::lemma_fundamental_div_mod(n, 4);
    assert(4 * p + 3 < whole_pixels(n));
    if s[4 * p + 3] == 0 {
        assert(blend_channel(s[4 * p], bg.0, 0) == bg.0);
        assert(blend_channel(s[4 * p + 1], bg.1, 0) == bg.1);
        assert(blend_channel(s[4 * p + 2], bg.2, 0) == bg.2);
    }
}

/// After compositing and channel reordering, every complete pixel's
/// alpha byte is fully opaque.
pub proof fn lemma_composite_swap_alpha(s: Seq<u8>, bg: (u8, u8, u8, u8), p: int)
    requires
        0 <= p,
        4 * p + 3 < s.len(),
    ensures
        swap_rb(composite(s, bg))[4 * p + 3] == 255,
{
    let n = s.len() as int;
    vstd::arithmetic::div_mod::lemma_fundamental_div_mod(n, 4);
    assert(4 * p + 3 < whole_pixels(n));
}

} // verus!
