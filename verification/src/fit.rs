//! Aspect-preserving fit of a source image into a fixed output surface.
//!
//! The scale factor is `min(out_w / src_w, out_h / src_h)`; the target
//! dimensions are the source dimensions scaled by that factor, truncated to
//! whole pixels; the offsets center the target rectangle inside the output.
//! All of this is exact rational arithmetic, cleared of denominators.

use vstd::prelude::*;
use vstd::arithmetic::div_mod::lemma_div_is_ordered;
use vstd::arithmetic::div_mod::lemma_div_multiples_vanish;
use vstd::arithmetic::div_mod::lemma_fundamental_div_mod;
use vstd::arithmetic::div_mod::lemma_multiply_divide_lt;
use vstd::arithmetic::mul::lemma_mul_is_commutative;

verus! {

/// Where a scaled image lands on the output surface: its dimensions after
/// uniform scaling, and the offsets that center it.
pub struct FitRect {
    pub target_w: u32,
    pub target_h: u32,
    pub offset_x: u32,
    pub offset_y: u32,
}

/// The width is the limiting dimension: scaling the source to the full output
/// width keeps the scaled height within the output height. This is
/// `out_w / src_w <= out_h / src_h` with the denominators cleared.
pub open spec fn width_limited(src_w: int, src_h: int, out_w: int, out_h: int) -> bool {
    out_w * src_h <= out_h * src_w
}

/// Source width scaled by `min(out_w / src_w, out_h / src_h)`, truncated.
/// A degenerate (empty) source scales to an empty target.
pub open spec fn target_width(src_w: int, src_h: int, out_w: int, out_h: int) -> int {
    if src_w <= 0 || src_h <= 0 {
        0
    } else if width_limited(src_w, src_h, out_w, out_h) {
        out_w
    } else {
        (src_w * out_h) / src_h
    }
}

/// Source height scaled by `min(out_w / src_w, out_h / src_h)`, truncated.
pub open spec fn target_height(src_w: int, src_h: int, out_w: int, out_h: int) -> int {
    if src_w <= 0 || src_h <= 0 {
        0
    } else if width_limited(src_w, src_h, out_w, out_h) {
        (src_h * out_w) / src_w
    } else {
        out_h
    }
}

/// Horizontal offset that centers the target rectangle: `(out_w - target_w) / 2`.
pub open spec fn offset_x(src_w: int, src_h: int, out_w: int, out_h: int) -> int {
    (out_w - target_width(src_w, src_h, out_w, out_h)) / 2
}

/// Vertical offset that centers the target rectangle: `(out_h - target_h) / 2`.
pub open spec fn offset_y(src_w: int, src_h: int, out_w: int, out_h: int) -> int {
    (out_h - target_height(src_w, src_h, out_w, out_h)) / 2
}

/// The target dimensions never exceed the output dimensions.
pub proof fn lemma_target_within_output(src_w: int, src_h: int, out_w: int, out_h: int)
    requires
        0 < out_w,
        0 < out_h,
        0 <= src_w,
        0 <= src_h,
    ensures
        0 <= target_width(src_w, src_h, out_w, out_h) <= out_w,
        0 <= target_height(src_w, src_h, out_w, out_h) <= out_h,
{
    if src_w > 0 && src_h > 0 {
        if width_limited(src_w, src_h, out_w, out_h) {
            assert(src_h * out_w <= out_h * src_w) by {
                lemma_mul_is_commutative(out_w, src_h);
            }
            lemma_div_is_ordered(src_h * out_w, out_h * src_w, src_w);
            assert((out_h * src_w) / src_w == out_h) by {
                lemma_mul_is_commutative(out_h, src_w);
                lemma_div_multiples_vanish(out_h, src_w);
            }
            assert(0 <= (src_h * out_w) / src_w) by {
                lemma_div_is_ordered(0, src_h * out_w, src_w);
            }
        } else {
            assert(src_w * out_h < src_h * out_w) by {
                lemma_mul_is_commutative(out_w, src_h);
                lemma_mul_is_commutative(out_h, src_w);
            }
            lemma_multiply_divide_lt(src_w * out_h, src_h, out_w);
            assert(0 <= (src_w * out_h) / src_h) by {
                lemma_div_is_ordered(0, src_w * out_h, src_h);
            }
        }
    }
}

/// Law: the scaled image fills the limiting dimension. For every non-empty
/// source, the target fits within the output and at least one target
/// dimension equals its bound; when the source aspect ratio exactly matches
/// the output's, both do.
pub proof fn lemma_limiting_dimension_filled(src_w: int, src_h: int, out_w: int, out_h: int)
    requires
        0 < src_w,
        0 < src_h,
        0 < out_w,
        0 < out_h,
    ensures
        target_width(src_w, src_h, out_w, out_h) <= out_w,
        target_height(src_w, src_h, out_w, out_h) <= out_h,
        target_width(src_w, src_h, out_w, out_h) == out_w
            || target_height(src_w, src_h, out_w, out_h) == out_h,
        out_w * src_h == out_h * src_w ==> target_width(src_w, src_h, out_w, out_h) == out_w
            && target_height(src_w, src_h, out_w, out_h) == out_h,
{
    lemma_target_within_output(src_w, src_h, out_w, out_h);
    if out_w * src_h == out_h * src_w {
        assert((src_h * out_w) / src_w == out_h) by {
            lemma_mul_is_commutative(out_w, src_h);
            lemma_mul_is_commutative(out_h, src_w);
            lemma_div_multiples_vanish(out_h, src_w);
        }
    }
}

/// Law: aspect ratio is preserved within one pixel of rounding. The exact
/// scaled extent of the non-limiting dimension lies in a window of one pixel
/// above the chosen target: cross-multiplied, `target_h <= src_h * target_w /
/// src_w < target_h + 1` when the width limits, and symmetrically otherwise.
pub proof fn lemma_aspect_preserved(src_w: int, src_h: int, out_w: int, out_h: int)
    requires
        0 < src_w,
        0 < src_h,
        0 < out_w,
        0 < out_h,
    ensures
        width_limited(src_w, src_h, out_w, out_h) ==> {
            let tw = target_width(src_w, src_h, out_w, out_h);
            let th = target_height(src_w, src_h, out_w, out_h);
            th * src_w <= src_h * tw < (th + 1) * src_w
        },
        !width_limited(src_w, src_h, out_w, out_h) ==> {
            let tw = target_width(src_w, src_h, out_w, out_h);
            let th = target_height(src_w, src_h, out_w, out_h);
            tw * src_h <= src_w * th < (tw + 1) * src_h
        },
{
    if width_limited(src_w, src_h, out_w, out_h) {
        let th = (src_h * out_w) / src_w;
        lemma_fundamental_div_mod(src_h * out_w, src_w);
        assert(src_h * out_w == src_w * th + (src_h * out_w) % src_w);
        assert(src_w * th == th * src_w) by {
            lemma_mul_is_commutative(src_w, th);
        }
        assert((th + 1) * src_w == th * src_w + src_w) by (nonlinear_arith);
    } else {
        let tw = (src_w * out_h) / src_h;
        lemma_fundamental_div_mod(src_w * out_h, src_h);
        assert(src_w * out_h == src_h * tw + (src_w * out_h) % src_h);
        assert(src_h * tw == tw * src_h) by {
            lemma_mul_is_commutative(src_h, tw);
        }
        assert((tw + 1) * src_h == tw * src_h + src_h) by (nonlinear_arith);
    }
}

/// Computes the aspect-preserving fit of a `src_w`-by-`src_h` source image
/// into an `out_w`-by-`out_h` output surface: the target dimensions under the
/// uniform scale `min(out_w / src_w, out_h / src_h)` and the centering
/// offsets `(out - target) / 2`.
pub fn compute_fit(src_w: u32, src_h: u32, out_w: u32, out_h: u32) -> (r: FitRect)
    requires
        1 <= out_w,
        1 <= out_h,
    ensures
        r.target_w == target_width(src_w as int, src_h as int, out_w as int, out_h as int),
        r.target_h == target_height(src_w as int, src_h as int, out_w as int, out_h as int),
        r.target_w <= out_w,
        r.target_h <= out_h,
        r.offset_x == offset_x(src_w as int, src_h as int, out_w as int, out_h as int),
        r.offset_y == offset_y(src_w as int, src_h as int, out_w as int, out_h as int),
        src_w > 0 && src_h > 0 ==> r.target_w == out_w || r.target_h == out_h,
{
    proof {
        lemma_target_within_output(src_w as int, src_h as int, out_w as int, out_h as int);
        // A product of two u32 values is at most (2^32 - 1)^2, so the u64
        // arithmetic below cannot overflow.
        assert((out_w as int) * (src_h as int) <= 0xffff_fffe_0000_0001
            && (out_h as int) * (src_w as int) <= 0xffff_fffe_0000_0001
            && (src_h as int) * (out_w as int) <= 0xffff_fffe_0000_0001
            && (src_w as int) * (out_h as int) <= 0xffff_fffe_0000_0001) by (nonlinear_arith);
    }
    let (tw, th): (u32, u32) = if src_w == 0 || src_h == 0 {
        (0u32, 0u32)
    } else if (out_w as u64) * (src_h as u64) <= (out_h as u64) * (src_w as u64) {
        let th64: u64 = (src_h as u64) * (out_w as u64) / (src_w as u64);
        (out_w, th64 as u32)
    } else {
        let tw64: u64 = (src_w as u64) * (out_h as u64) / (src_h as u64);
        (tw64 as u32, out_h)
    };
    FitRect {
        target_w: tw,
        target_h: th,
        offset_x: (out_w - tw) / 2,
        offset_y: (out_h - th) / 2,
    }
}

} // verus!
