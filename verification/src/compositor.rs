//! Rendering of a decoded bitmap into a fixed-size pixel buffer.
//!
//! The compositor clears the buffer to the background, scales the bitmap to
//! fit the output surface (aspect ratio preserved, Lanczos resampling through
//! the `image` crate), and writes the packed RGB pixels centered. A failed
//! load is signalled by tinting the whole buffer instead.

use vstd::prelude::*;
use vstd::arithmetic::div_mod::lemma_div_multiples_vanish;
use vstd::arithmetic::div_mod::lemma_fundamental_div_mod;
use vstd::arithmetic::div_mod::lemma_fundamental_div_mod_converse;
use vstd::arithmetic::div_mod::lemma_mod_multiples_basic;
use vstd::arithmetic::mul::lemma_mul_is_commutative;
use crate::fit::FitRect;
use crate::fit::compute_fit;
use crate::fit::offset_x;
use crate::fit::offset_y;
use crate::fit::target_height;
use crate::fit::target_width;

verus! {

/// Packed RGB value the buffer is cleared to before any drawing.
pub const BACKGROUND: u32 = 0x000000;

/// Packed RGB value (dark red) the buffer is tinted to when a load fails.
pub const FAILURE_TINT: u32 = 0x330000;

/// A decoded bitmap: row-major pixel rows, three bytes (red, green, blue)
/// per pixel.
pub struct Bitmap {
    width: u32,
    height: u32,
    data: Vec<u8>,
}

/// The mathematical content of a `Bitmap`: its dimensions and raw bytes.
pub struct BitmapView {
    pub width: int,
    pub height: int,
    pub bytes: Seq<u8>,
}

impl View for Bitmap {
    type V = BitmapView;

    closed spec fn view(&self) -> BitmapView {
        BitmapView { width: self.width as int, height: self.height as int, bytes: self.data@ }
    }
}

impl Bitmap {
    /// A bitmap is well-formed when it holds exactly three bytes per pixel.
    pub open spec fn wf(&self) -> bool {
        self@.bytes.len() == 3 * self@.width * self@.height
    }

    /// Wraps raw row-major RGB bytes as a bitmap; rejects a byte count that
    /// does not match the dimensions.
    pub fn new(width: u32, height: u32, data: Vec<u8>) -> (r: Option<Bitmap>)
        ensures
            r is Some <==> data@.len() == 3 * width * height,
            r matches Some(b) ==> b.wf() && b@.width == width as int && b@.height == height as int
                && b@.bytes == data@,
    {
        proof {
            assert(3 * (width as int) * (height as int) == 3 * ((width as int) * (height
                as int))) by (nonlinear_arith);
        }
        if width == 0 || height == 0 {
            if data.len() == 0 {
                return Some(Bitmap { width, height, data });
            }
            return None;
        }
        let n: usize = data.len();
        let w: usize = width as usize;
        if n % 3 != 0 {
            proof {
                lemma_mod_multiples_basic((width as int) * (height as int), 3);
            }
            return None;
        }
        let q: usize = n / 3;
        if q % w == 0 && q / w == height as usize {
            proof {
                lemma_fundamental_div_mod(q as int, w as int);
            }
            Some(Bitmap { width, height, data })
        } else {
            proof {
                if data@.len() == 3 * ((width as int) * (height as int)) {
                    lemma_mul_is_commutative(height as int, width as int);
                    lemma_mod_multiples_basic(height as int, width as int);
                    lemma_div_multiples_vanish(height as int, width as int);
                }
            }
            None
        }
    }

    /// Width of the bitmap in pixels.
    pub fn width(&self) -> (w: u32)
        ensures
            w == self@.width,
    {
        self.width
    }

    /// Height of the bitmap in pixels.
    pub fn height(&self) -> (h: u32)
        ensures
            h == self@.height,
    {
        self.height
    }
}

/// A pixel's red, green and blue channels packed into a single integer as
/// `(r << 16) | (g << 8) | b`.
pub open spec fn pack_rgb(r: u8, g: u8, b: u8) -> u32 {
    ((r as u32) << 16) | ((g as u32) << 8) | (b as u32)
}

/// Packs a pixel's channels into one integer by bit-shifted concatenation.
pub fn pack_pixel(r: u8, g: u8, b: u8) -> (p: u32)
    ensures
        p == pack_rgb(r, g, b),
{
    ((r as u32) << 16) | ((g as u32) << 8) | (b as u32)
}

/// What `image::imageops::resize` with the Lanczos3 filter returns: the
/// resampled bytes, determined by the source bytes, the source dimensions
/// and the target dimensions alone.
pub uninterp spec fn lanczos_resized(
    bytes: Seq<u8>,
    src_w: int,
    src_h: int,
    target_w: int,
    target_h: int,
) -> Seq<u8>;

/// Relies on `image::imageops::resize` (Lanczos3 filter): the result is a
/// deterministic resampling of the source bytes, holding exactly
/// `target_w * target_h` pixels of three bytes each, and on
/// `image::ImageBuffer::from_raw` / `into_raw`, which wrap and unwrap the raw
/// byte container unchanged. The resampler allocates a `src_w`-by-`target_h`
/// intermediate of four-channel pixels for its vertical pass and a
/// `target_w`-wide three-channel buffer for its horizontal pass; the product
/// bounds below keep every buffer either pass can allocate within `usize`,
/// so the call cannot hit the crate's length-overflow panic.
#[verifier::external_body]
fn resize_lanczos(data: &Vec<u8>, src_w: u32, src_h: u32, target_w: u32, target_h: u32) -> (r: Vec<
    u8,
>)
    requires
        1 <= src_w,
        1 <= src_h,
        1 <= target_w,
        1 <= target_h,
        data@.len() == 3 * src_w * src_h,
        3 * (target_w as int) * (target_h as int) <= usize::MAX as int,
        4 * (src_w as int) * (target_h as int) <= usize::MAX as int,
        3 * (target_w as int) * (src_h as int) <= usize::MAX as int,
    ensures
        r@ == lanczos_resized(
            data@,
            src_w as int,
            src_h as int,
            target_w as int,
            target_h as int,
        ),
        r@.len() == 3 * target_w * target_h,
{
    let src = image::RgbImage::from_raw(src_w, src_h, data.clone()).unwrap();
    let out = image::imageops::resize(
        &src,
        target_w,
        target_h,
        image::imageops::FilterType::Lanczos3,
    );
    out.into_raw()
}

/// Overwrites every element of the buffer with one packed color.
pub fn fill_buffer(buffer: &mut Vec<u32>, color: u32)
    ensures
        final(buffer)@.len() == old(buffer)@.len(),
        forall|i: int| 0 <= i < final(buffer)@.len() ==> final(buffer)@[i] == color,
{
    let n: usize = buffer.len();
    let mut i: usize = 0;
    while i < n
        invariant
            i <= n,
            n == buffer@.len(),
            forall|j: int| 0 <= j < i ==> buffer@[j] == color,
        decreases n - i,
    {
        buffer[i] = color;
        i = i + 1;
    }
}

/// The packed pixel of row-major RGB `bytes` (`w` pixels per row) at column
/// `x`, row `y`.
pub open spec fn packed_pixel_at(bytes: Seq<u8>, w: int, x: int, y: int) -> u32 {
    pack_rgb(bytes[3 * (y * w + x)], bytes[3 * (y * w + x) + 1], bytes[3 * (y * w + x) + 2])
}

/// Whether buffer position `i` (row-major on an `out_w`-wide surface) lies
/// inside the centered target rectangle of a `src_w`-by-`src_h` source
/// fitted into an `out_w`-by-`out_h` output.
pub open spec fn in_target_rect(i: int, src_w: int, src_h: int, out_w: int, out_h: int) -> bool {
    let tw = target_width(src_w, src_h, out_w, out_h);
    let th = target_height(src_w, src_h, out_w, out_h);
    let ox = offset_x(src_w, src_h, out_w, out_h);
    let oy = offset_y(src_w, src_h, out_w, out_h);
    ox <= i % out_w < ox + tw && oy <= i / out_w < oy + th
}

/// The frame a successful composition produces: the resampled source pixels,
/// packed, inside the centered target rectangle, and the background
/// everywhere else.
pub open spec fn composed_frame(
    bytes: Seq<u8>,
    src_w: int,
    src_h: int,
    out_w: int,
    out_h: int,
) -> Seq<u32> {
    let tw = target_width(src_w, src_h, out_w, out_h);
    let th = target_height(src_w, src_h, out_w, out_h);
    let ox = offset_x(src_w, src_h, out_w, out_h);
    let oy = offset_y(src_w, src_h, out_w, out_h);
    Seq::new(
        (out_w * out_h) as nat,
        |i: int|
            if in_target_rect(i, src_w, src_h, out_w, out_h) {
                packed_pixel_at(
                    lanczos_resized(bytes, src_w, src_h, tw, th),
                    tw,
                    i % out_w - ox,
                    i / out_w - oy,
                )
            } else {
                BACKGROUND
            },
    )
}

/// Law: a composed frame always holds exactly one output surface of pixels,
/// whatever the source dimensions.
pub proof fn lemma_frame_dimensions(bytes: Seq<u8>, src_w: int, src_h: int, out_w: int, out_h: int)
    requires
        0 <= out_w * out_h,
    ensures
        composed_frame(bytes, src_w, src_h, out_w, out_h).len() == out_w * out_h,
{
}

/// Law: every pixel outside the centered target rectangle is left at the
/// background value.
pub proof fn lemma_outside_rect_background(
    bytes: Seq<u8>,
    src_w: int,
    src_h: int,
    out_w: int,
    out_h: int,
    i: int,
)
    requires
        0 <= i < out_w * out_h,
        !in_target_rect(i, src_w, src_h, out_w, out_h),
    ensures
        composed_frame(bytes, src_w, src_h, out_w, out_h)[i] == BACKGROUND,
{
}

/// Writes a `target_w`-by-`target_h` block of row-major RGB bytes into the
/// buffer at the given offsets, packing each pixel into one integer; every
/// position outside the block keeps its previous value. Each write is
/// guarded by a bounds check, though none can fall outside a buffer the
/// block fits into.
#[verifier::loop_isolation(false)]
pub fn blit_block(
    scaled: &Vec<u8>,
    target_w: u32,
    target_h: u32,
    off_x: u32,
    off_y: u32,
    out_w: u32,
    out_h: u32,
    buffer: &mut Vec<u32>,
)
    requires
        1 <= out_w,
        old(buffer)@.len() == out_w * out_h,
        3 * (out_w as int) * (out_h as int) <= usize::MAX as int,
        scaled@.len() == 3 * target_w * target_h,
        off_x + target_w <= out_w,
        off_y + target_h <= out_h,
    ensures
        final(buffer)@.len() == out_w * out_h,
        forall|i: int|
            0 <= i < out_w * out_h ==> final(buffer)@[i] == (if off_x <= i % (out_w as int) < off_x
                + target_w && off_y <= i / (out_w as int) < off_y + target_h {
                packed_pixel_at(
                    scaled@,
                    target_w as int,
                    i % (out_w as int) - off_x,
                    i / (out_w as int) - off_y,
                )
            } else {
                old(buffer)@[i]
            }),
{
    let tw: usize = target_w as usize;
    let th: usize = target_h as usize;
    let ox: usize = off_x as usize;
    let oy: usize = off_y as usize;
    let w: usize = out_w as usize;
    let ghost ow = out_w as int;
    let ghost oh = out_h as int;
    let mut y: usize = 0;
    while y < th
        invariant
            y <= th,
            buffer@.len() == ow * oh,
            forall|i: int|
                0 <= i < ow * oh ==> buffer@[i] == (if ox <= i % ow < ox + tw && oy <= i / ow < oy
                    + y {
                    packed_pixel_at(scaled@, tw as int, i % ow - ox, i / ow - oy)
                } else {
                    old(buffer)@[i]
                }),
        decreases th - y,
    {
        let mut x: usize = 0;
        while x < tw
            invariant
                y < th,
                x <= tw,
                buffer@.len() == ow * oh,
                forall|i: int|
                    0 <= i < ow * oh ==> buffer@[i] == (if ox <= i % ow < ox + tw && (oy <= i / ow
                        < oy + y || (i / ow == oy + y && ox <= i % ow < ox + x)) {
                        packed_pixel_at(scaled@, tw as int, i % ow - ox, i / ow - oy)
                    } else {
                        old(buffer)@[i]
                    }),
            decreases tw - x,
        {
            proof {
                assert(3 * ((y as int) * (tw as int) + (x as int)) + 2 < 3 * (tw as int) * (th
                    as int) && ((oy as int) + (y as int)) * (w as int) + (ox as int) + (x as int)
                    < ow * oh && ow * oh <= usize::MAX as int && 3 * (tw as int) * (th as int)
                    <= usize::MAX as int) by (nonlinear_arith)
                    requires
                        0 <= x < tw,
                        0 <= y < th,
                        0 <= ox,
                        0 <= oy,
                        ox + tw <= w,
                        oy + th <= oh,
                        w == ow,
                        oh > 0,
                        3 * ow * oh <= usize::MAX as int,
                ;
            }
            let base: usize = 3 * (y * tw + x);
            let p: u32 = pack_pixel(scaled[base], scaled[base + 1], scaled[base + 2]);
            let idx: usize = (oy + y) * w + (ox + x);
            proof {
                lemma_fundamental_div_mod_converse(
                    idx as int,
                    ow,
                    (oy + y) as int,
                    (ox + x) as int,
                );
            }
            if idx < buffer.len() {
                buffer[idx] = p;
            }
            proof {
                assert forall|i: int|
                    0 <= i < ow * oh && #[trigger] (i / ow) == oy + y && i % ow == ox
                        + x implies i == idx by {
                    lemma_fundamental_div_mod(i, ow);
                    lemma_mul_is_commutative(ow, (oy + y) as int);
                }
            }
            assert(buffer@[idx as int] == packed_pixel_at(scaled@, tw as int, x as int, y as int));
            x = x + 1;
        }
        y = y + 1;
    }
}

/// Renders `img` into `buffer`: clears it to the background, scales the
/// bitmap to fit the `out_w`-by-`out_h` surface with its aspect ratio
/// preserved, and writes the packed pixels centered. Returns where the
/// scaled image landed.
pub fn composite(img: &Bitmap, out_w: u32, out_h: u32, buffer: &mut Vec<u32>) -> (r: FitRect)
    requires
        img.wf(),
        1 <= out_w,
        1 <= out_h,
        old(buffer)@.len() == out_w * out_h,
        3 * (out_w as int) * (out_h as int) <= usize::MAX as int,
        4 * img@.width * (out_h as int) <= usize::MAX as int,
        3 * (out_w as int) * img@.height <= usize::MAX as int,
    ensures
        final(buffer)@ == composed_frame(
            img@.bytes,
            img@.width,
            img@.height,
            out_w as int,
            out_h as int,
        ),
        r.target_w == target_width(img@.width, img@.height, out_w as int, out_h as int),
        r.target_h == target_height(img@.width, img@.height, out_w as int, out_h as int),
        r.offset_x == offset_x(img@.width, img@.height, out_w as int, out_h as int),
        r.offset_y == offset_y(img@.width, img@.height, out_w as int, out_h as int),
{
    let ghost sw = img@.width;
    let ghost sh = img@.height;
    let ghost ow = out_w as int;
    let ghost oh = out_h as int;
    let ghost frame = composed_frame(img@.bytes, sw, sh, ow, oh);
    fill_buffer(buffer, BACKGROUND);
    let r = compute_fit(img.width, img.height, out_w, out_h);
    if r.target_w == 0 || r.target_h == 0 {
        assert(buffer@ =~= frame);
        return r;
    }
    proof {
        assert(3 * (r.target_w as int) * (r.target_h as int) <= 3 * ow * oh && 4 * sw * (r.target_h
            as int) <= 4 * sw * oh && 3 * (r.target_w as int) * sh <= 3 * ow * sh)
            by (nonlinear_arith)
            requires
                0 <= r.target_w <= ow,
                0 <= r.target_h <= oh,
                0 < ow,
                0 < oh,
                0 <= sw,
                0 <= sh,
        ;
    }
    let scaled: Vec<u8> = resize_lanczos(&img.data, img.width, img.height, r.target_w, r.target_h);
    blit_block(&scaled, r.target_w, r.target_h, r.offset_x, r.offset_y, out_w, out_h, buffer);
    assert(buffer@ =~= frame);
    r
}

} // verus!
