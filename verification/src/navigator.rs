//! Navigation through an ordered, immutable set of image paths.
//!
//! The controller owns the path list, a cursor into it, and the pixel buffer
//! the compositor draws into. The cursor wraps at both ends; a failed load
//! tints the buffer but never moves the cursor.

use vstd::prelude::*;
use vstd::arithmetic::div_mod::lemma_mod_add_multiples_vanish;
use vstd::arithmetic::div_mod::lemma_add_mod_noop;
use vstd::arithmetic::div_mod::lemma_mod_multiples_vanish;
use vstd::arithmetic::div_mod::lemma_small_mod;
use crate::HEIGHT;
use crate::WIDTH;
use crate::compositor::BACKGROUND;
use crate::compositor::Bitmap;
use crate::compositor::FAILURE_TINT;
use crate::compositor::composed_frame;
use crate::compositor::composite;
use crate::compositor::fill_buffer;
use crate::fit::FitRect;
use crate::fit::offset_x;
use crate::fit::offset_y;
use crate::fit::target_height;
use crate::fit::target_width;

verus! {

/// The cursor after one forward step: the next image, wrapping past the
/// last; with one image or none the cursor stays put.
pub open spec fn advance_cursor(cursor: int, count: int) -> int {
    if count <= 0 {
        cursor
    } else {
        (cursor + 1) % count
    }
}

/// The cursor after one backward step: the previous image, wrapping from the
/// first to the last; with one image or none the cursor stays put.
pub open spec fn retreat_cursor(cursor: int, count: int) -> int {
    if count <= 0 {
        cursor
    } else if cursor == 0 {
        count - 1
    } else {
        cursor - 1
    }
}

/// The cursor after `k` forward steps.
pub open spec fn advance_n(cursor: int, count: int, k: nat) -> int
    decreases k,
{
    if k == 0 {
        cursor
    } else {
        advance_cursor(advance_n(cursor, count, (k - 1) as nat), count)
    }
}

/// The cursor after `k` backward steps.
pub open spec fn retreat_n(cursor: int, count: int, k: nat) -> int
    decreases k,
{
    if k == 0 {
        cursor
    } else {
        retreat_cursor(retreat_n(cursor, count, (k - 1) as nat), count)
    }
}

proof fn lemma_advance_n_mod(cursor: int, count: int, k: nat)
    requires
        0 <= cursor < count,
    ensures
        advance_n(cursor, count, k) == (cursor + k) % count,
    decreases k,
{
    if k == 0 {
        lemma_small_mod(cursor as nat, count as nat);
    } else {
        lemma_advance_n_mod(cursor, count, (k - 1) as nat);
        let prev = (cursor + k - 1) % count;
        lemma_add_mod_noop(cursor + k - 1, 1, count);
        if count == 1 {
            lemma_small_mod(0, 1);
        } else {
            lemma_small_mod(1, count as nat);
        }
        assert(advance_cursor(prev, count) == (cursor + k) % count);
    }
}

proof fn lemma_retreat_n_mod(cursor: int, count: int, k: nat)
    requires
        0 <= cursor < count,
    ensures
        retreat_n(cursor, count, k) == (cursor + k * (count - 1)) % count,
    decreases k,
{
    if k == 0 {
        lemma_small_mod(cursor as nat, count as nat);
    } else {
        lemma_retreat_n_mod(cursor, count, (k - 1) as nat);
        let a = cursor + (k - 1) * (count - 1);
        let prev = a % count;
        assert(cursor + ((k - 1) as int) * (count - 1) + (count - 1) == cursor + (k as int) * (count
            - 1)) by (nonlinear_arith)
            requires
                k >= 1,
        ;
        if prev == 0 {
            lemma_add_mod_noop(a, count - 1, count);
            lemma_small_mod(0, count as nat);
            lemma_small_mod((count - 1) as nat, count as nat);
        } else {
            lemma_add_mod_noop(a, count - 1, count);
            lemma_small_mod((count - 1) as nat, count as nat);
            lemma_mod_add_multiples_vanish(prev - 1, count);
            lemma_small_mod((prev - 1) as nat, count as nat);
            assert(retreat_cursor(prev, count) == prev - 1);
            assert((prev + (count - 1)) % count == prev - 1);
        }
    }
}

/// Law: with a set of `count` images, `count` forward steps bring the cursor
/// back to where it started.
pub proof fn lemma_advance_wraps(cursor: int, count: int)
    requires
        0 <= cursor < count,
    ensures
        advance_n(cursor, count, count as nat) == cursor,
{
    lemma_advance_n_mod(cursor, count, count as nat);
    lemma_mod_add_multiples_vanish(cursor, count);
    lemma_small_mod(cursor as nat, count as nat);
}

/// Law: with a set of `count` images, `count` backward steps bring the
/// cursor back to where it started.
pub proof fn lemma_retreat_wraps(cursor: int, count: int)
    requires
        0 <= cursor < count,
    ensures
        retreat_n(cursor, count, count as nat) == cursor,
{
    lemma_retreat_n_mod(cursor, count, count as nat);
    assert(cursor + ((count as nat) as int) * (count - 1) == count * (count - 1) + cursor)
        by (nonlinear_arith)
        requires
            count >= 1,
    ;
    lemma_mod_multiples_vanish(count - 1, cursor, count);
    lemma_small_mod(cursor as nat, count as nat);
}

/// Owns the image set, the cursor, and the pixel buffer the current frame is
/// rendered into.
pub struct Navigator {
    paths: Vec<String>,
    cursor: usize,
    buffer: Vec<u32>,
}

impl Navigator {
    /// The image set, in order.
    pub closed spec fn paths_view(&self) -> Seq<String> {
        self.paths@
    }

    /// Number of images in the set.
    pub open spec fn count(&self) -> int {
        self.paths_view().len() as int
    }

    /// The current cursor position.
    pub closed spec fn cursor_spec(&self) -> int {
        self.cursor as int
    }

    /// The pixel buffer holding the current frame.
    pub closed spec fn frame(&self) -> Seq<u32> {
        self.buffer@
    }

    /// The navigator is well-formed: the cursor points into the image set
    /// and the buffer holds exactly one output surface of pixels.
    pub open spec fn wf(&self) -> bool {
        0 <= self.cursor_spec() < self.count() && self.frame().len() == WIDTH * HEIGHT
    }

    /// Builds a navigator over a non-empty image set, with the cursor on the
    /// first image and the buffer cleared to the background.
    pub fn new(paths: Vec<String>) -> (nav: Navigator)
        requires
            paths@.len() >= 1,
        ensures
            nav.wf(),
            nav.paths_view() == paths@,
            nav.cursor_spec() == 0,
            forall|i: int| 0 <= i < nav.frame().len() ==> nav.frame()[i] == BACKGROUND,
    {
        let mut buffer: Vec<u32> = Vec::new();
        let total: usize = WIDTH * HEIGHT;
        while buffer.len() < total
            invariant
                buffer@.len() <= total,
                total == WIDTH * HEIGHT,
                forall|i: int| 0 <= i < buffer@.len() ==> buffer@[i] == BACKGROUND,
            decreases total - buffer@.len(),
        {
            buffer.push(BACKGROUND);
        }
        Navigator { paths, cursor: 0, buffer }
    }

    /// Moves the cursor one image forward, wrapping past the last; a no-op
    /// when the set has a single image.
    pub fn advance(&mut self)
        requires
            old(self).wf(),
        ensures
            final(self).wf(),
            final(self).cursor_spec() == advance_cursor(old(self).cursor_spec(), old(self).count()),
            final(self).paths_view() == old(self).paths_view(),
            final(self).frame() == old(self).frame(),
    {
        let n: usize = self.paths.len();
        self.cursor = (self.cursor + 1) % n;
    }

    /// Moves the cursor one image backward, wrapping from the first to the
    /// last; a no-op when the set has a single image.
    pub fn retreat(&mut self)
        requires
            old(self).wf(),
        ensures
            final(self).wf(),
            final(self).cursor_spec() == retreat_cursor(old(self).cursor_spec(), old(self).count()),
            final(self).paths_view() == old(self).paths_view(),
            final(self).frame() == old(self).frame(),
    {
        if self.cursor == 0 {
            self.cursor = self.paths.len() - 1;
        } else {
            self.cursor = self.cursor - 1;
        }
    }

    /// Applies one round of navigation input: a forward step on a right
    /// press, then a backward step on a left press, each only when the set
    /// has more than one image. Returns whether the current image must be
    /// reloaded.
    pub fn step(&mut self, right: bool, left: bool) -> (changed: bool)
        requires
            old(self).wf(),
        ensures
            final(self).wf(),
            changed == ((right || left) && old(self).count() > 1),
            final(self).cursor_spec() == {
                let c = if right && old(self).count() > 1 {
                    advance_cursor(old(self).cursor_spec(), old(self).count())
                } else {
                    old(self).cursor_spec()
                };
                if left && old(self).count() > 1 {
                    retreat_cursor(c, old(self).count())
                } else {
                    c
                }
            },
            final(self).paths_view() == old(self).paths_view(),
            final(self).frame() == old(self).frame(),
    {
        let mut changed: bool = false;
        if right && self.paths.len() > 1 {
            self.advance();
            changed = true;
        }
        if left && self.paths.len() > 1 {
            self.retreat();
            changed = true;
        }
        changed
    }

    /// The path under the cursor.
    pub fn current_path(&self) -> (p: &String)
        requires
            self.wf(),
        ensures
            *p == self.paths_view()[self.cursor_spec()],
    {
        &self.paths[self.cursor]
    }

    /// The cursor position.
    pub fn current_index(&self) -> (i: usize)
        ensures
            i == self.cursor_spec(),
    {
        self.cursor
    }

    /// Number of images in the set.
    pub fn image_count(&self) -> (n: usize)
        ensures
            n == self.count(),
    {
        self.paths.len()
    }

    /// The pixels of the current frame.
    pub fn frame_pixels(&self) -> (b: &Vec<u32>)
        ensures
            b@ == self.frame(),
    {
        &self.buffer
    }

    /// Records the outcome of loading the image under the cursor: renders a
    /// decoded bitmap into the frame, or tints the whole frame to the
    /// failure color when decoding failed. Either way the cursor and the
    /// image set are untouched, and navigation stays usable.
    ///
    /// The two product bounds are a machine limit: the resampler's working
    /// buffers, proportional to these products, must fit in `usize`.
    pub fn apply_load(&mut self, decoded: Option<&Bitmap>) -> (shown: Option<FitRect>)
        requires
            old(self).wf(),
            decoded matches Some(img) ==> img.wf() && 4 * img@.width * (HEIGHT as int)
                <= usize::MAX as int && 3 * (WIDTH as int) * img@.height <= usize::MAX as int,
        ensures
            final(self).wf(),
            final(self).cursor_spec() == old(self).cursor_spec(),
            final(self).paths_view() == old(self).paths_view(),
            shown is Some <==> decoded is Some,
            decoded matches Some(img) ==> final(self).frame() == composed_frame(
                img@.bytes,
                img@.width,
                img@.height,
                WIDTH as int,
                HEIGHT as int,
            ),
            decoded matches Some(img) ==> (shown matches Some(r) && {
                &&& r.target_w == target_width(img@.width, img@.height, WIDTH as int, HEIGHT as int)
                &&& r.target_h == target_height(
                    img@.width,
                    img@.height,
                    WIDTH as int,
                    HEIGHT as int,
                )
                &&& r.offset_x == offset_x(img@.width, img@.height, WIDTH as int, HEIGHT as int)
                &&& r.offset_y == offset_y(img@.width, img@.height, WIDTH as int, HEIGHT as int)
            }),
            decoded is None ==> forall|i: int|
                0 <= i < final(self).frame().len() ==> final(self).frame()[i] == FAILURE_TINT,
    {
        match decoded {
            Some(img) => {
                let r = composite(img, WIDTH as u32, HEIGHT as u32, &mut self.buffer);
                Some(r)
            },
            None => {
                fill_buffer(&mut self.buffer, FAILURE_TINT);
                None
            },
        }
    }
}

} // verus!
