use vstd::prelude::*;
use vstd::arithmetic::div_mod::lemma_fundamental_div_mod;
use vstd::arithmetic::div_mod::lemma_fundamental_div_mod_converse;
use crate::bitmap::Bitmap;

verus! {

/// The colour that fills the whole frame once the game is over.
pub const RED: u32 = 0xFF0000;

/// Every pixel of `buf` set to `color`.
pub open spec fn filled_with(buf: Seq<u32>, color: u32) -> Seq<u32> {
    Seq::new(buf.len(), |i: int| color)
}

/// `buf` with every pixel set to zero.
pub open spec fn cleared(buf: Seq<u32>) -> Seq<u32> {
    filled_with(buf, 0)
}

/// Whether the pixel at column `px`, row `py` lies under `img` placed with
/// its top-left corner at `(x, y)`.
pub open spec fn covers(img: Bitmap, x: int, y: int, px: int, py: int) -> bool {
    x <= px < x + img.width && y <= py < y + img.height
}

/// The pixels of a frame `width` wide after `img` is drawn at `(x, y)`:
/// each pixel under the image takes the image's colour, every other one
/// keeps its own.
pub open spec fn blitted(buf: Seq<u32>, width: int, img: Bitmap, x: int, y: int) -> Seq<u32> {
    Seq::new(
        buf.len(),
        |i: int|
            if covers(img, x, y, i % width, i / width) {
                img.pixel(i % width - x, i / width - y)
            } else {
                buf[i]
            },
    )
}

/// Whether pixel `i` of a frame `width` wide is under `img` at `(x, y)` and
/// comes, in row-major order, before column `px` of row `py`.
pub open spec fn drawn_before(img: Bitmap, x: int, y: int, width: int, py: int, px: int, i: int) -> bool {
    covers(img, x, y, i % width, i / width) && (i / width < py || (i / width == py && i % width < px))
}

/// `v` limited to the range `[0, hi]`.
fn clamp_index(v: i128, hi: usize) -> (r: usize)
    ensures
        r == (if v < 0 { 0 } else if v > hi { hi as int } else { v as int }),
{
    if v < 0 {
        0
    } else if v > hi as i128 {
        hi
    } else {
        v as usize
    }
}

/// Drawing an image keeps the frame's size and changes no pixel that the
/// image does not cover: nothing is written outside the frame.
pub proof fn lemma_blit_stays_in_frame(buf: Seq<u32>, width: int, img: Bitmap, x: int, y: int)
    ensures
        blitted(buf, width, img, x, y).len() == buf.len(),
        forall|i: int|
            0 <= i < buf.len() && !covers(img, x, y, i % width, i / width)
                ==> #[trigger] blitted(buf, width, img, x, y)[i] == buf[i],
{
}

/// Clearing a cleared frame leaves it as it was.
pub proof fn lemma_clear_idempotent(buf: Seq<u32>)
    ensures
        cleared(cleared(buf)) == cleared(buf),
{
    assert(cleared(cleared(buf)) =~= cleared(buf));
}

/// A software framebuffer: `width * height` packed colours, row by row.
pub struct Render {
    pub buffer: Vec<u32>,
    pub width: usize,
    pub height: usize,
}

impl Render {
    /// The buffer holds exactly one colour per pixel.
    pub open spec fn wf(&self) -> bool {
        self.buffer@.len() == self.width as int * self.height as int
    }

    /// A black frame of the given size.
    pub fn new(width: usize, height: usize) -> (r: Render)
        requires
            width as int * height as int <= usize::MAX,
        ensures
            r.wf(),
            r.width == width,
            r.height == height,
            r.buffer@ == cleared(r.buffer@),
    {
        let buffer: Vec<u32> = vec![0u32; width * height];
        let r = Render { buffer, width, height };
        assert(r.buffer@ =~= cleared(r.buffer@));
        r
    }

    /// Sets every pixel to `color`.
    pub fn color(&mut self, color: u32)
        ensures
            final(self).width == old(self).width,
            final(self).height == old(self).height,
            final(self).buffer@ == filled_with(old(self).buffer@, color),
    {
        let n: usize = self.buffer.len();
        let mut i: usize = 0;
        while i < n
            invariant
                n == old(self).buffer@.len(),
                self.width == old(self).width,
                self.height == old(self).height,
                self.buffer@.len() == n,
                i <= n,
                forall|j: int| 0 <= j < i ==> self.buffer@[j] == color,
            decreases n - i,
        {
            self.buffer[i] = color;
            i = i + 1;
        }
        assert(self.buffer@ =~= filled_with(old(self).buffer@, color));
    }

    /// Sets every pixel to zero.
    pub fn clear(&mut self)
        ensures
            final(self).width == old(self).width,
            final(self).height == old(self).height,
            final(self).buffer@ == cleared(old(self).buffer@),
    {
        self.color(0);
    }

    /// Draws `img` with its top-left corner at `(0, 0)`.
    pub fn image(&mut self, img: &Bitmap)
        requires
            old(self).wf(),
            img.wf(),
        ensures
            final(self).wf(),
            final(self).width == old(self).width,
            final(self).height == old(self).height,
            final(self).buffer@ == blitted(old(self).buffer@, old(self).width as int, *img, 0, 0),
    {
        self.image_at(img, 0, 0);
    }

    /// Draws `img` with its top-left corner at `(x, y)`: every pixel of the
    /// frame under the image takes the image's colour, with alpha ignored,
    /// and the image's pixels that fall outside the frame are dropped.
    pub fn image_at(&mut self, img: &Bitmap, x: i64, y: i64)
        requires
            old(self).wf(),
            img.wf(),
        ensures
            final(self).wf(),
            final(self).width == old(self).width,
            final(self).height == old(self).height,
            final(self).buffer@ == blitted(old(self).buffer@, old(self).width as int, *img, x as int, y as int),
    {
        let w: usize = self.width;
        let h: usize = self.height;
        let bw: usize = img.width as usize;
        let bh: usize = img.height as usize;
        let x0: usize = clamp_index(x as i128, w);
        let x1: usize = clamp_index(x as i128 + img.width as i128, w);
        let y0: usize = clamp_index(y as i128, h);
        let y1: usize = clamp_index(y as i128 + img.height as i128, h);
        let plen: usize = img.pixels.len();
        let blen: usize = self.buffer.len();
        let ghost old_buf = self.buffer@;
        let ghost im = *img;
        let mut py: usize = y0;
        while py < y1
            invariant
                self.width == w,
                self.height == h,
                self.buffer@.len() == old_buf.len(),
                old_buf == old(self).buffer@,
                old_buf.len() == w * h,
                im == *img,
                img.wf(),
                bw == img.width,
                bh == img.height,
                bw * bh == plen,
                old_buf.len() == blen,
                x0 == (if x < 0 { 0 } else if x > w { w as int } else { x as int }),
                x1 == (if x + bw < 0 { 0 } else if x + bw > w { w as int } else { x + bw }),
                y0 == (if y < 0 { 0 } else if y > h { h as int } else { y as int }),
                y1 == (if y + bh < 0 { 0 } else if y + bh > h { h as int } else { y + bh }),
                y0 <= py <= y1,
                forall|i: int| 0 <= i < old_buf.len() ==> self.buffer@[i] == (
                    if drawn_before(im, x as int, y as int, w as int, py as int, 0, i) {
                        im.pixel(i % (w as int) - x, i / (w as int) - y)
                    } else {
                        old_buf[i]
                    }),
            decreases y1 - py,
        {
            let mut px: usize = x0;
            while px < x1
                invariant
                    self.width == w,
                    self.height == h,
                    self.buffer@.len() == old_buf.len(),
                    old_buf.len() == w * h,
                    im == *img,
                    img.wf(),
                    bw == img.width,
                    bh == img.height,
                bw * bh == plen,
                old_buf.len() == blen,
                    x0 == (if x < 0 { 0 } else if x > w { w as int } else { x as int }),
                    x1 == (if x + bw < 0 { 0 } else if x + bw > w { w as int } else { x + bw }),
                    y0 == (if y < 0 { 0 } else if y > h { h as int } else { y as int }),
                    y1 == (if y + bh < 0 { 0 } else if y + bh > h { h as int } else { y + bh }),
                    y0 <= py < y1,
                    x0 <= px <= x1,
                    forall|i: int| 0 <= i < old_buf.len() ==> self.buffer@[i] == (
                        if drawn_before(im, x as int, y as int, w as int, py as int, px as int, i) {
                            im.pixel(i % (w as int) - x, i / (w as int) - y)
                        } else {
                            old_buf[i]
                        }),
                decreases x1 - px,
            {
                let sx: usize = (px as i128 - x as i128) as usize;
                let sy: usize = (py as i128 - y as i128) as usize;
                assert(sy * bw + sx < bw * bh && sy * bw <= bw * bh) by (nonlinear_arith)
                    requires sx < bw, sy < bh;
                let c: u32 = img.pixels[sy * bw + sx];
                assert(py * w + px < w * h && py * w <= w * h) by (nonlinear_arith)
                    requires px < w, py < h;
                let idx: usize = py * w + px;
                proof {
                    lemma_fundamental_div_mod_converse(idx as int, w as int, py as int, px as int);
                    assert(covers(im, x as int, y as int, px as int, py as int));
                    assert((w as int) * (py as int) == (py as int) * (w as int)) by (nonlinear_arith);
                    assert forall|i: int| 0 <= i < old_buf.len() implies
                        drawn_before(im, x as int, y as int, w as int, py as int, px + 1, i) == (
                            drawn_before(im, x as int, y as int, w as int, py as int, px as int, i) || i == idx) by {
                        lemma_fundamental_div_mod(i, w as int);
                    }
                }
                self.buffer[idx] = c;
                px = px + 1;
            }
            proof {
                assert forall|i: int| 0 <= i < old_buf.len() implies
                    drawn_before(im, x as int, y as int, w as int, py + 1, 0, i) ==
                        drawn_before(im, x as int, y as int, w as int, py as int, x1 as int, i) by {
                    lemma_fundamental_div_mod(i, w as int);
                    if 0 < w {
                        assert(0 <= i % (w as int) < w);
                    }
                }
            }
            py = py + 1;
        }
        proof {
            assert forall|i: int| 0 <= i < old_buf.len() implies
                drawn_before(im, x as int, y as int, w as int, y1 as int, 0, i) ==
                    covers(im, x as int, y as int, i % (w as int), i / (w as int)) by {
                lemma_fundamental_div_mod(i, w as int);
                if 0 < w {
                    assert(0 <= i % (w as int) < w);
                    assert(i / (w as int) < h) by (nonlinear_arith)
                        requires 0 <= i < w * h, i == w * (i / (w as int)) + i % (w as int), 0 <= i % (w as int) < w;
                }
            }
        }
        assert(self.buffer@ =~= blitted(old_buf, w as int, im, x as int, y as int));
    }
}

} // verus!
