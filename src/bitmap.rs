use vstd::prelude::*;
use vstd::arithmetic::div_mod::lemma_fundamental_div_mod_converse;

verus! {

/// The packed `0x00RRGGBB` colour of a pixel; alpha is dropped.
pub open spec fn pack_rgb(r: u8, g: u8, b: u8) -> u32 {
    (r as int * 65536 + g as int * 256 + b as int) as u32
}

/// Whether two bitmaps hold the same size and colours.
pub open spec fn same_bitmap(a: Bitmap, b: Bitmap) -> bool {
    a.width == b.width && a.height == b.height && a.pixels@ == b.pixels@
}

/// Where a cut that begins at `start` begins inside a length `size`.
pub open spec fn crop_start(start: u32, size: u32) -> int {
    if start < size { start as int } else { size as int }
}

/// How long a cut of length `len` from `start` is inside a length `size`.
pub open spec fn crop_len(start: u32, len: u32, size: u32) -> int {
    if len < size - crop_start(start, size) { len as int } else { size - crop_start(start, size) }
}

/// Whether `r` is the part of `img` that starts at column `x`, row `y` and
/// is `width` by `height`, cut back to what lies inside `img`.
pub open spec fn is_crop(img: Bitmap, x: u32, y: u32, width: u32, height: u32, r: Bitmap) -> bool {
    &&& r.wf()
    &&& r.width == crop_len(x, width, img.width)
    &&& r.height == crop_len(y, height, img.height)
    &&& forall|k: int| 0 <= k < r.pixels@.len() ==> #[trigger] r.pixels@[k] == img.pixel(
        crop_start(x, img.width) + k % (r.width as int),
        crop_start(y, img.height) + k / (r.width as int))
}

/// A decoded image: `width * height` packed colours, row by row.
pub struct Bitmap {
    pub width: u32,
    pub height: u32,
    pub pixels: Vec<u32>,
}

impl Bitmap {
    /// The pixel vector holds exactly one colour per pixel.
    pub open spec fn wf(&self) -> bool {
        self.pixels@.len() == self.width as int * self.height as int
    }

    /// The colour at column `sx` and row `sy`.
    pub open spec fn pixel(&self, sx: int, sy: int) -> u32 {
        self.pixels@[sy * self.width + sx]
    }

    /// A copy of this bitmap.
    pub fn copy(&self) -> (r: Bitmap)
        ensures
            same_bitmap(r, *self),
    {
        Bitmap { width: self.width, height: self.height, pixels: self.pixels.clone() }
    }

    /// The part of this bitmap that starts at column `x`, row `y` and is
    /// `width` by `height`, cut back to what lies inside the bitmap.
    pub fn crop(&self, x: u32, y: u32, width: u32, height: u32) -> (r: Bitmap)
        requires
            self.wf(),
        ensures
            is_crop(*self, x, y, width, height, r),
    {
        let x0: u32 = if x < self.width { x } else { self.width };
        let y0: u32 = if y < self.height { y } else { self.height };
        let w: u32 = if width < self.width - x0 { width } else { self.width - x0 };
        let h: u32 = if height < self.height - y0 { height } else { self.height - y0 };
        let iw: usize = self.width as usize;
        let plen: usize = self.pixels.len();
        let mut pixels: Vec<u32> = Vec::new();
        let mut sy: u32 = 0;
        while sy < h
            invariant
                self.wf(),
                plen == self.pixels@.len(),
                iw == self.width,
                x0 == crop_start(x, self.width),
                y0 == crop_start(y, self.height),
                w == crop_len(x, width, self.width),
                h == crop_len(y, height, self.height),
                sy <= h,
                pixels@.len() == sy as int * w as int,
                forall|k: int| 0 <= k < pixels@.len() ==> #[trigger] pixels@[k] == self.pixel(
                    x0 + k % (w as int), y0 + k / (w as int)),
            decreases h - sy,
        {
            let mut sx: u32 = 0;
            while sx < w
                invariant
                    self.wf(),
                    plen == self.pixels@.len(),
                    iw == self.width,
                    x0 == crop_start(x, self.width),
                    y0 == crop_start(y, self.height),
                    w == crop_len(x, width, self.width),
                    h == crop_len(y, height, self.height),
                    sy < h,
                    sx <= w,
                    pixels@.len() == sy as int * w as int + sx,
                    forall|k: int| 0 <= k < pixels@.len() ==> #[trigger] pixels@[k] == self.pixel(
                        x0 + k % (w as int), y0 + k / (w as int)),
                decreases w - sx,
            {
                let row: usize = (y0 + sy) as usize;
                let col: usize = (x0 + sx) as usize;
                assert(row * iw + col < plen && row * iw <= plen) by (nonlinear_arith)
                    requires row < self.height, col < iw, plen == iw * self.height;
                let c: u32 = self.pixels[row * iw + col];
                proof {
                    lemma_fundamental_div_mod_converse(pixels@.len() as int, w as int, sy as int, sx as int);
                }
                pixels.push(c);
                sx = sx + 1;
            }
            assert(sy as int * w as int + w as int == (sy + 1) as int * w as int) by (nonlinear_arith);
            sy = sy + 1;
        }
        assert(h as int * w as int == w as int * h as int) by (nonlinear_arith);
        Bitmap { width: w, height: h, pixels }
    }

    /// Builds a bitmap from packed colours; `None` unless there is exactly
    /// one colour per pixel.
    pub fn from_pixels(width: u32, height: u32, pixels: Vec<u32>) -> (r: Option<Bitmap>)
        ensures
            r.is_some() <==> pixels@.len() == width as int * height as int,
            r matches Some(b) ==> b.wf() && b.width == width && b.height == height
                && b.pixels@ == pixels@,
    {
        let n: u64 = area(width, height);
        if pixels.len() as u64 == n {
            Some(Bitmap { width, height, pixels })
        } else {
            None
        }
    }

    /// A bitmap of the given size in which every pixel has colour `color`.
    pub fn filled(width: u32, height: u32, color: u32) -> (r: Option<Bitmap>)
        ensures
            r.is_some() <==> width as int * height as int <= usize::MAX,
            r matches Some(b) ==> b.wf() && b.width == width && b.height == height
                && forall|i: int| 0 <= i < b.pixels@.len() ==> b.pixels@[i] == color,
    {
        let n: u64 = area(width, height);
        if n > usize::MAX as u64 {
            return None;
        }
        let pixels: Vec<u32> = vec![color; n as usize];
        Some(Bitmap { width, height, pixels })
    }

    /// Packs RGBA bytes (four per pixel, row by row) into a bitmap, dropping
    /// alpha. `None` when there are fewer than `4 * width * height` bytes;
    /// bytes beyond that are ignored.
    pub fn from_rgba(width: u32, height: u32, bytes: &Vec<u8>) -> (r: Option<Bitmap>)
        ensures
            r.is_some() <==> bytes@.len() >= 4 * (width as int * height as int),
            r matches Some(b) ==> b.wf() && b.width == width && b.height == height
                && forall|i: int| 0 <= i < b.pixels@.len() ==>
                    #[trigger] b.pixels@[i] == pack_rgb(bytes@[4 * i], bytes@[4 * i + 1], bytes@[4 * i + 2]),
    {
        let n: u64 = area(width, height);
        if (bytes.len() as u64) / 4 < n {
            return None;
        }
        assert(4 * n <= bytes@.len()) by (nonlinear_arith)
            requires (bytes@.len() as u64) / 4 >= n;
        let n: usize = n as usize;
        let mut pixels: Vec<u32> = Vec::new();
        let mut i: usize = 0;
        while i < n
            invariant
                n == width as int * height as int,
                4 * n <= bytes@.len() <= usize::MAX,
                i <= n,
                pixels@.len() == i,
                forall|j: int| 0 <= j < i ==>
                    #[trigger] pixels@[j] == pack_rgb(bytes@[4 * j], bytes@[4 * j + 1], bytes@[4 * j + 2]),
            decreases n - i,
        {
            let r: u32 = bytes[4 * i] as u32;
            let g: u32 = bytes[4 * i + 1] as u32;
            let b: u32 = bytes[4 * i + 2] as u32;
            pixels.push(r * 65536 + g * 256 + b);
            i = i + 1;
        }
        Some(Bitmap { width, height, pixels })
    }
}

/// The number of pixels of a `width` by `height` image.
pub fn area(width: u32, height: u32) -> (n: u64)
    ensures
        n == width as int * height as int,
{
    assert(width as int * height as int <= u32::MAX as int * u32::MAX as int) by (nonlinear_arith);
    width as u64 * height as u64
}

} // verus!
