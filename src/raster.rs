use vstd::prelude::*;

use crate::pixel::{clamp_channel, packed, pixel_of_scaled, MAX_PIXEL};

verus! {

/// Slot of pixel `(x, y)` in a buffer of `w` by `h` pixels that keeps row 0 at
/// the bottom, while `y` counts rows from the top.
pub open spec fn raster_pos(x: int, y: int, w: int, h: int) -> int {
    x + (h - 1 - y) * w
}

/// `buf` holds, in bottom-up rows, the pixels that `pixels` holds in top-down
/// rows of `w` pixels each.
pub open spec fn is_raster_of(buf: Seq<u32>, pixels: Seq<u32>, w: int, h: int) -> bool {
    &&& buf.len() == w * h
    &&& forall|x: int, y: int|
        0 <= x < w && 0 <= y < h ==> buf[#[trigger] raster_pos(x, y, w, h)] == pixels[y * w + x]
}

proof fn lemma_raster_pos_bounds(x: int, y: int, w: int, h: int)
    requires
        0 <= x < w,
        0 <= y < h,
    ensures
        0 <= raster_pos(x, y, w, h) < w * h,
        0 <= y * w + x < w * h,
{
    assert(0 <= (h - 1 - y) * w <= (h - 1) * w) by (nonlinear_arith)
        requires
            0 <= y < h,
            0 < w,
    ;
    assert(0 <= y * w <= (h - 1) * w) by (nonlinear_arith)
        requires
            0 <= y < h,
            0 < w,
    ;
    assert((h - 1) * w + w == w * h) by (nonlinear_arith);
}

proof fn lemma_raster_pos_injective(x1: int, y1: int, x2: int, y2: int, w: int, h: int)
    requires
        0 <= x1 < w,
        0 <= x2 < w,
        0 <= y1 < h,
        0 <= y2 < h,
        raster_pos(x1, y1, w, h) == raster_pos(x2, y2, w, h),
    ensures
        x1 == x2,
        y1 == y2,
{
    let r1 = h - 1 - y1;
    let r2 = h - 1 - y2;
    assert(r1 == r2) by (nonlinear_arith)
        requires
            0 <= x1 < w,
            0 <= x2 < w,
            x1 + r1 * w == x2 + r2 * w,
    ;
}

/// Every slot of a `w` by `h` buffer is the slot of exactly one pixel.
proof fn lemma_raster_pos_onto(k: int, w: int, h: int)
    requires
        0 < w,
        0 <= k < w * h,
    ensures
        0 <= h - 1 - k / w < h,
        raster_pos(k % w, h - 1 - k / w, w, h) == k,
{
    vstd::arithmetic::div_mod::lemma_fundamental_div_mod(k, w);
    assert(0 <= k / w < h) by (nonlinear_arith)
        requires
            0 < w,
            0 <= k < w * h,
            k == w * (k / w) + k % w,
            0 <= k % w < w,
    ;
    assert((k / w) * w == w * (k / w)) by (nonlinear_arith);
}

/// The rendered buffer is a function of the pixels alone: every slot is written
/// from exactly one pixel, so whatever the buffer held before, two renders of the
/// same pixels leave identical buffers.
pub proof fn lemma_raster_determined(a: Seq<u32>, b: Seq<u32>, pixels: Seq<u32>, w: int, h: int)
    requires
        0 < w,
        0 < h,
        is_raster_of(a, pixels, w, h),
        is_raster_of(b, pixels, w, h),
    ensures
        a == b,
{
    assert forall|k: int| 0 <= k < a.len() implies a[k] == b[k] by {
        lemma_raster_pos_onto(k, w, h);
        let x = k % w;
        let y = h - 1 - k / w;
        assert(a[raster_pos(x, y, w, h)] == pixels[y * w + x]);
        assert(b[raster_pos(x, y, w, h)] == pixels[y * w + x]);
    }
    assert(a =~= b);
}

/// A buffer laid out from pixels that are all at most `max` holds no value
/// above `max`.
pub proof fn lemma_raster_within(buf: Seq<u32>, pixels: Seq<u32>, w: int, h: int, max: u32)
    requires
        0 < w,
        0 < h,
        is_raster_of(buf, pixels, w, h),
        forall|i: int| 0 <= i < pixels.len() ==> pixels[i] <= max,
        pixels.len() == w * h,
    ensures
        forall|k: int| 0 <= k < buf.len() ==> buf[k] <= max,
{
    assert forall|k: int| 0 <= k < buf.len() implies buf[k] <= max by {
        lemma_raster_pos_onto(k, w, h);
        let x = k % w;
        let y = h - 1 - k / w;
        lemma_raster_pos_bounds(x, y, w, h);
        assert(buf[raster_pos(x, y, w, h)] == pixels[y * w + x]);
    }
}

/// Slot of pixel `(x, y)`, `y` counted from the top, in a buffer whose row 0 is
/// at the bottom.
pub fn raster_index(x: u32, y: u32, width: u32, height: u32) -> (r: usize)
    requires
        x < width,
        y < height,
        width * height <= usize::MAX,
    ensures
        r as int == raster_pos(x as int, y as int, width as int, height as int),
        r < width * height,
{
    proof {
        lemma_raster_pos_bounds(x as int, y as int, width as int, height as int);
    }
    let row: usize = (height - 1 - y) as usize;
    proof {
        assert(row * width <= (height - 1) * width) by (nonlinear_arith)
            requires
                row <= height - 1,
        ;
        assert((height - 1) * width + width == width * height) by (nonlinear_arith);
    }
    x as usize + row * width as usize
}

/// Writes `pixels`, given in top-down rows of `width`, into `buffer` with row 0
/// at the bottom. Every slot is written once.
pub fn store_flipped(buffer: &mut Vec<u32>, width: u32, height: u32, pixels: &Vec<u32>)
    requires
        old(buffer).len() == width * height,
        pixels.len() == width * height,
    ensures
        is_raster_of(final(buffer)@, pixels@, width as int, height as int),
{
    let w = width as usize;
    let mut y: u32 = 0;
    while y < height
        invariant
            y <= height,
            w == width,
            buffer.len() == width * height,
            pixels.len() == width * height,
            forall|xx: int, yy: int|
                0 <= xx < width && 0 <= yy < y ==> buffer@[#[trigger] raster_pos(
                    xx,
                    yy,
                    width as int,
                    height as int,
                )] == pixels@[yy * width + xx],
        decreases height - y,
    {
        let mut x: u32 = 0;
        while x < width
            invariant
                x <= width,
                y < height,
                w == width,
                buffer.len() == width * height,
                pixels.len() == width * height,
                forall|xx: int, yy: int|
                    (0 <= xx < width && 0 <= yy < y) || (0 <= xx < x && yy == y)
                        ==> buffer@[#[trigger] raster_pos(
                        xx,
                        yy,
                        width as int,
                        height as int,
                    )] == pixels@[yy * width + xx],
            decreases width - x,
        {
            proof {
                lemma_raster_pos_bounds(x as int, y as int, width as int, height as int);
            }
            let k = raster_index(x, y, width, height);
            let src: usize = y as usize * w + x as usize;
            let v = pixels[src];
            let ghost before = buffer@;
            buffer.set(k, v);
            proof {
                assert forall|xx: int, yy: int|
                    (0 <= xx < width && 0 <= yy < y) || (0 <= xx <= x && yy == y)
                        implies buffer@[#[trigger] raster_pos(
                        xx,
                        yy,
                        width as int,
                        height as int,
                    )] == pixels@[yy * width + xx] by {
                    lemma_raster_pos_bounds(xx, yy, width as int, height as int);
                    if xx != x || yy != y {
                        if raster_pos(xx, yy, width as int, height as int) == k as int {
                            lemma_raster_pos_injective(
                                xx,
                                yy,
                                x as int,
                                y as int,
                                width as int,
                                height as int,
                            );
                        }
                        assert(before[raster_pos(xx, yy, width as int, height as int)]
                            == pixels@[yy * width + xx]);
                    }
                }
            }
            x = x + 1;
        }
        y = y + 1;
    }
}

/// The sample positions of pixel `(x, y)` on the grid refined `s` times in each
/// direction: sample `(xx, yy)` of the pixel stands at `xx * s + yy`.
pub open spec fn is_sample_grid(r: Seq<(u32, u32)>, x: int, y: int, s: int) -> bool {
    &&& r.len() == s * s
    &&& forall|xx: int, yy: int|
        0 <= xx < s && 0 <= yy < s ==> r[#[trigger] (xx * s + yy)] == (
            (x * s + xx) as u32,
            (y * s + yy) as u32,
        )
}

/// Positions, on the grid refined `oversampling` times, of the samples that are
/// averaged into pixel `(x, y)`, in the order in which they are summed.
pub fn sample_coords(x: u32, y: u32, oversampling: u32) -> (r: Vec<(u32, u32)>)
    requires
        (x + 1) * oversampling <= u32::MAX,
        (y + 1) * oversampling <= u32::MAX,
    ensures
        is_sample_grid(r@, x as int, y as int, oversampling as int),
{
    let s = oversampling;
    let mut r: Vec<(u32, u32)> = Vec::new();
    if s == 0 {
        return r;
    }
    proof {
        assert(x * s + s == (x + 1) * s) by (nonlinear_arith);
        assert(y * s + s == (y + 1) * s) by (nonlinear_arith);
    }
    let bx: u32 = x * s;
    let by: u32 = y * s;
    let mut xx: u32 = 0;
    while xx < s
        invariant
            0 < s,
            xx <= s,
            bx == x * s,
            by == y * s,
            bx + s <= u32::MAX,
            by + s <= u32::MAX,
            r.len() == xx * s,
            forall|i: int, j: int|
                0 <= i < xx && 0 <= j < s ==> r@[#[trigger] (i * s + j)] == (
                    (x * s + i) as u32,
                    (y * s + j) as u32,
                ),
        decreases s - xx,
    {
        let mut yy: u32 = 0;
        while yy < s
            invariant
                0 < s,
                xx < s,
                yy <= s,
                bx == x * s,
                by == y * s,
                bx + s <= u32::MAX,
                by + s <= u32::MAX,
                r.len() == xx * s + yy,
                forall|i: int, j: int|
                    (0 <= i < xx && 0 <= j < s) || (i == xx && 0 <= j < yy) ==> r@[#[trigger] (i
                        * s + j)] == ((x * s + i) as u32, (y * s + j) as u32),
            decreases s - yy,
        {
            let ghost before = r@;
            r.push((bx + xx, by + yy));
            proof {
                assert forall|i: int, j: int|
                    (0 <= i < xx && 0 <= j < s) || (i == xx && 0 <= j <= yy) implies r@[#[trigger] (
                    i * s + j)] == ((x * s + i) as u32, (y * s + j) as u32) by {
                    if i < xx {
                        assert(i * s + j < xx * s) by (nonlinear_arith)
                            requires
                                0 <= i < xx,
                                0 <= j < s,
                        ;
                    }
                }
            }
            yy = yy + 1;
        }
        proof {
            assert((xx + 1) * s == xx * s + s) by (nonlinear_arith);
        }
        xx = xx + 1;
    }
    proof {
        assert(s * s == xx * s);
    }
    r
}

/// The pixels of one picture, gathered in top-down rows as they are shaded.
/// Each pixel comes from `pixel_of_scaled`, so none exceeds `MAX_PIXEL`.
pub struct Frame {
    pub width: u32,
    pub height: u32,
    pub pixels: Vec<u32>,
}

impl Frame {
    /// At most `width * height` pixels, none above `MAX_PIXEL`.
    pub open spec fn wf(&self) -> bool {
        &&& self.pixels.len() <= self.width * self.height
        &&& forall|i: int| 0 <= i < self.pixels.len() ==> #[trigger] self.pixels@[i] <= MAX_PIXEL
    }

    /// An empty frame of `width` by `height` pixels.
    pub fn new(width: u32, height: u32) -> (r: Frame)
        ensures
            r.wf(),
            r.width == width,
            r.height == height,
            r.pixels@ == Seq::<u32>::empty(),
    {
        Frame { width, height, pixels: Vec::new() }
    }

    /// Whether every pixel of the frame has been given.
    pub fn is_full(&self) -> (r: bool)
        requires
            self.wf(),
        ensures
            r == (self.pixels.len() == self.width * self.height),
    {
        let w = self.width as u64;
        let h = self.height as u64;
        assert(w * h <= u64::MAX) by (nonlinear_arith)
            requires
                w <= u32::MAX,
                h <= u32::MAX,
        ;
        self.pixels.len() as u64 == w * h
    }

    /// Appends the pixel of three channels, each already scaled to `0..=255`
    /// and floored.
    pub fn push_scaled(&mut self, r: i64, g: i64, b: i64)
        requires
            old(self).wf(),
            old(self).pixels.len() < old(self).width * old(self).height,
        ensures
            final(self).wf(),
            final(self).width == old(self).width,
            final(self).height == old(self).height,
            final(self).pixels@ == old(self).pixels@.push(
                packed(clamp_channel(r as int), clamp_channel(g as int), clamp_channel(b as int))
                    as u32,
            ),
    {
        let p = pixel_of_scaled(r, g, b);
        self.pixels.push(p);
    }

    /// Writes the full frame into `buffer`, row 0 at the bottom. Every slot is
    /// written, and no slot then holds more than `MAX_PIXEL`.
    pub fn store(&self, buffer: &mut Vec<u32>)
        requires
            self.wf(),
            self.pixels.len() == self.width * self.height,
            old(buffer).len() == self.width * self.height,
        ensures
            is_raster_of(final(buffer)@, self.pixels@, self.width as int, self.height as int),
            forall|k: int| 0 <= k < final(buffer).len() ==> #[trigger] final(buffer)@[k] <= MAX_PIXEL,
    {
        store_flipped(buffer, self.width, self.height, &self.pixels);
        proof {
            if self.width > 0 && self.height > 0 {
                lemma_raster_within(
                    buffer@,
                    self.pixels@,
                    self.width as int,
                    self.height as int,
                    MAX_PIXEL,
                );
            } else {
                assert(self.width * self.height == 0) by (nonlinear_arith)
                    requires
                        self.width == 0 || self.height == 0,
                ;
            }
        }
    }
}

} // verus!
