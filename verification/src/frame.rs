//! RGBA frames held as plain bytes, row-major, four samples per pixel.
use vstd::prelude::*;

verus! {

/// What a frame holds: its size and its samples, row-major, four per pixel
/// (red, green, blue, alpha).
pub struct FrameView {
    pub width: u32,
    pub height: u32,
    pub data: Seq<u8>,
}

impl FrameView {
    pub open spec fn well_formed(self) -> bool {
        self.data.len() == self.width * self.height * 4
    }

    /// Sample `c` of the pixel in column `x`, row `y`.
    pub open spec fn sample(self, x: int, y: int, c: int) -> u8 {
        self.data[(y * self.width + x) * 4 + c]
    }
}

/// A frame whose every sample is zero.
pub open spec fn blank_view(width: u32, height: u32) -> FrameView {
    FrameView { width, height, data: Seq::new((width * height * 4) as nat, |i: int| 0u8) }
}

/// An RGBA image.
pub struct Frame {
    width: u32,
    height: u32,
    data: Vec<u8>,
}

impl View for Frame {
    type V = FrameView;

    closed spec fn view(&self) -> FrameView {
        if self.data@.len() == self.width * self.height * 4 {
            FrameView { width: self.width, height: self.height, data: self.data@ }
        } else {
            blank_view(self.width, self.height)
        }
    }
}

/// Every frame holds exactly four samples per pixel.
pub proof fn lemma_frame_well_formed(f: Frame)
    ensures
        f@.well_formed(),
{
}

/// Two frame views of the same size with the same sample at every pixel are
/// the same view.
pub proof fn lemma_views_equal(f: FrameView, g: FrameView)
    requires
        f.well_formed(),
        g.well_formed(),
        f.width == g.width,
        f.height == g.height,
        forall|x: int, y: int, c: int|
            0 <= x < f.width && 0 <= y < f.height && 0 <= c < 4 ==> #[trigger] f.sample(x, y, c) == g.sample(x, y, c),
    ensures
        f == g,
{
    let w = f.width as int;
    let h = f.height as int;
    assert forall|i: int| 0 <= i < f.data.len() implies f.data[i] == g.data[i] by {
        let p = i / 4;
        let c = i % 4;
        assert(p < w * h);
        assert(w > 0) by (nonlinear_arith)
            requires
                0 <= p < w * h,
                h >= 0,
        ;
        let y = p / w;
        let x = p % w;
        assert(p == y * w + x && 0 <= x < w && 0 <= y < h) by (nonlinear_arith)
            requires
                w > 0,
                0 <= p < w * h,
                y == p / w,
                x == p % w,
        ;
        assert(f.sample(x, y, c) == g.sample(x, y, c));
    }
    assert(f.data =~= g.data);
}

impl Frame {
    #[verifier::type_invariant]
    spec fn inv(self) -> bool {
        &&& self.data@.len() == self.width * self.height * 4
        &&& self.width * self.height * 4 <= usize::MAX
    }

    /// The frame's width in pixels.
    pub fn width(&self) -> (r: u32)
        ensures
            r == self@.width,
    {
        self.width
    }

    /// The frame's height in pixels.
    pub fn height(&self) -> (r: u32)
        ensures
            r == self@.height,
    {
        self.height
    }

    /// Width and height.
    pub fn dimensions(&self) -> (r: (u32, u32))
        ensures
            r == (self@.width, self@.height),
    {
        (self.width, self.height)
    }
}


/// Where a crop starting at `at` begins along an axis of `size` pixels: the
/// start is moved back onto the image when it lies past the edge.
pub open spec fn crop_start(size: u32, at: u32) -> u32 {
    if at <= size { at } else { size }
}

/// How many pixels a crop of `len` starting at `at` keeps along an axis of
/// `size` pixels: no more than remain between its start and the edge.
pub open spec fn crop_len(size: u32, at: u32, len: u32) -> u32 {
    if len <= size - crop_start(size, at) { len } else { (size - crop_start(size, at)) as u32 }
}

/// The sample at `(px, py)` of `bottom` after `top` has been laid onto it with
/// its top-left corner at `(x, y)`: pixels that `top` covers take its samples.
pub open spec fn laid_over(bottom: FrameView, top: FrameView, x: int, y: int, px: int, py: int, c: int) -> u8 {
    if 0 <= px - x < top.width && 0 <= py - y < top.height {
        top.sample(px - x, py - y, c)
    } else {
        bottom.sample(px, py, c)
    }
}

/// Whether `r` is the part of `f` inside the `width` by `height` rectangle
/// whose top-left corner is `(x, y)`, cut back to `f`'s edges.
pub open spec fn is_crop_of(r: FrameView, f: FrameView, x: u32, y: u32, width: u32, height: u32) -> bool {
    &&& r.width == crop_len(f.width, x, width)
    &&& r.height == crop_len(f.height, y, height)
    &&& forall|px: int, py: int, c: int|
        0 <= px < r.width && 0 <= py < r.height && 0 <= c < 4 ==> #[trigger] r.sample(px, py, c) == f.sample(
            crop_start(f.width, x) + px,
            crop_start(f.height, y) + py,
            c,
        )
}

/// Whether `r` is `bottom` with `top` laid onto it at `(x, y)`.
pub open spec fn is_laid_onto(r: FrameView, bottom: FrameView, top: FrameView, x: int, y: int) -> bool {
    &&& r.width == bottom.width
    &&& r.height == bottom.height
    &&& forall|px: int, py: int, c: int|
        0 <= px < bottom.width && 0 <= py < bottom.height && 0 <= c < 4 ==> #[trigger] r.sample(px, py, c)
            == laid_over(bottom, top, x, y, px, py, c)
}

/// A crop holds the frame's pixels from its corner on; it is as wide as
/// asked where that fits, else up to the frame's right edge (nothing when the
/// corner lies beyond it), and likewise in height.
pub proof fn lemma_crop_contents(r: FrameView, f: FrameView, x: u32, y: u32, width: u32, height: u32)
    requires
        is_crop_of(r, f, x, y, width, height),
    ensures
        r.width == if x >= f.width { 0 } else if x + width > f.width { f.width - x } else { width as int },
        r.height == if y >= f.height { 0 } else if y + height > f.height { f.height - y } else { height as int },
        forall|px: int, py: int, c: int|
            0 <= px < r.width && 0 <= py < r.height && 0 <= c < 4 ==> #[trigger] r.sample(px, py, c) == f.sample(
                x + px,
                y + py,
                c,
            ),
{
}

/// Laying `top` onto `bottom` at `(x, y)` gives the pixels of `bottom`, except
/// that every pixel of `bottom` with `x <= px < x + top.width` and
/// `y <= py < y + top.height` takes the pixel `(px - x, py - y)` of `top`;
/// the size stays that of `bottom`.
pub proof fn lemma_laid_onto_contents(r: FrameView, bottom: FrameView, top: FrameView, x: int, y: int)
    requires
        is_laid_onto(r, bottom, top, x, y),
    ensures
        r.width == bottom.width,
        r.height == bottom.height,
        forall|px: int, py: int, c: int|
            0 <= px < bottom.width && 0 <= py < bottom.height && 0 <= c < 4 ==> #[trigger] r.sample(px, py, c) == if x
                <= px < x + top.width && y <= py < y + top.height {
                top.sample(px - x, py - y, c)
            } else {
                bottom.sample(px, py, c)
            },
{
}

impl Frame {
    /// A frame of the given size whose samples are all zero (transparent black).
    pub fn new(width: u32, height: u32) -> (f: Frame)
        requires
            width * height * 4 <= usize::MAX,
        ensures
            f@ == blank_view(width, height),
    {
        let n: usize = (width as usize) * (height as usize) * 4;
        let mut data: Vec<u8> = Vec::with_capacity(n);
        let mut i: usize = 0;
        while i < n
            invariant
                i <= n,
                n == width * height * 4,
                data@.len() == i,
                forall|k: int| 0 <= k < i ==> data@[k] == 0,
            decreases n - i,
        {
            data.push(0);
            i = i + 1;
        }
        assert(data@ =~= blank_view(width, height).data);
        Frame { width, height, data }
    }

    /// A frame over the given samples, or `None` where their number is not
    /// four per pixel.
    pub fn from_raw(width: u32, height: u32, data: Vec<u8>) -> (r: Option<Frame>)
        ensures
            r is Some <==> data@.len() == width * height * 4,
            r matches Some(f) ==> f@ == (FrameView { width, height, data: data@ }),
    {
        let len = data.len();
        match (width as usize).checked_mul(height as usize) {
            Some(pixels) => match pixels.checked_mul(4) {
                Some(n) => {
                    if len == n {
                        Some(Frame { width, height, data })
                    } else {
                        None
                    }
                },
                None => None,
            },
            None => {
                assert(width * height * 4 > usize::MAX) by (nonlinear_arith)
                    requires width * height > usize::MAX;
                None
            },
        }
    }

    /// The samples, row-major, four per pixel.
    pub fn as_raw(&self) -> (r: &Vec<u8>)
        ensures
            r@ == self@.data,
    {
        proof {
            use_type_invariant(self);
        }
        &self.data
    }

    /// The samples, row-major, four per pixel.
    pub fn into_raw(self) -> (r: Vec<u8>)
        ensures
            r@ == self@.data,
    {
        proof {
            use_type_invariant(&self);
        }
        self.data
    }

    /// The four samples of the pixel at column `x`, row `y`.
    pub fn get_pixel(&self, x: u32, y: u32) -> (p: [u8; 4])
        requires
            x < self@.width,
            y < self@.height,
        ensures
            forall|c: int| 0 <= c < 4 ==> p@[c] == self@.sample(x as int, y as int, c),
    {
        proof {
            use_type_invariant(self);
            crate::grid::lemma_pixel_in_image(self.width as int, self.height as int, x as int, y as int);
        }
        let i: usize = (y as usize * self.width as usize + x as usize) * 4;
        [self.data[i], self.data[i + 1], self.data[i + 2], self.data[i + 3]]
    }

    /// Overwrites the pixel at column `x`, row `y`.
    pub fn put_pixel(&mut self, x: u32, y: u32, p: [u8; 4])
        requires
            x < old(self)@.width,
            y < old(self)@.height,
        ensures
            final(self)@.width == old(self)@.width,
            final(self)@.height == old(self)@.height,
            forall|px: int, py: int, c: int|
                0 <= px < old(self)@.width && 0 <= py < old(self)@.height && 0 <= c < 4
                    ==> #[trigger] final(self)@.sample(px, py, c) == if px == x && py == y {
                        p@[c]
                    } else {
                        old(self)@.sample(px, py, c)
                    },
    {
        proof {
            use_type_invariant(&*self);
            crate::grid::lemma_pixel_in_image(self.width as int, self.height as int, x as int, y as int);
        }
        let ghost before = self.data@;
        let mut taken = Frame::new(0, 0);
        std::mem::swap(self, &mut taken);
        let Frame { width: w, height: h, data: mut data } = taken;
        let i: usize = (y as usize * w as usize + x as usize) * 4;
        data.set(i, p[0]);
        data.set(i + 1, p[1]);
        data.set(i + 2, p[2]);
        data.set(i + 3, p[3]);
        *self = Frame { width: w, height: h, data };
        proof {
            assert forall|px: int, py: int, c: int|
                0 <= px < w && 0 <= py < h && 0 <= c < 4 implies
                    #[trigger] self.data@[(py * w + px) * 4 + c] == if px == x && py == y {
                        p@[c]
                    } else {
                        before[(py * w + px) * 4 + c]
                    } by {
                crate::grid::lemma_pixel_in_image(w as int, h as int, px, py);
                if px != x || py != y {
                    crate::grid::lemma_pixel_distinct(w as int, px, py, x as int, y as int);
                }
            }
        }
    }
}

impl Frame {
    /// The part of the frame inside the `width` by `height` rectangle whose
    /// top-left corner is `(x, y)`, cut back to the frame's edges.
    pub fn crop(&self, x: u32, y: u32, width: u32, height: u32) -> (r: Frame)
        ensures
            is_crop_of(r@, self@, x, y, width, height),
    {
        proof {
            use_type_invariant(self);
        }
        let iw = self.width;
        let ih = self.height;
        let cx = if x <= iw { x } else { iw };
        let cy = if y <= ih { y } else { ih };
        let cw = if width <= iw - cx { width } else { iw - cx };
        let ch = if height <= ih - cy { height } else { ih - cy };
        proof {
            crate::grid::lemma_area_monotone(cw as int, ch as int, iw as int, ih as int);
        }
        let mut out = Frame::new(cw, ch);
        assert forall|qx: int, qy: int, c: int|
            0 <= qx < cw && 0 <= qy < ch && 0 <= c < 4 implies #[trigger] out@.sample(qx, qy, c) == 0 by {
            crate::grid::lemma_pixel_in_image(cw as int, ch as int, qx, qy);
        }
        let mut py: u32 = 0;
        while py < ch
            invariant
                py <= ch,
                cx + cw <= self@.width,
                cy + ch <= self@.height,
                out@.width == cw,
                out@.height == ch,
                forall|qx: int, qy: int, c: int|
                    0 <= qx < cw && 0 <= qy < ch && 0 <= c < 4 ==> #[trigger] out@.sample(qx, qy, c) == if qy < py {
                        self@.sample(cx + qx, cy + qy, c)
                    } else {
                        0u8
                    },
            decreases ch - py,
        {
            let mut px: u32 = 0;
            while px < cw
                invariant
                    px <= cw,
                    py < ch,
                    cx + cw <= self@.width,
                    cy + ch <= self@.height,
                    out@.width == cw,
                    out@.height == ch,
                    forall|qx: int, qy: int, c: int|
                        0 <= qx < cw && 0 <= qy < ch && 0 <= c < 4 ==> #[trigger] out@.sample(qx, qy, c)
                            == if qy < py || (qy == py && qx < px) {
                            self@.sample(cx + qx, cy + qy, c)
                        } else {
                            0u8
                        },
                decreases cw - px,
            {
                let p = self.get_pixel(cx + px, cy + py);
                out.put_pixel(px, py, p);
                px = px + 1;
            }
            py = py + 1;
        }
        out
    }

    /// Lays `top` onto this frame with its top-left corner at `(x, y)`; the
    /// parts of `top` that fall outside this frame are left out.
    pub fn replace(&mut self, top: &Frame, x: i64, y: i64)
        ensures
            is_laid_onto(final(self)@, old(self)@, top@, x as int, y as int),
    {
        let ghost before = self@;
        let bw = self.width() as i64;
        let bh = self.height() as i64;
        let tw = top.width() as i64;
        let th = top.height() as i64;
        if x > bw || y > bh || x + tw <= 0 || y + th <= 0 {
            return;
        }
        let x0: i64 = if x < 0 { 0 } else { x };
        let y0: i64 = if y < 0 { 0 } else { y };
        let x1: i64 = if x + tw < bw { x + tw } else { bw };
        let y1: i64 = if y + th < bh { y + th } else { bh };
        let mut by: i64 = y0;
        while by < y1
            invariant
                y0 <= by <= y1 || y1 <= y0 == by,
                bw == before.width,
                bh == before.height,
                tw == top@.width,
                th == top@.height,
                x0 == (if x < 0 { 0 } else { x }),
                y0 == (if y < 0 { 0 } else { y }),
                x1 == (if x + tw < bw { x + tw } else { bw as int }),
                y1 == (if y + th < bh { y + th } else { bh as int }),
                self@.width == before.width,
                self@.height == before.height,
                forall|qx: int, qy: int, c: int|
                    0 <= qx < bw && 0 <= qy < bh && 0 <= c < 4 ==> #[trigger] self@.sample(qx, qy, c) == if x0
                        <= qx < x1 && y0 <= qy < y1 && qy < by {
                        top@.sample(qx - x, qy - y, c)
                    } else {
                        before.sample(qx, qy, c)
                    },
            decreases y1 - by,
        {
            let mut bx: i64 = x0;
            while bx < x1
                invariant
                    x0 <= bx <= x1 || x1 <= x0 == bx,
                    y0 <= by < y1,
                    bw == before.width,
                    bh == before.height,
                    tw == top@.width,
                    th == top@.height,
                    x0 == (if x < 0 { 0 } else { x }),
                    y0 == (if y < 0 { 0 } else { y }),
                    x1 == (if x + tw < bw { x + tw } else { bw as int }),
                    y1 == (if y + th < bh { y + th } else { bh as int }),
                    self@.width == before.width,
                    self@.height == before.height,
                    forall|qx: int, qy: int, c: int|
                        0 <= qx < bw && 0 <= qy < bh && 0 <= c < 4 ==> #[trigger] self@.sample(qx, qy, c)
                            == if x0 <= qx < x1 && y0 <= qy < y1 && (qy < by || (qy == by && qx < bx)) {
                            top@.sample(qx - x, qy - y, c)
                        } else {
                            before.sample(qx, qy, c)
                        },
                decreases x1 - bx,
            {
                let p = top.get_pixel((bx - x) as u32, (by - y) as u32);
                self.put_pixel(bx as u32, by as u32, p);
                bx = bx + 1;
            }
            by = by + 1;
        }
    }
}

impl Clone for Frame {
    fn clone(&self) -> (r: Self)
        ensures
            r@ == self@,
    {
        proof {
            use_type_invariant(self);
        }
        let data = self.data.clone();
        assert(data@ =~= self.data@);
        Frame { width: self.width, height: self.height, data }
    }
}
} // verus!
