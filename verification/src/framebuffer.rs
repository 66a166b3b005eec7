//! The depth-tested framebuffer.
//!
//! Two parallel dense arrays of `width * height` pixels, indexed by
//! `y * width + x`: packed colors and per-pixel depths. The only mutation of
//! a pixel is the nearest-wins write [`Framebuffer::try_set`]: a candidate
//! lands only if its depth is strictly less than the stored depth, so the
//! final color at a pixel is that of the nearest candidate regardless of the
//! order in which candidates arrive ([`lemma_depth_write_order_independent`]).

use vstd::prelude::*;
use crate::geometry::COORD_BOUND;

verus! {

/// The farthest representable depth, stored in every pixel after a clear.
pub const FAR_DEPTH: i64 = i64::MAX;

/// The abstract state of a framebuffer: its extent and the two pixel arrays.
#[verifier::ext_equal]
pub struct FbView {
    pub width: nat,
    pub height: nat,
    pub colors: Seq<u32>,
    pub depths: Seq<i64>,
}

impl FbView {
    /// Both arrays hold exactly one entry per pixel.
    pub open spec fn wf(self) -> bool {
        &&& self.colors.len() == self.width * self.height
        &&& self.depths.len() == self.width * self.height
    }

    /// The array index of the pixel `(x, y)`.
    pub open spec fn idx(self, x: int, y: int) -> int {
        y * self.width + x
    }

    /// Whether `(x, y)` is a pixel of this framebuffer.
    pub open spec fn in_bounds(self, x: int, y: int) -> bool {
        0 <= x < self.width && 0 <= y < self.height
    }
}

/// The nearest-wins write: the candidate's color and depth land at `(x, y)`
/// exactly when the pixel exists and the candidate's depth is strictly less
/// than the stored one; otherwise the state is unchanged. Ties keep the
/// stored pixel.
pub open spec fn try_set_spec(s: FbView, x: int, y: int, color: u32, depth: i64) -> FbView {
    if s.in_bounds(x, y) && depth < s.depths[s.idx(x, y)] {
        FbView {
            colors: s.colors.update(s.idx(x, y), color),
            depths: s.depths.update(s.idx(x, y), depth),
            ..s
        }
    } else {
        s
    }
}

/// A pixel's array index lies within an array that holds one entry per pixel.
pub proof fn lemma_idx_bounds(w: int, h: int, x: int, y: int) by (nonlinear_arith)
    requires
        0 <= x < w,
        0 <= y < h,
    ensures
        0 <= y * w + x < w * h,
{
}

/// Distinct pixels have distinct row-major array indices.
pub proof fn lemma_idx_injective(w: int, x1: int, y1: int, x2: int, y2: int) by (nonlinear_arith)
    requires
        0 <= x1 < w,
        0 <= x2 < w,
        !(x1 == x2 && y1 == y2),
    ensures
        y1 * w + x1 != y2 * w + x2,
{
}

/// Writes to one pixel commute when their depths differ, and the nearer one
/// wins whichever order they arrive in: submitting depths `d1 < d2` in either
/// order leaves exactly the state of the `d1` write alone.
pub proof fn lemma_depth_write_order_independent(s: FbView, x: int, y: int, c1: u32, d1: i64, c2: u32, d2: i64)
    requires
        s.wf(),
        d1 < d2,
    ensures
        try_set_spec(try_set_spec(s, x, y, c1, d1), x, y, c2, d2) == try_set_spec(
            try_set_spec(s, x, y, c2, d2),
            x,
            y,
            c1,
            d1,
        ),
        try_set_spec(try_set_spec(s, x, y, c1, d1), x, y, c2, d2) == try_set_spec(s, x, y, c1, d1),
{
    if s.in_bounds(x, y) {
        let i = s.idx(x, y);
        lemma_idx_bounds(s.width as int, s.height as int, x, y);
        let stored = s.depths[i];
        if d1 < stored {
            let after1 = try_set_spec(s, x, y, c1, d1);
            assert(after1.depths[i] == d1);
            assert(try_set_spec(after1, x, y, c2, d2) == after1);
            if d2 < stored {
                let after2 = try_set_spec(s, x, y, c2, d2);
                assert(after2.depths[i] == d2);
                assert(try_set_spec(after2, x, y, c1, d1) =~= after1);
            } else {
                assert(try_set_spec(s, x, y, c2, d2) == s);
            }
        } else {
            assert(try_set_spec(s, x, y, c1, d1) == s);
            assert(try_set_spec(s, x, y, c2, d2) == s);
        }
    }
}

/// The color buffer and depth buffer of one frame, with the background and
/// drawing colors the render loop works with.
pub struct Framebuffer {
    pub width: usize,
    pub height: usize,
    /// Packed pixel colors, one `u32` per pixel, row-major.
    pub buffer: Vec<u32>,
    /// Per-pixel depths, parallel to `buffer`.
    pub zbuffer: Vec<i64>,
    /// The color a clear fills the frame with.
    pub background_color: u32,
    /// The color the next `point` write uses.
    pub current_color: u32,
}

impl View for Framebuffer {
    type V = FbView;

    open spec fn view(&self) -> FbView {
        FbView {
            width: self.width as nat,
            height: self.height as nat,
            colors: self.buffer@,
            depths: self.zbuffer@,
        }
    }
}

impl Framebuffer {
    /// The buffers hold one entry per pixel and the extent is within the
    /// rasterizer's coordinate grid.
    pub open spec fn wf(self) -> bool {
        &&& self@.wf()
        &&& self.width as int <= COORD_BOUND as int
        &&& self.height as int <= COORD_BOUND as int
        &&& self.width * self.height <= usize::MAX
    }

    /// A framebuffer of the given extent, black background, every pixel black
    /// and at the farthest depth.
    pub fn new(width: usize, height: usize) -> (fb: Framebuffer)
        requires
            width * height <= usize::MAX,
            width as int <= COORD_BOUND as int,
            height as int <= COORD_BOUND as int,
        ensures
            fb.wf(),
            fb.width == width,
            fb.height == height,
            fb.background_color == 0,
            fb.current_color == 0,
            forall|i: int| 0 <= i < fb@.colors.len() ==> #[trigger] fb@.colors[i] == 0,
            forall|i: int| 0 <= i < fb@.depths.len() ==> #[trigger] fb@.depths[i] == FAR_DEPTH,
    {
        let len = width * height;
        let mut buffer: Vec<u32> = Vec::new();
        let mut zbuffer: Vec<i64> = Vec::new();
        let mut i: usize = 0;
        while i < len
            invariant
                i <= len,
                buffer@.len() == i,
                zbuffer@.len() == i,
                forall|j: int| 0 <= j < i ==> #[trigger] buffer@[j] == 0,
                forall|j: int| 0 <= j < i ==> #[trigger] zbuffer@[j] == FAR_DEPTH,
            decreases len - i,
        {
            buffer.push(0);
            zbuffer.push(FAR_DEPTH);
            i += 1;
        }
        Framebuffer { width, height, buffer, zbuffer, background_color: 0, current_color: 0 }
    }

    /// Remember the color that future clears fill the frame with.
    pub fn set_background_color(&mut self, color: u32)
        ensures
            *final(self) == (Framebuffer { background_color: color, ..*old(self) }),
    {
        self.background_color = color;
    }

    /// Remember the color that future `point` writes use.
    pub fn set_current_color(&mut self, color: u32)
        ensures
            *final(self) == (Framebuffer { current_color: color, ..*old(self) }),
    {
        self.current_color = color;
    }

    /// Reset every pixel to the background color and the farthest depth.
    pub fn clear(&mut self)
        requires
            old(self).wf(),
        ensures
            final(self).wf(),
            final(self).width == old(self).width,
            final(self).height == old(self).height,
            final(self).background_color == old(self).background_color,
            final(self).current_color == old(self).current_color,
            final(self)@.colors.len() == old(self)@.colors.len(),
            final(self)@.depths.len() == old(self)@.depths.len(),
            forall|i: int|
                0 <= i < final(self)@.colors.len() ==> #[trigger] final(self)@.colors[i] == old(
                    self,
                ).background_color,
            forall|i: int|
                0 <= i < final(self)@.depths.len() ==> #[trigger] final(self)@.depths[i]
                    == FAR_DEPTH,
    {
        let len = self.buffer.len();
        let bg = self.background_color;
        let mut i: usize = 0;
        while i < len
            invariant
                i <= len,
                self.buffer@.len() == len,
                self.zbuffer@.len() == old(self).zbuffer@.len(),
                self.width == old(self).width,
                self.height == old(self).height,
                self.background_color == old(self).background_color,
                self.current_color == old(self).current_color,
                bg == old(self).background_color,
                forall|j: int| 0 <= j < i ==> #[trigger] self.buffer@[j] == bg,
            decreases len - i,
        {
            self.buffer.set(i, bg);
            i += 1;
        }
        let zlen = self.zbuffer.len();
        let mut k: usize = 0;
        while k < zlen
            invariant
                k <= zlen,
                self.buffer@.len() == len,
                self.zbuffer@.len() == zlen,
                self.width == old(self).width,
                self.height == old(self).height,
                self.background_color == old(self).background_color,
                self.current_color == old(self).current_color,
                forall|j: int| 0 <= j < len ==> #[trigger] self.buffer@[j] == old(self).background_color,
                forall|j: int| 0 <= j < k ==> #[trigger] self.zbuffer@[j] == FAR_DEPTH,
            decreases zlen - k,
        {
            self.zbuffer.set(k, FAR_DEPTH);
            k += 1;
        }
    }

    /// Submit a candidate color and depth for the pixel `(x, y)`: the
    /// nearest-wins write of [`try_set_spec`]. A pixel outside the frame, or
    /// a candidate no nearer than the stored depth, is dropped silently.
    pub fn try_set(&mut self, x: usize, y: usize, color: u32, depth: i64)
        requires
            old(self).wf(),
        ensures
            final(self).wf(),
            final(self)@ == try_set_spec(old(self)@, x as int, y as int, color, depth),
            final(self).width == old(self).width,
            final(self).height == old(self).height,
            final(self).background_color == old(self).background_color,
            final(self).current_color == old(self).current_color,
    {
        if x < self.width && y < self.height {
            proof {
                lemma_idx_bounds(self.width as int, self.height as int, x as int, y as int);
            }
            let idx = y * self.width + x;
            if depth < self.zbuffer[idx] {
                self.buffer.set(idx, color);
                self.zbuffer.set(idx, depth);
            }
        }
        proof {
            assert(self@ =~= try_set_spec(old(self)@, x as int, y as int, color, depth));
        }
    }

    /// Submit a candidate at the current drawing color.
    pub fn point(&mut self, x: usize, y: usize, depth: i64)
        requires
            old(self).wf(),
        ensures
            final(self).wf(),
            final(self)@ == try_set_spec(old(self)@, x as int, y as int, old(self).current_color, depth),
            final(self).width == old(self).width,
            final(self).height == old(self).height,
            final(self).background_color == old(self).background_color,
            final(self).current_color == old(self).current_color,
    {
        let color = self.current_color;
        self.try_set(x, y, color, depth);
    }
}

} // verus!
