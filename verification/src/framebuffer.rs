//! The pixel grid that drawing commands write to.

use vstd::prelude::*;

verus! {

/// The pixels after a bounds-checked write of `color` at column `x`, row `y`
/// of a `width` by `height` grid stored row by row: the cell `y * width + x`
/// is replaced when the coordinate lies in the grid, and nothing changes
/// otherwise.
pub open spec fn with_pixel(
    pixels: Seq<u32>,
    width: int,
    height: int,
    x: int,
    y: int,
    color: u32,
) -> Seq<u32> {
    if 0 <= x < width && 0 <= y < height && y * width + x < pixels.len() {
        pixels.update(y * width + x, color)
    } else {
        pixels
    }
}

/// The pixels after a change of extent to `len` cells: every cell keeps its
/// linear index, cells past the old end are zero, cells past the new end are
/// dropped.
pub open spec fn resized(pixels: Seq<u32>, len: nat) -> Seq<u32> {
    Seq::new(len, |i: int| if i < pixels.len() { pixels[i] } else { 0u32 })
}

/// A sequence of `len` cells that all hold `color`.
pub open spec fn solid(len: nat, color: u32) -> Seq<u32> {
    Seq::new(len, |i: int| color)
}

/// A coordinate inside a grid has its linear index inside the grid's extent.
pub proof fn lemma_cell_in_grid(width: int, height: int, x: int, y: int)
    requires
        0 <= x < width,
        0 <= y < height,
    ensures
        0 <= y * width,
        0 <= y * width + x < width * height,
{
    assert(0 <= y * width && y * width + x < width * height) by (nonlinear_arith)
        requires
            0 <= x < width,
            0 <= y < height,
    ;
}

/// An owned, resizable grid of packed pixels, stored row by row.
pub struct Framebuffer {
    pub width: usize,
    pub height: usize,
    pub pixels: Vec<u32>,
}

impl Framebuffer {
    /// The grid holds exactly `width * height` pixels.
    pub open spec fn wf(&self) -> bool {
        self.pixels@.len() == self.width * self.height
    }

    /// Whether the grid holds exactly `width * height` pixels.
    pub fn is_well_formed(&self) -> (ok: bool)
        ensures
            ok == self.wf(),
    {
        let len: usize = self.pixels.len();
        match self.width.checked_mul(self.height) {
            Some(n) => n == len,
            None => false,
        }
    }

    /// A zero-filled grid of the given extent.
    pub fn new(width: usize, height: usize) -> (fb: Self)
        requires
            width * height <= usize::MAX,
        ensures
            fb.wf(),
            fb.width == width,
            fb.height == height,
            fb.pixels@ == solid((width * height) as nat, 0),
    {
        let len: usize = width * height;
        let mut pixels: Vec<u32> = Vec::new();
        pixels.resize(len, 0u32);
        assert(pixels@ =~= solid(len as nat, 0));
        Framebuffer { width, height, pixels }
    }

    /// Changes the extent. Content is carried over by linear index, not by
    /// coordinate: the pixel at old index `i` is the pixel at new index `i`.
    pub fn resize(&mut self, new_width: usize, new_height: usize)
        requires
            new_width * new_height <= usize::MAX,
        ensures
            final(self).wf(),
            final(self).width == new_width,
            final(self).height == new_height,
            final(self).pixels@ == resized(old(self).pixels@, (new_width * new_height) as nat),
    {
        let len: usize = new_width * new_height;
        self.pixels.resize(len, 0u32);
        self.width = new_width;
        self.height = new_height;
        assert(self.pixels@ =~= resized(old(self).pixels@, len as nat));
    }

    /// Writes `color` at `(x, y)` when the coordinate lies in the grid;
    /// an out-of-range write is ignored.
    pub fn set(&mut self, x: usize, y: usize, color: u32)
        requires
            old(self).wf(),
        ensures
            final(self).wf(),
            final(self).width == old(self).width,
            final(self).height == old(self).height,
            final(self).pixels@ == with_pixel(
                old(self).pixels@,
                old(self).width as int,
                old(self).height as int,
                x as int,
                y as int,
                color,
            ),
    {
        if x < self.width && y < self.height {
            let len: usize = self.pixels.len();
            proof {
                lemma_cell_in_grid(self.width as int, self.height as int, x as int, y as int);
            }
            assert(y * self.width + x < len);
            let index: usize = y * self.width + x;
            self.pixels[index] = color;
        }
    }

    /// The pixel at `(x, y)`, or `None` when the coordinate lies outside the
    /// grid.
    pub fn get(&self, x: usize, y: usize) -> (pixel: Option<u32>)
        requires
            self.wf(),
        ensures
            pixel == (if x < self.width && y < self.height {
                Some(self.pixels@[y * self.width + x])
            } else {
                None
            }),
    {
        if x < self.width && y < self.height {
            let len: usize = self.pixels.len();
            proof {
                lemma_cell_in_grid(self.width as int, self.height as int, x as int, y as int);
            }
            assert(y * self.width + x < len);
            Some(self.pixels[y * self.width + x])
        } else {
            None
        }
    }

    /// Overwrites every pixel with `color`.
    pub fn fill(&mut self, color: u32)
        ensures
            final(self).width == old(self).width,
            final(self).height == old(self).height,
            final(self).pixels@ == solid(old(self).pixels@.len(), color),
            old(self).wf() ==> final(self).wf(),
    {
        let n: usize = self.pixels.len();
        let mut i: usize = 0;
        while i < n
            invariant
                i <= n,
                self.pixels@.len() == n,
                self.width == old(self).width,
                self.height == old(self).height,
                forall|j: int| 0 <= j < i ==> self.pixels@[j] == color,
            decreases n - i,
        {
            self.pixels[i] = color;
            i = i + 1;
        }
        assert(self.pixels@ =~= solid(n as nat, color));
    }

    /// Copies the grid, pixel for pixel by linear index, to the front of a
    /// presentable surface. What the surface holds past the grid's extent is
    /// left as it is.
    pub fn blit(&self, target: &mut [u32])
        requires
            self.pixels@.len() <= old(target)@.len(),
        ensures
            final(target)@ == self.pixels@ + old(target)@.skip(self.pixels@.len() as int),
    {
        let n: usize = self.pixels.len();
        let mut i: usize = 0;
        while i < n
            invariant
                i <= n,
                n == self.pixels@.len(),
                target@.len() == old(target)@.len(),
                n <= target@.len(),
                forall|j: int| 0 <= j < i ==> target@[j] == self.pixels@[j],
                forall|j: int| i <= j < target@.len() ==> target@[j] == old(target)@[j],
            decreases n - i,
        {
            target[i] = self.pixels[i];
            i = i + 1;
        }
        assert(target@ =~= self.pixels@ + old(target)@.skip(n as int));
    }
}

} // verus!
