//! The rasterizer: colour packing, point plot, rectangle fill and line drawing.

use crate::framebuffer::{lemma_cell_in_grid, with_pixel, Framebuffer};
use vstd::arithmetic::div_mod::{lemma_fundamental_div_mod, lemma_fundamental_div_mod_converse};
use vstd::prelude::*;

verus! {

/// Three channels folded into one packed pixel: red in bits 16 and up, green
/// in bits 8 and up, blue in the low bits.
pub open spec fn packed(r: u32, g: u32, b: u32) -> u32 {
    (r << 16) | (g << 8) | b
}

/// Folds three channels into one packed pixel.
pub fn pack_color(r: u32, g: u32, b: u32) -> (p: u32)
    ensures
        p == packed(r, g, b),
{
    (r << 16) | (g << 8) | b
}

/// The distance between two coordinates on one axis.
pub open spec fn distance(a: int, b: int) -> int {
    if a < b {
        b - a
    } else {
        a - b
    }
}

/// The coordinate `k` unit steps away from `from`, in the direction of `to`.
pub open spec fn toward(from: int, to: int, k: int) -> int {
    if from < to {
        from + k
    } else {
        from - k
    }
}

/// The number of steps a line takes: the larger of its two axis distances.
/// The line has one point more than it has steps.
pub open spec fn line_steps(x1: int, y1: int, x2: int, y2: int) -> int {
    let dx = distance(x1, x2);
    let dy = distance(y1, y2);
    if dx > dy {
        dx
    } else {
        dy
    }
}

/// How far a line has moved along its shorter axis after `k` steps along its
/// longer one: `k * minor / major`, rounded to the nearest integer, a tie
/// rounded down.
pub open spec fn minor_offset(k: int, minor: int, major: int) -> int {
    (k * minor + (major - 1) / 2) / major
}

/// The point of the line from `(x1, y1)` to `(x2, y2)` after `k` steps.
pub open spec fn line_point(x1: int, y1: int, x2: int, y2: int, k: int) -> (int, int) {
    let dx = distance(x1, x2);
    let dy = distance(y1, y2);
    if dx > dy {
        (toward(x1, x2, k), toward(y1, y2, minor_offset(k, dy, dx)))
    } else if dy > 0 {
        (toward(x1, x2, minor_offset(k, dx, dy)), toward(y1, y2, k))
    } else {
        (x1, y1)
    }
}

/// The linear index at which the `k`-th point of a line lands in a buffer of
/// `len` pixels laid out in rows of `width`, or `-1` where the point lies
/// outside the buffer.
pub open spec fn line_cell(
    width: int,
    len: int,
    x1: int,
    y1: int,
    x2: int,
    y2: int,
    k: int,
) -> int {
    let (x, y) = line_point(x1, y1, x2, y2, k);
    if 0 <= x < width && 0 <= y && y * width + x < len {
        y * width + x
    } else {
        -1
    }
}

/// Whether one of the first `n` points of a line lands on the linear index `i`.
pub open spec fn line_covers(
    width: int,
    len: int,
    x1: int,
    y1: int,
    x2: int,
    y2: int,
    n: int,
    i: int,
) -> bool {
    exists|k: int| 0 <= k < n && #[trigger] line_cell(width, len, x1, y1, x2, y2, k) == i
}

/// The pixels after the first `n` points of a line were drawn in `color`.
pub open spec fn line_prefix(
    pixels: Seq<u32>,
    width: int,
    x1: int,
    y1: int,
    x2: int,
    y2: int,
    n: int,
    color: u32,
) -> Seq<u32> {
    Seq::new(
        pixels.len(),
        |i: int|
            if line_covers(width, pixels.len() as int, x1, y1, x2, y2, n, i) {
                color
            } else {
                pixels[i]
            },
    )
}

/// The pixels after the whole line from `(x1, y1)` to `(x2, y2)` was drawn in
/// `color`: every cell that a point of the line lands on holds `color`, every
/// other cell is unchanged.
pub open spec fn with_line(
    pixels: Seq<u32>,
    width: int,
    x1: int,
    y1: int,
    x2: int,
    y2: int,
    color: u32,
) -> Seq<u32> {
    line_prefix(pixels, width, x1, y1, x2, y2, line_steps(x1, y1, x2, y2) + 1, color)
}

/// Whether the linear index `i` lies in the half-open box with corners
/// `(x1, y1)` and `(x2, y2)`, in rows of `width`.
pub open spec fn rect_covers(width: int, x1: int, y1: int, x2: int, y2: int, i: int) -> bool {
    width > 0 && x1 <= i % width < x2 && y1 <= i / width < y2
}

/// The pixels after the box was filled with `color`.
pub open spec fn with_rect(
    pixels: Seq<u32>,
    width: int,
    x1: int,
    y1: int,
    x2: int,
    y2: int,
    color: u32,
) -> Seq<u32> {
    Seq::new(
        pixels.len(),
        |i: int|
            if rect_covers(width, x1, y1, x2, y2, i) {
                color
            } else {
                pixels[i]
            },
    )
}

/// The cells of the box that a row-by-row fill has reached when it stands at
/// column `cx` of row `cy`.
pub open spec fn rect_reached(
    width: int,
    x1: int,
    y1: int,
    x2: int,
    y2: int,
    cy: int,
    cx: int,
    i: int,
) -> bool {
    rect_covers(width, x1, y1, x2, y2, i) && (i / width < cy || (i / width == cy && i % width
        < cx))
}

/// The pixels while a row-by-row fill stands at column `cx` of row `cy`.
pub open spec fn rect_prefix(
    pixels: Seq<u32>,
    width: int,
    x1: int,
    y1: int,
    x2: int,
    y2: int,
    cy: int,
    cx: int,
    color: u32,
) -> Seq<u32> {
    Seq::new(
        pixels.len(),
        |i: int|
            if rect_reached(width, x1, y1, x2, y2, cy, cx, i) {
                color
            } else {
                pixels[i]
            },
    )
}

/// A quotient `q` with a remainder in range is the rounded offset.
proof fn lemma_minor_offset(k: int, minor: int, major: int, q: int, r: int)
    requires
        major > 0,
        0 <= r < major,
        k * minor + (major - 1) / 2 == q * major + r,
    ensures
        minor_offset(k, minor, major) == q,
{
    lemma_fundamental_div_mod_converse(k * minor + (major - 1) / 2, major, q, r);
}

/// After as many steps as the longer axis is long, the shorter axis has been
/// crossed in full.
pub proof fn lemma_minor_offset_ends(minor: int, major: int)
    requires
        0 <= minor <= major,
        major > 0,
    ensures
        minor_offset(0, minor, major) == 0,
        minor_offset(major, minor, major) == minor,
{
    assert(0 * minor == 0);
    lemma_minor_offset(0, minor, major, 0, (major - 1) / 2);
    assert(major * minor == minor * major) by (nonlinear_arith);
    lemma_minor_offset(major, minor, major, minor, (major - 1) / 2);
}

/// Drawing one more point of a line is one bounds-checked write.
proof fn lemma_line_prefix_step(
    pixels: Seq<u32>,
    width: int,
    x1: int,
    y1: int,
    x2: int,
    y2: int,
    n: int,
    color: u32,
)
    requires
        0 <= n,
    ensures
        line_prefix(pixels, width, x1, y1, x2, y2, 0, color) == pixels,
        ({
            let cell = line_cell(width, pixels.len() as int, x1, y1, x2, y2, n);
            let drawn = line_prefix(pixels, width, x1, y1, x2, y2, n, color);
            line_prefix(pixels, width, x1, y1, x2, y2, n + 1, color) == (if 0 <= cell {
                drawn.update(cell, color)
            } else {
                drawn
            })
        }),
{
    let len = pixels.len() as int;
    assert(line_prefix(pixels, width, x1, y1, x2, y2, 0, color) =~= pixels);
    let cell = line_cell(width, len, x1, y1, x2, y2, n);
    let drawn = line_prefix(pixels, width, x1, y1, x2, y2, n, color);
    let next = line_prefix(pixels, width, x1, y1, x2, y2, n + 1, color);
    assert forall|i: int| 0 <= i < len implies #[trigger] next[i] == (if i == cell {
        color
    } else {
        drawn[i]
    }) by {
        if line_covers(width, len, x1, y1, x2, y2, n + 1, i) {
            let k = choose|k: int|
                0 <= k < n + 1 && #[trigger] line_cell(width, len, x1, y1, x2, y2, k) == i;
            if k < n {
                assert(line_covers(width, len, x1, y1, x2, y2, n, i));
            }
        }
        if line_covers(width, len, x1, y1, x2, y2, n, i) {
            let k = choose|k: int|
                0 <= k < n && #[trigger] line_cell(width, len, x1, y1, x2, y2, k) == i;
            assert(0 <= k < n + 1);
        }
        if i == cell {
            assert(line_cell(width, len, x1, y1, x2, y2, n) == i);
        }
    }
    if 0 <= cell {
        assert(next =~= drawn.update(cell, color));
    } else {
        assert(next =~= drawn);
    }
}

/// A linear index inside a grid lies in one of the grid's rows, at one of its
/// columns.
pub proof fn lemma_index_in_grid(width: int, height: int, i: int)
    requires
        0 <= i < width * height,
        0 < width,
    ensures
        0 <= i % width < width,
        0 <= i / width < height,
        i == (i / width) * width + i % width,
{
    lemma_fundamental_div_mod(i, width);
    let q = i / width;
    let r = i % width;
    assert(0 <= q < height) by (nonlinear_arith)
        requires
            i == width * q + r,
            0 <= r < width,
            0 <= i < width * height,
    ;
    assert(width * q == q * width) by (nonlinear_arith);
}

/// Filling one more cell of a row is one bounds-checked write.
proof fn lemma_rect_prefix_step(
    pixels: Seq<u32>,
    width: int,
    height: int,
    x1: int,
    y1: int,
    x2: int,
    y2: int,
    cy: int,
    cx: int,
    color: u32,
)
    requires
        pixels.len() == width * height,
        0 <= x1 <= cx < x2,
        cx < width,
        0 <= y1 <= cy < y2,
        cy < height,
    ensures
        with_pixel(
            rect_prefix(pixels, width, x1, y1, x2, y2, cy, cx, color),
            width,
            height,
            cx,
            cy,
            color,
        ) == rect_prefix(pixels, width, x1, y1, x2, y2, cy, cx + 1, color),
{
    let here = rect_prefix(pixels, width, x1, y1, x2, y2, cy, cx, color);
    let next = rect_prefix(pixels, width, x1, y1, x2, y2, cy, cx + 1, color);
    let index = cy * width + cx;
    lemma_cell_in_grid(width, height, cx, cy);
    lemma_fundamental_div_mod_converse(index, width, cy, cx);
    assert forall|i: int| 0 <= i < pixels.len() implies #[trigger] next[i] == (if i == index {
        color
    } else {
        here[i]
    }) by {
        lemma_index_in_grid(width, height, i);
    }
    assert(next =~= here.update(index, color));
}

/// A fill that has passed the last column of the box in one row stands at the
/// first column of the box in the next.
proof fn lemma_rect_prefix_row(
    pixels: Seq<u32>,
    width: int,
    height: int,
    x1: int,
    y1: int,
    x2: int,
    y2: int,
    cy: int,
    cx: int,
    color: u32,
)
    requires
        pixels.len() == width * height,
        cx >= x2 || cx >= width,
    ensures
        rect_prefix(pixels, width, x1, y1, x2, y2, cy, cx, color) == rect_prefix(
            pixels,
            width,
            x1,
            y1,
            x2,
            y2,
            cy + 1,
            x1,
            color,
        ),
{
    let here = rect_prefix(pixels, width, x1, y1, x2, y2, cy, cx, color);
    let next = rect_prefix(pixels, width, x1, y1, x2, y2, cy + 1, x1, color);
    assert forall|i: int| 0 <= i < pixels.len() implies #[trigger] next[i] == here[i] by {
        if width > 0 {
            lemma_index_in_grid(width, height, i);
        }
    }
    assert(next =~= here);
}

/// A fill that has not begun has changed nothing; one that has passed the
/// last row of the box has filled the box.
proof fn lemma_rect_prefix_ends(
    pixels: Seq<u32>,
    width: int,
    height: int,
    x1: int,
    y1: int,
    x2: int,
    y2: int,
    cy: int,
    color: u32,
)
    requires
        pixels.len() == width * height,
    ensures
        rect_prefix(pixels, width, x1, y1, x2, y2, y1, x1, color) == pixels,
        cy >= y2 || cy >= height ==> rect_prefix(pixels, width, x1, y1, x2, y2, cy, x1, color)
            == with_rect(pixels, width, x1, y1, x2, y2, color),
{
    assert(rect_prefix(pixels, width, x1, y1, x2, y2, y1, x1, color) =~= pixels);
    if cy >= y2 || cy >= height {
        let here = rect_prefix(pixels, width, x1, y1, x2, y2, cy, x1, color);
        let whole = with_rect(pixels, width, x1, y1, x2, y2, color);
        assert forall|i: int| 0 <= i < pixels.len() implies #[trigger] here[i] == whole[i] by {
            if width > 0 {
                lemma_index_in_grid(width, height, i);
            }
        }
        assert(here =~= whole);
    }
}

/// Draws the line from `(x1, y1)` to `(x2, y2)` into `buffer`, a pixel grid
/// laid out in rows of `width`, by the integer midpoint method. Both end
/// points belong to the line. A point outside the grid is skipped.
pub fn draw_line_bresenham(
    x1: i32,
    y1: i32,
    x2: i32,
    y2: i32,
    color: u32,
    buffer: &mut [u32],
    width: usize,
)
    ensures
        final(buffer)@ == with_line(
            old(buffer)@,
            width as int,
            x1 as int,
            y1 as int,
            x2 as int,
            y2 as int,
            color,
        ),
{
    let dx: i64 = if x1 < x2 {
        x2 as i64 - x1 as i64
    } else {
        x1 as i64 - x2 as i64
    };
    let dy: i64 = if y1 < y2 {
        y2 as i64 - y1 as i64
    } else {
        y1 as i64 - y2 as i64
    };
    let sx: i64 = if x1 < x2 {
        1
    } else {
        -1
    };
    let sy: i64 = if y1 < y2 {
        1
    } else {
        -1
    };
    let mut x: i64 = x1 as i64;
    let mut y: i64 = y1 as i64;
    let mut err: i64 = if dx > dy {
        dx / 2
    } else {
        -(dy / 2)
    };
    let len: usize = buffer.len();
    let ghost before = buffer@;
    let ghost steps = line_steps(x1 as int, y1 as int, x2 as int, y2 as int);
    let ghost mut a: int = 0;
    let ghost mut b: int = 0;
    let ghost mut k: int = 0;
    proof {
        lemma_line_prefix_step(
            before,
            width as int,
            x1 as int,
            y1 as int,
            x2 as int,
            y2 as int,
            0,
            color,
        );
        assert(0 * dy == 0 && 0 * dx == 0);
    }
    loop
        invariant_except_break
            0 <= a <= dx,
            0 <= b <= dy,
            k == (if dx > dy {
                a
            } else {
                b
            }),
            x == toward(x1 as int, x2 as int, a),
            y == toward(y1 as int, y2 as int, b),
            dx > dy ==> 0 <= err < dx && err == dx / 2 - a * dy + b * dx,
            dx <= dy && dy > 0 ==> -dy < err <= 0 && err == -(dy / 2) - a * dy + b * dx,
            dx == 0 && dy == 0 ==> a == 0 && b == 0,
            buffer@ == line_prefix(
                before,
                width as int,
                x1 as int,
                y1 as int,
                x2 as int,
                y2 as int,
                k,
                color,
            ),
        invariant
            dx == distance(x1 as int, x2 as int),
            dy == distance(y1 as int, y2 as int),
            sx == (if x1 < x2 {
                1i64
            } else {
                -1i64
            }),
            sy == (if y1 < y2 {
                1i64
            } else {
                -1i64
            }),
            steps == line_steps(x1 as int, y1 as int, x2 as int, y2 as int),
            len == before.len(),
            buffer@.len() == len,
        ensures
            buffer@ == with_line(
                before,
                width as int,
                x1 as int,
                y1 as int,
                x2 as int,
                y2 as int,
                color,
            ),
        decreases steps - k,
    {
        proof {
            if dx > dy {
                lemma_minor_offset(a, dy as int, dx as int, b, dx - 1 - err);
            } else if dy > 0 {
                lemma_minor_offset(b, dx as int, dy as int, a, dy - 1 + err);
            }
            assert((x as int, y as int) == line_point(
                x1 as int,
                y1 as int,
                x2 as int,
                y2 as int,
                k,
            ));
            lemma_line_prefix_step(
                before,
                width as int,
                x1 as int,
                y1 as int,
                x2 as int,
                y2 as int,
                k,
                color,
            );
        }
        if x >= 0 && y >= 0 && (x as u128) < (width as u128) {
            assert(y * width <= 0x7fff_ffff * 0xffff_ffff_ffff_ffff) by (nonlinear_arith)
                requires
                    0 <= y <= 0x7fff_ffff,
                    0 <= width <= 0xffff_ffff_ffff_ffff,
            ;
            let index: u128 = (y as u128) * (width as u128) + (x as u128);
            if index < len as u128 {
                buffer[index as usize] = color;
            }
        }
        if x == x2 as i64 && y == y2 as i64 {
            break ;
        }
        proof {
            lemma_minor_offset_ends(
                if dx > dy {
                    dy as int
                } else {
                    dx as int
                },
                steps,
            );
            if dx > dy {
                if a == dx {
                    lemma_minor_offset(a, dy as int, dx as int, b, dx - 1 - err);
                }
                assert(a < dx);
            } else {
                if b == dy {
                    lemma_minor_offset(b, dx as int, dy as int, a, dy - 1 + err);
                }
                assert(b < dy);
            }
        }
        let err2: i64 = err;
        if err2 > -dx {
            proof {
                if dx <= dy {
                    assert(a < dx) by (nonlinear_arith)
                        requires
                            err2 == -(dy / 2) - a * dy + b * dx,
                            err2 > -dx,
                            0 <= b < dy,
                            0 <= a,
                            0 <= dx <= dy,
                    ;
                }
                assert((a + 1) * dy == a * dy + dy) by (nonlinear_arith);
                a = a + 1;
            }
            err = err - dy;
            x = x + sx;
        }
        if err2 < dy {
            proof {
                if dx > dy {
                    assert(b < dy) by (nonlinear_arith)
                        requires
                            err2 == dx / 2 - (a - 1) * dy + b * dx,
                            err2 < dy,
                            0 <= a - 1 < dx,
                            0 <= b,
                            0 <= dy < dx,
                    ;
                }
                assert((b + 1) * dx == b * dx + dx) by (nonlinear_arith);
                b = b + 1;
            }
            err = err + dx;
            y = y + sy;
        }
        proof {
            k = k + 1;
        }
    }
}

impl Framebuffer {
    /// Plots one pixel; a coordinate outside the grid is ignored.
    pub fn plot(&mut self, x: usize, y: usize, color: u32)
        requires
            old(self).wf(),
        ensures
            final(self).wf(),
            final(self).width == old(self).width,
            final(self).height == old(self).height,
            final(self).pixels@ == with_pixel(
                old(self).pixels@,
                old(self).width as int,
                old(self).height as int,
                x as int,
                y as int,
                color,
            ),
    {
        self.set(x, y, color);
    }

    /// Fills the half-open box `x1 <= x < x2`, `y1 <= y < y2` with `color`.
    /// The corners are taken as given: a box whose second corner lies before
    /// its first on either axis is empty. Cells outside the grid are skipped.
    pub fn fill_rect(&mut self, x1: usize, y1: usize, x2: usize, y2: usize, color: u32)
        requires
            old(self).wf(),
        ensures
            final(self).wf(),
            final(self).width == old(self).width,
            final(self).height == old(self).height,
            final(self).pixels@ == with_rect(
                old(self).pixels@,
                old(self).width as int,
                x1 as int,
                y1 as int,
                x2 as int,
                y2 as int,
                color,
            ),
    {
        let x_end: usize = if x2 < self.width {
            x2
        } else {
            self.width
        };
        let y_end: usize = if y2 < self.height {
            y2
        } else {
            self.height
        };
        let ghost before = self.pixels@;
        let ghost w = self.width as int;
        let ghost h = self.height as int;
        let mut cy: usize = y1;
        proof {
            lemma_rect_prefix_ends(
                before,
                w,
                h,
                x1 as int,
                y1 as int,
                x2 as int,
                y2 as int,
                cy as int,
                color,
            );
        }
        while cy < y_end
            invariant
                self.wf(),
                self.width == w,
                self.height == h,
                before.len() == w * h,
                y1 <= cy,
                x_end <= x2,
                x_end <= w,
                x_end == x2 || x_end == w,
                y_end <= y2,
                y_end <= h,
                self.pixels@ == rect_prefix(
                    before,
                    w,
                    x1 as int,
                    y1 as int,
                    x2 as int,
                    y2 as int,
                    cy as int,
                    x1 as int,
                    color,
                ),
            decreases y_end - cy,
        {
            let mut cx: usize = x1;
            while cx < x_end
                invariant
                    self.wf(),
                    self.width == w,
                    self.height == h,
                    before.len() == w * h,
                    y1 <= cy < y_end,
                    x1 <= cx,
                    x_end <= x2,
                    x_end <= w,
                    y_end <= y2,
                    y_end <= h,
                    self.pixels@ == rect_prefix(
                        before,
                        w,
                        x1 as int,
                        y1 as int,
                        x2 as int,
                        y2 as int,
                        cy as int,
                        cx as int,
                        color,
                    ),
                decreases x_end - cx,
            {
                proof {
                    lemma_rect_prefix_step(
                        before,
                        w,
                        h,
                        x1 as int,
                        y1 as int,
                        x2 as int,
                        y2 as int,
                        cy as int,
                        cx as int,
                        color,
                    );
                }
                self.set(cx, cy, color);
                cx = cx + 1;
            }
            proof {
                lemma_rect_prefix_row(
                    before,
                    w,
                    h,
                    x1 as int,
                    y1 as int,
                    x2 as int,
                    y2 as int,
                    cy as int,
                    cx as int,
                    color,
                );
            }
            cy = cy + 1;
        }
        proof {
            lemma_rect_prefix_ends(
                before,
                w,
                h,
                x1 as int,
                y1 as int,
                x2 as int,
                y2 as int,
                cy as int,
                color,
            );
        }
    }

    /// Draws the line from `(x1, y1)` to `(x2, y2)` in `color`.
    pub fn draw_line(&mut self, x1: i32, y1: i32, x2: i32, y2: i32, color: u32)
        requires
            old(self).wf(),
        ensures
            final(self).wf(),
            final(self).width == old(self).width,
            final(self).height == old(self).height,
            final(self).pixels@ == with_line(
                old(self).pixels@,
                old(self).width as int,
                x1 as int,
                y1 as int,
                x2 as int,
                y2 as int,
                color,
            ),
    {
        let width: usize = self.width;
        draw_line_bresenham(x1, y1, x2, y2, color, self.pixels.as_mut_slice(), width);
    }
}

} // verus!
