//! Laws that relate the drawing operations to one another.

use crate::command::{Color, Command};
use crate::engine::{
    after_receive_all, apply_all, apply_one, next_queue, Buffered, Canvas,
};
use crate::framebuffer::{lemma_cell_in_grid, resized, solid};
use crate::raster::{
    distance, lemma_minor_offset_ends, line_cell, line_covers, line_point,
    line_steps, rect_covers, with_line, with_rect,
};
use vstd::arithmetic::div_mod::{lemma_fundamental_div_mod, lemma_fundamental_div_mod_converse};
use vstd::prelude::*;
use vstd::set_lib::{lemma_int_range, lemma_set_disjoint_lens, set_int_range};

verus! {

/// Whether a command plots the pixel at `(x, y)`.
pub open spec fn plots_at(command: Command, x: int, y: int) -> bool {
    match command {
        Command::SetPixel { x: px, y: py, color } => px == x && py == y,
        _ => false,
    }
}

/// The colour that a pixel command plots.
pub open spec fn plotted_color(command: Command) -> Color {
    match command {
        Command::SetPixel { x, y, color } => color,
        _ => Color { r: 0, g: 0, b: 0 },
    }
}

/// The cells of the half-open box between two corners, as linear indices.
pub open spec fn rect_cells(width: int, x1: int, y1: int, x2: int, y2: int) -> Set<int> {
    Set::new(|i: int| rect_covers(width, x1, y1, x2, y2, i))
}

/// A batch applied up to and including a command is the batch applied up to
/// that command, followed by the command.
pub proof fn lemma_apply_all_step(c: Canvas, commands: Seq<Command>, j: int)
    requires
        0 <= j < commands.len(),
    ensures
        apply_all(c, commands.take(j + 1)) == apply_one(
            apply_all(c, commands.take(j)),
            commands[j],
        ),
{
    assert(commands.take(j + 1).drop_last() =~= commands.take(j));
}

/// Applying two batches one after the other is applying them as one batch.
pub proof fn lemma_apply_all_concat(c: Canvas, first: Seq<Command>, second: Seq<Command>)
    ensures
        apply_all(c, first + second) == apply_all(apply_all(c, first), second),
    decreases second.len(),
{
    if second.len() == 0 {
        assert(first + second =~= first);
    } else {
        lemma_apply_all_concat(c, first, second.drop_last());
        assert((first + second).drop_last() =~= first + second.drop_last());
        assert((first + second).last() == second.last());
    }
}

/// No batch of commands changes the extent of the canvas.
pub proof fn lemma_apply_all_keeps_extent(c: Canvas, commands: Seq<Command>)
    ensures
        apply_all(c, commands).width == c.width,
        apply_all(c, commands).height == c.height,
        apply_all(c, commands).pixels.len() == c.pixels.len(),
    decreases commands.len(),
{
    if commands.len() > 0 {
        lemma_apply_all_keeps_extent(c, commands.drop_last());
    }
}

/// Two coordinates inside a grid share a linear index only if they are the
/// same coordinate.
pub proof fn lemma_cell_index_is_injective(width: int, xa: int, ya: int, xb: int, yb: int)
    requires
        0 <= xa < width,
        0 <= xb < width,
        ya * width + xa == yb * width + xb,
    ensures
        xa == xb,
        ya == yb,
{
    lemma_fundamental_div_mod_converse(ya * width + xa, width, ya, xa);
    lemma_fundamental_div_mod_converse(yb * width + xb, width, yb, xb);
}

/// In a batch of pixel commands that all lie inside the canvas, the last
/// command written for a coordinate decides the pixel there: if no command
/// after position `j` plots where command `j` plots, the canvas holds the
/// colour of command `j` at that coordinate once the batch is applied.
pub proof fn lemma_last_set_pixel_wins(c: Canvas, commands: Seq<Command>, j: int, x: int, y: int)
    requires
        c.pixels.len() == c.width * c.height,
        0 <= x < c.width,
        0 <= y < c.height,
        forall|i: int|
            0 <= i < commands.len() ==> (#[trigger] commands[i] matches Command::SetPixel {
                x: px,
                y: py,
                color,
            } && px < c.width && py < c.height),
        0 <= j < commands.len(),
        plots_at(commands[j], x, y),
        forall|i: int| j < i < commands.len() ==> !plots_at(#[trigger] commands[i], x, y),
    ensures
        0 <= y * c.width + x < c.pixels.len(),
        apply_all(c, commands).pixels.len() == c.pixels.len(),
        apply_all(c, commands).pixels[y * c.width + x] == plotted_color(commands[j]).packed(),
    decreases commands.len(),
{
    let front = commands.drop_last();
    let last = commands.last();
    lemma_cell_in_grid(c.width, c.height, x, y);
    lemma_apply_all_keeps_extent(c, front);
    lemma_apply_all_keeps_extent(c, commands);
    assert(commands[commands.len() - 1] is SetPixel);
    if j < commands.len() - 1 {
        assert forall|i: int| 0 <= i < front.len() implies (#[trigger] front[i] matches Command::SetPixel {
            x: px,
            y: py,
            color,
        } && px < c.width && py < c.height) by {
            assert(front[i] == commands[i]);
        }
        assert forall|i: int| j < i < front.len() implies !plots_at(#[trigger] front[i], x, y) by {
            assert(front[i] == commands[i]);
        }
        assert(front[j] == commands[j]);
        lemma_last_set_pixel_wins(c, front, j, x, y);
        assert(!plots_at(commands[commands.len() - 1], x, y));
        match last {
            Command::SetPixel { x: px, y: py, color } => {
                if py * c.width + px == y * c.width + x {
                    lemma_cell_index_is_injective(c.width, px as int, py as int, x, y);
                }
            },
            _ => {},
        }
    }
}

/// In a batch of pixel commands, a coordinate that no command plots keeps the
/// pixel it had.
pub proof fn lemma_unplotted_pixel_stays(c: Canvas, commands: Seq<Command>, x: int, y: int)
    requires
        c.pixels.len() == c.width * c.height,
        0 <= x < c.width,
        0 <= y < c.height,
        forall|i: int|
            0 <= i < commands.len() ==> (#[trigger] commands[i] matches Command::SetPixel {
                x: px,
                y: py,
                color,
            } && px < c.width && py < c.height),
        forall|i: int| 0 <= i < commands.len() ==> !plots_at(#[trigger] commands[i], x, y),
    ensures
        0 <= y * c.width + x < c.pixels.len(),
        apply_all(c, commands).pixels.len() == c.pixels.len(),
        apply_all(c, commands).pixels[y * c.width + x] == c.pixels[y * c.width + x],
    decreases commands.len(),
{
    lemma_cell_in_grid(c.width, c.height, x, y);
    lemma_apply_all_keeps_extent(c, commands);
    if commands.len() > 0 {
        let front = commands.drop_last();
        let last = commands.last();
        lemma_apply_all_keeps_extent(c, front);
        assert forall|i: int| 0 <= i < front.len() implies (#[trigger] front[i] matches Command::SetPixel {
            x: px,
            y: py,
            color,
        } && px < c.width && py < c.height) by {
            assert(front[i] == commands[i]);
        }
        assert forall|i: int| 0 <= i < front.len() implies !plots_at(#[trigger] front[i], x, y) by {
            assert(front[i] == commands[i]);
        }
        lemma_unplotted_pixel_stays(c, front, x, y);
        assert(commands[commands.len() - 1] is SetPixel);
        assert(!plots_at(commands[commands.len() - 1], x, y));
        match last {
            Command::SetPixel { x: px, y: py, color } => {
                if py * c.width + px == y * c.width + x {
                    lemma_cell_index_is_injective(c.width, px as int, py as int, x, y);
                }
            },
            _ => {},
        }
    }
}

/// A batch that ends in a flush leaves every pixel of the canvas at zero,
/// whatever the canvas held and whatever came before the flush.
pub proof fn lemma_flush_clears(c: Canvas, commands: Seq<Command>)
    requires
        commands.len() > 0,
        commands.last() == Command::Flush,
    ensures
        apply_all(c, commands).pixels == solid(c.pixels.len(), 0),
        forall|i: int| 0 <= i < c.pixels.len() ==> apply_all(c, commands).pixels[i] == 0,
{
    lemma_apply_all_keeps_extent(c, commands.drop_last());
}

/// The cells of one row of a box are a run of consecutive linear indices.
proof fn lemma_rect_row(width: int, x1: int, x2: int, y: int)
    requires
        0 <= x1 <= x2 <= width,
        0 <= y,
    ensures
        rect_cells(width, x1, y, x2, y + 1) == set_int_range(y * width + x1, y * width + x2),
{
    let row = rect_cells(width, x1, y, x2, y + 1);
    let run = set_int_range(y * width + x1, y * width + x2);
    assert forall|i: int| row.contains(i) <==> run.contains(i) by {
        if row.contains(i) {
            lemma_fundamental_div_mod(i, width);
            assert(width * y == y * width) by (nonlinear_arith);
        }
        if run.contains(i) {
            lemma_fundamental_div_mod_converse(i, width, y, i - y * width);
        }
    }
    assert(row =~= run);
}

/// A box that lies inside the grid covers exactly `(x2 - x1) * (y2 - y1)`
/// cells, all of them cells of the grid.
pub proof fn lemma_rect_cell_count(width: int, height: int, x1: int, y1: int, x2: int, y2: int)
    requires
        0 <= x1 <= x2 <= width,
        0 <= y1 <= y2 <= height,
    ensures
        rect_cells(width, x1, y1, x2, y2).finite(),
        rect_cells(width, x1, y1, x2, y2).len() == (x2 - x1) * (y2 - y1),
        forall|i: int| #[trigger]
            rect_cells(width, x1, y1, x2, y2).contains(i) ==> 0 <= i < width * height,
    decreases y2 - y1,
{
    let cells = rect_cells(width, x1, y1, x2, y2);
    assert forall|i: int| #[trigger] cells.contains(i) implies 0 <= i < width * height by {
        lemma_fundamental_div_mod(i, width);
        assert(0 <= width * (i / width) + i % width < width * height) by (nonlinear_arith)
            requires
                0 <= i % width < width,
                0 <= i / width < height,
        ;
    }
    if y1 == y2 {
        assert(cells =~= Set::<int>::empty());
        assert((x2 - x1) * (y2 - y1) == 0) by (nonlinear_arith)
            requires
                y2 - y1 == 0,
        ;
    } else {
        let above = rect_cells(width, x1, y1, x2, y2 - 1);
        let row = rect_cells(width, x1, y2 - 1, x2, y2);
        lemma_rect_cell_count(width, height, x1, y1, x2, y2 - 1);
        lemma_rect_row(width, x1, x2, y2 - 1);
        lemma_int_range((y2 - 1) * width + x1, (y2 - 1) * width + x2);
        assert(cells =~= above + row);
        assert(above.disjoint(row));
        lemma_set_disjoint_lens(above, row);
        assert((x2 - x1) * (y2 - 1 - y1) + (x2 - x1) == (x2 - x1) * (y2 - y1))
            by (nonlinear_arith);
    }
}

/// Filling a box sets the cells of the box to the colour and leaves every
/// other cell as it was. A box whose second corner does not lie past its
/// first on both axes has no cells, and filling it changes nothing.
pub proof fn lemma_rect_fills_its_cells(
    pixels: Seq<u32>,
    width: int,
    x1: int,
    y1: int,
    x2: int,
    y2: int,
    color: u32,
)
    ensures
        forall|i: int|
            0 <= i < pixels.len() ==> #[trigger] with_rect(pixels, width, x1, y1, x2, y2, color)[i]
                == (if rect_cells(width, x1, y1, x2, y2).contains(i) {
                color
            } else {
                pixels[i]
            }),
        x2 <= x1 || y2 <= y1 ==> rect_cells(width, x1, y1, x2, y2) == Set::<int>::empty(),
        x2 <= x1 || y2 <= y1 ==> with_rect(pixels, width, x1, y1, x2, y2, color) == pixels,
{
    if x2 <= x1 || y2 <= y1 {
        assert(rect_cells(width, x1, y1, x2, y2) =~= Set::<int>::empty());
        assert(with_rect(pixels, width, x1, y1, x2, y2, color) =~= pixels);
    }
}

/// On a grid of `width` by `height` pixels a point of a line is drawn exactly
/// when its coordinate lies in the grid, and then at the linear index of that
/// coordinate.
pub proof fn lemma_line_cell_in_grid(
    width: int,
    height: int,
    x1: int,
    y1: int,
    x2: int,
    y2: int,
    k: int,
)
    requires
        0 <= width,
        0 <= height,
    ensures
        ({
            let (x, y) = line_point(x1, y1, x2, y2, k);
            line_cell(width, width * height, x1, y1, x2, y2, k) == (if 0 <= x < width && 0 <= y
                < height {
                y * width + x
            } else {
                -1
            })
        }),
{
    let (x, y) = line_point(x1, y1, x2, y2, k);
    if 0 <= x < width && 0 <= y {
        if y < height {
            lemma_cell_in_grid(width, height, x, y);
        } else {
            assert(y * width + x >= width * height) by (nonlinear_arith)
                requires
                    0 <= x,
                    0 <= width,
                    height <= y,
            ;
        }
    }
}

/// A line starts at its first end point and, after its last step, stands at
/// its second.
pub proof fn lemma_line_ends(x1: int, y1: int, x2: int, y2: int)
    ensures
        0 <= line_steps(x1, y1, x2, y2),
        line_point(x1, y1, x2, y2, 0) == (x1, y1),
        line_point(x1, y1, x2, y2, line_steps(x1, y1, x2, y2)) == (x2, y2),
{
    let dx = distance(x1, x2);
    let dy = distance(y1, y2);
    if dx > dy {
        lemma_minor_offset_ends(dy, dx);
    } else if dy > 0 {
        lemma_minor_offset_ends(dx, dy);
    }
}

/// Drawing a line colours both of its end points, where they lie inside the
/// buffer.
pub proof fn lemma_line_includes_end_points(
    pixels: Seq<u32>,
    width: int,
    x1: int,
    y1: int,
    x2: int,
    y2: int,
    color: u32,
)
    ensures
        with_line(pixels, width, x1, y1, x2, y2, color).len() == pixels.len(),
        0 <= x1 < width && 0 <= y1 && y1 * width + x1 < pixels.len() ==> with_line(
            pixels,
            width,
            x1,
            y1,
            x2,
            y2,
            color,
        )[y1 * width + x1] == color,
        0 <= x2 < width && 0 <= y2 && y2 * width + x2 < pixels.len() ==> with_line(
            pixels,
            width,
            x1,
            y1,
            x2,
            y2,
            color,
        )[y2 * width + x2] == color,
{
    let steps = line_steps(x1, y1, x2, y2);
    let len = pixels.len() as int;
    lemma_line_ends(x1, y1, x2, y2);
    if 0 <= x1 < width && 0 <= y1 && y1 * width + x1 < pixels.len() {
        assert(0 <= y1 * width) by (nonlinear_arith)
            requires
                0 <= y1,
                0 <= width,
        ;
        assert(line_cell(width, len, x1, y1, x2, y2, 0) == y1 * width + x1);
        assert(line_covers(width, len, x1, y1, x2, y2, steps + 1, y1 * width + x1));
    }
    if 0 <= x2 < width && 0 <= y2 && y2 * width + x2 < pixels.len() {
        assert(0 <= y2 * width) by (nonlinear_arith)
            requires
                0 <= y2,
                0 <= width,
        ;
        assert(line_cell(width, len, x1, y1, x2, y2, steps) == y2 * width + x2);
        assert(line_covers(width, len, x1, y1, x2, y2, steps + 1, y2 * width + x2));
    }
}

/// Drawing the same line in the same colour a second time changes nothing.
pub proof fn lemma_draw_line_is_idempotent(
    pixels: Seq<u32>,
    width: int,
    x1: int,
    y1: int,
    x2: int,
    y2: int,
    color: u32,
)
    ensures
        with_line(with_line(pixels, width, x1, y1, x2, y2, color), width, x1, y1, x2, y2, color)
            == with_line(pixels, width, x1, y1, x2, y2, color),
{
    let once = with_line(pixels, width, x1, y1, x2, y2, color);
    let twice = with_line(once, width, x1, y1, x2, y2, color);
    assert(twice =~= once);
}

/// A colour that was set stays the current colour until the next command that
/// sets one: every rectangle and line between the two is drawn in it.
pub proof fn lemma_color_persists(c: Canvas, commands: Seq<Command>, i: int, j: int)
    requires
        0 <= i < j <= commands.len(),
        commands[i] is SetColor,
        forall|k: int| i < k < j ==> !(#[trigger] commands[k] is SetColor),
    ensures
        commands[i] == Command::SetColor(apply_all(c, commands.take(j)).color),
    decreases j - i,
{
    lemma_apply_all_step(c, commands, j - 1);
    assert(commands.take(j - 1 + 1) == commands.take(j));
    if i < j - 1 {
        lemma_color_persists(c, commands, i, j - 1);
        assert(!(commands[j - 1] is SetColor));
    }
}

/// A rectangle or a line is drawn in the colour of the last command before
/// it that set one, on the canvas as the commands before it left it.
pub proof fn lemma_draw_uses_last_set_color(
    c: Canvas,
    commands: Seq<Command>,
    i: int,
    j: int,
    color: Color,
)
    requires
        0 <= i < j < commands.len(),
        commands[i] == Command::SetColor(color),
        forall|k: int| i < k < j ==> !(#[trigger] commands[k] is SetColor),
    ensures
        commands[j] matches Command::DrawRect { x1, y1, x2, y2 } ==> apply_all(
            c,
            commands.take(j + 1),
        ).pixels == with_rect(
            apply_all(c, commands.take(j)).pixels,
            c.width,
            x1 as int,
            y1 as int,
            x2 as int,
            y2 as int,
            color.packed(),
        ),
        commands[j] matches Command::DrawLine { x1, y1, x2, y2 } ==> apply_all(
            c,
            commands.take(j + 1),
        ).pixels == with_line(
            apply_all(c, commands.take(j)).pixels,
            c.width,
            x1 as int,
            y1 as int,
            x2 as int,
            y2 as int,
            color.packed(),
        ),
{
    lemma_color_persists(c, commands, i, j);
    lemma_apply_all_step(c, commands, j);
    lemma_apply_all_keeps_extent(c, commands.take(j));
}

/// Without a command that sets a colour, the current colour stays what it
/// was.
pub proof fn lemma_color_stays(c: Canvas, commands: Seq<Command>)
    requires
        forall|k: int| 0 <= k < commands.len() ==> !(#[trigger] commands[k] is SetColor),
    ensures
        apply_all(c, commands).color == c.color,
    decreases commands.len(),
{
    if commands.len() > 0 {
        let front = commands.drop_last();
        assert forall|k: int| 0 <= k < front.len() implies !(#[trigger] front[k] is SetColor) by {
            assert(front[k] == commands[k]);
        }
        lemma_color_stays(c, front);
        assert(!(commands[commands.len() - 1] is SetColor));
    }
}

/// Commands that end no frame wait in the buffer, in the order in which they
/// were received, and leave the canvas untouched.
pub proof fn lemma_commands_wait_for_boundary(s: Buffered, commands: Seq<Command>)
    requires
        forall|k: int| 0 <= k < commands.len() ==> !(#[trigger] commands[k]).is_boundary(),
    ensures
        after_receive_all(s, commands) == (Buffered {
            canvas: s.canvas,
            queue: s.queue + commands,
        }),
    decreases commands.len(),
{
    if commands.len() == 0 {
        assert(s.queue + commands =~= s.queue);
    } else {
        let front = commands.drop_last();
        assert forall|k: int| 0 <= k < front.len() implies !(#[trigger] front[k]).is_boundary() by {
            assert(front[k] == commands[k]);
        }
        lemma_commands_wait_for_boundary(s, front);
        assert(!commands[commands.len() - 1].is_boundary());
        assert((s.queue + front).push(commands.last()) =~= s.queue + commands);
    }
}

/// A frame is applied as a whole: when a command ends the frame, every
/// command received since the last boundary is applied once, in the order of
/// receipt, after what the buffer held before.
pub proof fn lemma_frame_applies_in_order(s: Buffered, commands: Seq<Command>, boundary: Command)
    requires
        forall|k: int| 0 <= k < commands.len() ==> !(#[trigger] commands[k]).is_boundary(),
        boundary.is_boundary(),
    ensures
        after_receive_all(s, commands.push(boundary)) == (Buffered {
            canvas: apply_all(s.canvas, s.queue + commands),
            queue: next_queue(boundary),
        }),
{
    lemma_commands_wait_for_boundary(s, commands);
    assert(commands.push(boundary).drop_last() =~= commands);
}

/// The frame after a flush starts from a cleared canvas; the frame after a
/// new-frame command starts from the canvas as it was.
pub proof fn lemma_next_frame_starts(c: Canvas, commands: Seq<Command>)
    ensures
        apply_all(c, next_queue(Command::Flush) + commands) == apply_all(
            Canvas { pixels: solid(c.pixels.len(), 0), ..c },
            commands,
        ),
        apply_all(c, next_queue(Command::NewFrame) + commands) == apply_all(c, commands),
{
    let flush = next_queue(Command::Flush);
    let keep = next_queue(Command::NewFrame);
    lemma_apply_all_concat(c, flush, commands);
    lemma_apply_all_concat(c, keep, commands);
    assert(flush.drop_last() =~= seq![Command::Flush]);
    assert(seq![Command::Flush].drop_last() =~= Seq::<Command>::empty());
    assert(keep.drop_last() =~= Seq::<Command>::empty());
    reveal_with_fuel(apply_all, 3);
    assert(apply_all(c, keep) == c);
    let cleared = Canvas { pixels: solid(c.pixels.len(), 0), ..c };
    assert(apply_all(c, seq![Command::Flush]) == cleared);
    assert(solid(cleared.pixels.len(), 0) =~= cleared.pixels);
    assert(apply_all(c, flush) == cleared);
}

/// A change of extent keeps every pixel whose linear index exists before and
/// after it, and zeroes the pixels that are new.
pub proof fn lemma_resize_keeps_linear_index(pixels: Seq<u32>, len: nat, i: int)
    requires
        0 <= i < len,
    ensures
        resized(pixels, len).len() == len,
        i < pixels.len() ==> resized(pixels, len)[i] == pixels[i],
        i >= pixels.len() ==> resized(pixels, len)[i] == 0,
{
}

} // verus!
