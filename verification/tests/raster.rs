use render_engine::framebuffer::Framebuffer;
use render_engine::raster::{draw_line_bresenham, pack_color};

fn lit(fb: &Framebuffer, color: u32) -> Vec<(usize, usize)> {
    let mut cells = Vec::new();
    for y in 0..fb.height {
        for x in 0..fb.width {
            if fb.get(x, y) == Some(color) {
                cells.push((x, y));
            }
        }
    }
    cells
}

#[test]
fn pack_color_folds_channels_by_left_shift() {
    assert_eq!(pack_color(255, 0, 0), 0x00ff_0000);
    assert_eq!(pack_color(0, 255, 0), 0x0000_ff00);
    assert_eq!(pack_color(0, 0, 255), 0x0000_00ff);
    assert_eq!(pack_color(0x12, 0x34, 0x56), 0x0012_3456);
    assert_eq!(pack_color(0, 0, 0), 0);
}

#[test]
fn pack_color_drops_bits_shifted_out() {
    assert_eq!(pack_color(0x1_0000, 0, 0), 0);
    assert_eq!(pack_color(0x1_00ff, 0x100, 1), 0x00ff_0000 | 0x1_0000 | 1);
}

#[test]
fn new_framebuffer_is_zero_filled() {
    let fb = Framebuffer::new(3, 2);
    assert_eq!(fb.width, 3);
    assert_eq!(fb.height, 2);
    assert_eq!(fb.pixels, vec![0u32; 6]);
}

#[test]
fn set_writes_row_major_and_ignores_out_of_range() {
    let mut fb = Framebuffer::new(3, 2);
    fb.set(1, 1, 9);
    assert_eq!(fb.pixels, vec![0, 0, 0, 0, 9, 0]);
    fb.set(3, 0, 5);
    fb.set(0, 2, 5);
    fb.set(usize::MAX, usize::MAX, 5);
    assert_eq!(fb.pixels, vec![0, 0, 0, 0, 9, 0]);
    assert_eq!(fb.get(1, 1), Some(9));
    assert_eq!(fb.get(3, 0), None);
    assert_eq!(fb.get(0, 2), None);
}

#[test]
fn plot_is_a_bounds_checked_set() {
    let mut fb = Framebuffer::new(2, 2);
    fb.plot(1, 0, 4);
    fb.plot(2, 0, 4);
    assert_eq!(fb.pixels, vec![0, 4, 0, 0]);
}

#[test]
fn fill_overwrites_every_pixel() {
    let mut fb = Framebuffer::new(2, 2);
    fb.set(0, 0, 1);
    fb.fill(7);
    assert_eq!(fb.pixels, vec![7, 7, 7, 7]);
    fb.fill(0);
    assert_eq!(fb.pixels, vec![0, 0, 0, 0]);
}

#[test]
fn resize_keeps_content_by_linear_index() {
    let mut fb = Framebuffer::new(2, 2);
    fb.pixels = vec![1, 2, 3, 4];
    fb.resize(3, 2);
    assert_eq!(fb.width, 3);
    assert_eq!(fb.height, 2);
    assert_eq!(fb.pixels, vec![1, 2, 3, 4, 0, 0]);
    assert_eq!(fb.get(2, 0), Some(3));
    fb.resize(1, 3);
    assert_eq!(fb.pixels, vec![1, 2, 3]);
    fb.resize(0, 5);
    assert_eq!(fb.pixels, Vec::<u32>::new());
}

#[test]
fn fill_rect_uses_half_open_ranges() {
    let mut fb = Framebuffer::new(4, 4);
    fb.fill_rect(1, 1, 3, 4, 8);
    assert_eq!(
        lit(&fb, 8),
        vec![(1, 1), (2, 1), (1, 2), (2, 2), (1, 3), (2, 3)]
    );
    assert_eq!(lit(&fb, 8).len(), (3 - 1) * (4 - 1));
}

#[test]
fn fill_rect_with_reversed_or_equal_corners_draws_nothing() {
    let mut fb = Framebuffer::new(4, 4);
    fb.fill_rect(2, 0, 1, 4, 8);
    fb.fill_rect(0, 3, 4, 1, 8);
    fb.fill_rect(2, 2, 2, 4, 8);
    fb.fill_rect(0, 2, 4, 2, 8);
    assert_eq!(fb.pixels, vec![0u32; 16]);
}

#[test]
fn fill_rect_skips_cells_outside_the_grid() {
    let mut fb = Framebuffer::new(3, 2);
    fb.fill_rect(2, 1, usize::MAX, usize::MAX, 5);
    assert_eq!(fb.pixels, vec![0, 0, 0, 0, 0, 5]);
    fb.fill_rect(3, 0, 10, 10, 6);
    assert_eq!(fb.pixels, vec![0, 0, 0, 0, 0, 5]);
}

#[test]
fn draw_line_diagonal_sets_exactly_the_diagonal() {
    let mut fb = Framebuffer::new(4, 4);
    fb.fill(9);
    fb.draw_line(0, 0, 3, 3, 0);
    assert_eq!(lit(&fb, 0), vec![(0, 0), (1, 1), (2, 2), (3, 3)]);
    assert_eq!(lit(&fb, 9).len(), 12);
}

#[test]
fn draw_line_shallow_slope_steps_at_the_midpoint() {
    let mut fb = Framebuffer::new(6, 3);
    fb.draw_line(0, 0, 5, 2, 1);
    assert_eq!(
        lit(&fb, 1),
        vec![(0, 0), (1, 0), (2, 1), (3, 1), (4, 2), (5, 2)]
    );
}

#[test]
fn draw_line_steep_slope_steps_at_the_midpoint() {
    let mut fb = Framebuffer::new(3, 6);
    fb.draw_line(0, 0, 2, 5, 1);
    assert_eq!(
        lit(&fb, 1),
        vec![(0, 0), (0, 1), (1, 2), (1, 3), (2, 4), (2, 5)]
    );
}

#[test]
fn draw_line_runs_in_every_direction() {
    let mut fb = Framebuffer::new(4, 4);
    fb.draw_line(3, 3, 0, 0, 1);
    assert_eq!(lit(&fb, 1), vec![(0, 0), (1, 1), (2, 2), (3, 3)]);
    let mut fb = Framebuffer::new(4, 4);
    fb.draw_line(3, 0, 0, 3, 1);
    assert_eq!(lit(&fb, 1), vec![(3, 0), (2, 1), (1, 2), (0, 3)]);
    let mut fb = Framebuffer::new(4, 4);
    fb.draw_line(3, 1, 0, 1, 1);
    assert_eq!(lit(&fb, 1), vec![(0, 1), (1, 1), (2, 1), (3, 1)]);
    let mut fb = Framebuffer::new(4, 4);
    fb.draw_line(2, 3, 2, 0, 1);
    assert_eq!(lit(&fb, 1), vec![(2, 0), (2, 1), (2, 2), (2, 3)]);
    let mut fb = Framebuffer::new(6, 3);
    fb.draw_line(5, 2, 0, 0, 1);
    assert_eq!(
        lit(&fb, 1),
        vec![(0, 0), (1, 0), (2, 1), (3, 1), (4, 2), (5, 2)]
    );
}

#[test]
fn draw_line_of_one_point_sets_that_point() {
    let mut fb = Framebuffer::new(3, 3);
    fb.draw_line(1, 2, 1, 2, 6);
    assert_eq!(lit(&fb, 6), vec![(1, 2)]);
}

#[test]
fn draw_line_includes_both_end_points() {
    let mut fb = Framebuffer::new(8, 8);
    fb.draw_line(1, 6, 7, 2, 3);
    assert_eq!(fb.get(1, 6), Some(3));
    assert_eq!(fb.get(7, 2), Some(3));
    assert_eq!(lit(&fb, 3).len(), 7);
}

#[test]
fn draw_line_twice_changes_nothing_more() {
    let mut fb = Framebuffer::new(8, 8);
    fb.draw_line(0, 5, 7, 1, 3);
    let once = fb.pixels.clone();
    fb.draw_line(0, 5, 7, 1, 3);
    assert_eq!(fb.pixels, once);
}

#[test]
fn draw_line_skips_points_outside_the_grid() {
    let mut fb = Framebuffer::new(3, 3);
    fb.draw_line(-2, -2, 5, 5, 4);
    assert_eq!(lit(&fb, 4), vec![(0, 0), (1, 1), (2, 2)]);
    let mut fb = Framebuffer::new(3, 3);
    fb.draw_line(1, 1, 5, 1, 4);
    assert_eq!(lit(&fb, 4), vec![(1, 1), (2, 1)]);
}

#[test]
fn draw_line_with_extreme_coordinates_ends() {
    let mut fb = Framebuffer::new(2, 2);
    fb.draw_line(-40_000, 1, 40_000, 1, 4);
    assert_eq!(lit(&fb, 4), vec![(0, 1), (1, 1)]);
}

#[test]
fn draw_line_bresenham_writes_into_a_flat_buffer() {
    let mut buffer = vec![0u32; 16];
    draw_line_bresenham(0, 0, 3, 3, 7, &mut buffer, 4);
    let expected: Vec<u32> = vec![7, 0, 0, 0, 0, 7, 0, 0, 0, 0, 7, 0, 0, 0, 0, 7];
    assert_eq!(buffer, expected);
}

#[test]
fn draw_line_bresenham_stops_at_the_end_of_the_buffer() {
    let mut buffer = vec![0u32; 6];
    draw_line_bresenham(1, 0, 1, 4, 7, &mut buffer, 2);
    assert_eq!(buffer, vec![0, 7, 0, 7, 0, 7]);
}

#[test]
fn well_formed_means_one_pixel_per_cell() {
    let mut fb = Framebuffer::new(2, 3);
    assert!(fb.is_well_formed());
    fb.pixels.push(0);
    assert!(!fb.is_well_formed());
    fb.pixels.pop();
    fb.width = usize::MAX;
    assert!(!fb.is_well_formed());
}

#[test]
fn blit_copies_to_the_front_of_the_surface() {
    let mut fb = Framebuffer::new(2, 2);
    fb.pixels = vec![1, 2, 3, 4];
    let mut surface = vec![9u32; 6];
    fb.blit(&mut surface);
    assert_eq!(surface, vec![1, 2, 3, 4, 9, 9]);
    let mut exact = vec![0u32; 4];
    fb.blit(&mut exact);
    assert_eq!(exact, vec![1, 2, 3, 4]);
}
