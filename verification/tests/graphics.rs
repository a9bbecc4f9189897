use wasm96_core::bezier::{graphics_bezier_cubic, graphics_bezier_quadratic};
use wasm96_core::blit::{graphics_image, graphics_image_from_host};
use wasm96_core::error::AvError;
use wasm96_core::line::{graphics_line, graphics_line_internal};
use wasm96_core::outline::{
    graphics_circle_outline, graphics_pill, graphics_pill_outline, graphics_rect_outline,
    graphics_triangle_outline,
};
use wasm96_core::raster::{
    graphics_background, graphics_point, graphics_set_color, graphics_set_size, pack_rgb,
};
use wasm96_core::shapes::{graphics_circle, graphics_rect, graphics_triangle, tri_edge};
use wasm96_core::state::VideoState;

fn count_color(buf: &[u32], color: u32) -> usize {
    buf.iter().copied().filter(|&c| c == color).count()
}

fn painted(video: &VideoState, color: u32) -> Vec<(i32, i32)> {
    let mut out = Vec::new();
    for x in 0..video.width {
        for y in 0..video.height {
            if video.framebuffer[(y * video.width + x) as usize] == color {
                out.push((x as i32, y as i32));
            }
        }
    }
    out
}

fn canvas(width: u32, height: u32) -> VideoState {
    let mut video = VideoState::default();
    graphics_set_size(&mut video, width, height);
    graphics_background(&mut video, 0, 0, 0);
    graphics_set_color(&mut video, 255, 0, 0, 255);
    video
}

const RED: u32 = 0x00FF_0000;

#[test]
fn triangle_degenerate_area_draws_nothing() {
    let mut video = VideoState::default();
    graphics_set_size(&mut video, 16, 16);
    graphics_background(&mut video, 0, 0, 0);
    graphics_set_color(&mut video, 255, 0, 0, 255);
    let red = (255u32 << 16) | (0u32 << 8) | 0u32;

    graphics_triangle(&mut video, 1, 1, 5, 5, 10, 10);

    assert_eq!(count_color(&video.framebuffer, red), 0);
}

#[test]
fn triangle_fills_some_pixels_for_simple_case() {
    let mut video = VideoState::default();
    graphics_set_size(&mut video, 32, 32);
    graphics_background(&mut video, 0, 0, 0);
    graphics_set_color(&mut video, 0, 255, 0, 255);
    let green = (0u32 << 16) | (255u32 << 8) | 0u32;

    graphics_triangle(&mut video, 4, 4, 20, 6, 8, 24);

    let filled = count_color(&video.framebuffer, green);
    assert!(filled > 0, "expected some filled pixels, got {filled}");
    assert!(
        filled < (32 * 32) as usize,
        "triangle should not fill entire screen"
    );
    assert_eq!(filled, 163);
}

#[test]
fn triangle_vertex_order_does_not_change_fill_count() {
    let mut video = VideoState::default();
    graphics_set_size(&mut video, 32, 32);

    graphics_background(&mut video, 0, 0, 0);
    graphics_set_color(&mut video, 0, 0, 255, 255);
    let blue = (0u32 << 16) | (0u32 << 8) | 255u32;
    graphics_triangle(&mut video, 4, 4, 20, 6, 8, 24);
    let count_a = count_color(&video.framebuffer, blue);
    let pixels_a = video.framebuffer.clone();

    graphics_background(&mut video, 0, 0, 0);
    graphics_set_color(&mut video, 0, 0, 255, 255);
    graphics_triangle(&mut video, 4, 4, 8, 24, 20, 6);
    let count_b = count_color(&video.framebuffer, blue);

    assert_eq!(
        count_a, count_b,
        "filled pixel count should be identical regardless of winding (got {count_a} vs {count_b})"
    );
    assert!(count_a > 0);
    assert_eq!(pixels_a, video.framebuffer);
}

#[test]
fn triangle_clips_to_screen_without_panicking() {
    let mut video = VideoState::default();
    graphics_set_size(&mut video, 16, 16);
    graphics_background(&mut video, 0, 0, 0);
    graphics_set_color(&mut video, 255, 255, 255, 255);
    let white = (255u32 << 16) | (255u32 << 8) | 255u32;

    graphics_triangle(&mut video, -10, -10, 30, 0, 0, 30);

    let filled = count_color(&video.framebuffer, white);
    assert!(filled > 0);
    assert!(
        filled <= video.framebuffer.len(),
        "filled pixels must never exceed framebuffer length"
    );
    assert_eq!(video.framebuffer.len(), 256);
}

#[test]
fn triangle_every_winding_fills_the_same_pixels() {
    let orders = [
        (0, 0, 3, 0, 0, 3),
        (0, 0, 0, 3, 3, 0),
        (3, 0, 0, 3, 0, 0),
        (3, 0, 0, 0, 0, 3),
        (0, 3, 0, 0, 3, 0),
        (0, 3, 3, 0, 0, 0),
    ];
    for (x1, y1, x2, y2, x3, y3) in orders {
        let mut video = canvas(8, 8);
        graphics_triangle(&mut video, x1, y1, x2, y2, x3, y3);
        assert_eq!(
            painted(&video, RED),
            vec![(0, 0), (0, 1), (0, 2), (0, 3), (1, 0), (1, 1), (1, 2), (2, 0), (2, 1), (3, 0)]
        );
    }
}

#[test]
fn triangle_with_extreme_vertices_stays_inside() {
    let mut video = canvas(4, 4);
    graphics_triangle(&mut video, i32::MIN, i32::MIN, i32::MAX, i32::MIN, 0, i32::MAX);
    assert_eq!(video.framebuffer.len(), 16);
    assert_eq!(count_color(&video.framebuffer, RED), 16);
    let mut video = canvas(4, 4);
    graphics_triangle(&mut video, i32::MIN, i32::MIN, i32::MIN, i32::MAX, i32::MIN, 0);
    assert_eq!(count_color(&video.framebuffer, RED), 0);
}

#[test]
fn tri_edge_is_twice_the_signed_area() {
    assert_eq!(tri_edge((0, 0), (3, 0), (0, 3)), -9);
    assert_eq!(tri_edge((0, 0), (0, 3), (3, 0)), 9);
    assert_eq!(tri_edge((1, 1), (5, 5), (10, 10)), 0);
    assert_eq!(tri_edge((4, 4), (20, 6), (8, 24)), -312);
}

#[test]
fn set_size_clears_to_black() {
    let mut video = VideoState::default();
    graphics_background(&mut video, 9, 9, 9);
    graphics_set_size(&mut video, 7, 3);
    assert_eq!(video.width, 7);
    assert_eq!(video.height, 3);
    assert_eq!(video.framebuffer, vec![0u32; 21]);
    graphics_point(&mut video, 6, 2);
    assert_eq!(count_color(&video.framebuffer, 0), 20);
}

#[test]
fn set_size_rejects_a_zero_side() {
    let mut video = VideoState::default();
    graphics_background(&mut video, 1, 2, 3);
    graphics_set_size(&mut video, 0, 5);
    graphics_set_size(&mut video, 5, 0);
    assert_eq!(video.width, 320);
    assert_eq!(video.height, 240);
    assert_eq!(video.framebuffer, vec![0x0001_0203u32; 320 * 240]);
}

#[test]
fn default_video_state() {
    let video = VideoState::default();
    assert_eq!(video.width, 320);
    assert_eq!(video.height, 240);
    assert_eq!(video.draw_color, 0x00FF_FFFF);
    assert_eq!(video.framebuffer, vec![0u32; 76800]);
}

#[test]
fn colors_keep_the_low_eight_bits() {
    assert_eq!(pack_rgb(255, 0, 0), 0x00FF_0000);
    assert_eq!(pack_rgb(1, 2, 3), 0x0001_0203);
    assert_eq!(pack_rgb(0x1FF, 0x100, 0xFFFF_FF07), 0x00FF_0007);
    let mut video = VideoState::default();
    graphics_set_color(&mut video, 0x112, 0x134, 0x156, 0);
    assert_eq!(video.draw_color, 0x0012_3456);
    graphics_set_size(&mut video, 2, 2);
    graphics_background(&mut video, 256, 257, 258);
    assert_eq!(video.framebuffer, vec![0x0000_0102u32; 4]);
}

#[test]
fn point_draws_one_pixel_and_clips() {
    let mut video = canvas(4, 4);
    graphics_point(&mut video, 1, 2);
    graphics_point(&mut video, -1, 0);
    graphics_point(&mut video, 4, 0);
    graphics_point(&mut video, 0, 4);
    graphics_point(&mut video, i32::MAX, i32::MIN);
    assert_eq!(painted(&video, RED), vec![(1, 2)]);
}

#[test]
fn line_walks_bresenham_steps() {
    let mut video = canvas(8, 8);
    graphics_line(&mut video, 0, 0, 5, 2);
    assert_eq!(
        painted(&video, RED),
        vec![(0, 0), (1, 0), (2, 1), (3, 1), (4, 2), (5, 2)]
    );
    let mut video = canvas(8, 8);
    graphics_line_internal(&mut video, 3, 4, 0, 0);
    assert_eq!(painted(&video, RED), vec![(0, 0), (1, 1), (1, 2), (2, 3), (3, 4)]);
}

#[test]
fn line_of_one_point_and_clipped_line() {
    let mut video = canvas(8, 8);
    graphics_line(&mut video, 3, 3, 3, 3);
    assert_eq!(painted(&video, RED), vec![(3, 3)]);
    let mut video = canvas(8, 8);
    graphics_line(&mut video, -3, 2, 10, 5);
    assert_eq!(
        painted(&video, RED),
        vec![(0, 3), (1, 3), (2, 3), (3, 3), (4, 4), (5, 4), (6, 4), (7, 4)]
    );
}

#[test]
fn rect_fills_and_clips() {
    let mut video = canvas(4, 4);
    graphics_rect(&mut video, 1, 1, 2, 2);
    assert_eq!(painted(&video, RED), vec![(1, 1), (1, 2), (2, 1), (2, 2)]);
    let mut video = canvas(4, 4);
    graphics_rect(&mut video, -2, 2, 4, 100);
    assert_eq!(painted(&video, RED), vec![(0, 2), (0, 3), (1, 2), (1, 3)]);
    let mut video = canvas(4, 4);
    graphics_rect(&mut video, 0, 0, 0, 4);
    graphics_rect(&mut video, 9, 9, 4, 4);
    assert_eq!(painted(&video, RED), vec![]);
    let mut video = canvas(4, 4);
    graphics_rect(&mut video, i32::MIN, i32::MIN, u32::MAX, u32::MAX);
    assert_eq!(count_color(&video.framebuffer, RED), 16);
}

#[test]
fn rect_outline_is_four_lines() {
    let mut video = canvas(8, 8);
    graphics_rect_outline(&mut video, 1, 1, 3, 2);
    assert_eq!(
        painted(&video, RED),
        vec![(1, 1), (1, 2), (1, 3), (2, 1), (2, 3), (3, 1), (3, 3), (4, 1), (4, 2), (4, 3)]
    );
}

#[test]
fn triangle_outline_is_three_lines() {
    let mut video = canvas(8, 8);
    graphics_triangle_outline(&mut video, 1, 1, 6, 2, 3, 6);
    assert_eq!(
        painted(&video, RED),
        vec![
            (1, 1), (1, 2), (2, 1), (2, 3), (2, 4), (3, 1), (3, 5), (3, 6), (4, 2), (4, 4),
            (4, 5), (5, 2), (5, 3), (6, 2)
        ]
    );
}

#[test]
fn circle_fills_by_squared_distance() {
    let mut video = canvas(8, 8);
    graphics_circle(&mut video, 3, 3, 2);
    assert_eq!(
        painted(&video, RED),
        vec![(1, 3), (2, 2), (2, 3), (2, 4), (3, 1), (3, 2), (3, 3), (3, 4), (4, 2), (4, 3), (4, 4)]
    );
    let mut video = canvas(8, 8);
    graphics_circle(&mut video, 3, 3, 0);
    assert_eq!(painted(&video, RED), vec![]);
    let mut video = canvas(4, 4);
    graphics_circle(&mut video, 0, 0, u32::MAX);
    assert_eq!(count_color(&video.framebuffer, RED), 16);
}

#[test]
fn circle_outline_walks_the_midpoint_steps() {
    let mut video = canvas(8, 8);
    graphics_circle_outline(&mut video, 4, 4, 2);
    assert_eq!(
        painted(&video, RED),
        vec![
            (2, 3), (2, 4), (2, 5), (3, 2), (3, 6), (4, 2), (4, 6), (5, 2), (5, 6), (6, 3),
            (6, 4), (6, 5)
        ]
    );
    let mut video = canvas(8, 8);
    graphics_circle_outline(&mut video, 0, 0, 3);
    assert_eq!(painted(&video, RED), vec![(0, 3), (1, 3), (2, 2), (3, 0), (3, 1)]);
    let mut video = canvas(8, 8);
    graphics_circle_outline(&mut video, 1, 1, 0);
    assert_eq!(painted(&video, RED), vec![(1, 1)]);
}

#[test]
fn pill_is_a_rectangle_with_two_caps() {
    let mut video = canvas(16, 16);
    graphics_pill(&mut video, 2, 3, 10, 4);
    assert_eq!(
        painted(&video, RED),
        vec![
            (2, 5), (3, 4), (3, 5), (3, 6), (4, 3), (4, 4), (4, 5), (4, 6), (5, 3), (5, 4),
            (5, 5), (5, 6), (6, 3), (6, 4), (6, 5), (6, 6), (7, 3), (7, 4), (7, 5), (7, 6),
            (8, 3), (8, 4), (8, 5), (8, 6), (9, 3), (9, 4), (9, 5), (9, 6), (10, 3), (10, 4),
            (10, 5), (10, 6), (11, 4), (11, 5), (11, 6)
        ]
    );
    let mut video = canvas(16, 16);
    graphics_pill(&mut video, 2, 3, 0, 4);
    graphics_pill(&mut video, 2, 3, 4, 0);
    graphics_pill_outline(&mut video, 2, 3, 0, 4);
    graphics_pill_outline(&mut video, 2, 3, 4, 0);
    assert_eq!(painted(&video, RED), vec![]);
}

#[test]
fn pill_outline_is_a_rectangle_outline_with_two_circles() {
    let mut video = canvas(16, 16);
    graphics_pill_outline(&mut video, 2, 3, 10, 4);
    assert_eq!(
        painted(&video, RED),
        vec![
            (2, 4), (2, 5), (2, 6), (3, 3), (3, 7), (4, 3), (4, 4), (4, 5), (4, 6), (4, 7),
            (5, 3), (5, 7), (6, 3), (6, 4), (6, 5), (6, 6), (6, 7), (7, 3), (7, 7), (8, 3),
            (8, 4), (8, 5), (8, 6), (8, 7), (9, 3), (9, 7), (10, 3), (10, 4), (10, 5), (10, 6),
            (10, 7), (11, 3), (11, 7), (12, 4), (12, 5), (12, 6)
        ]
    );
}

#[test]
fn quadratic_curve_runs_through_its_points() {
    let mut video = canvas(16, 16);
    graphics_bezier_quadratic(&mut video, 0, 0, 4, 8, 8, 0, 4);
    assert_eq!(
        painted(&video, RED),
        vec![
            (0, 0), (1, 1), (1, 2), (2, 3), (3, 4), (4, 4), (5, 3), (6, 3), (7, 1), (7, 2),
            (8, 0)
        ]
    );
    let mut video = canvas(16, 16);
    graphics_bezier_quadratic(&mut video, 0, 0, 4, 8, 8, 0, 0);
    assert_eq!(painted(&video, RED), vec![]);
    let mut video = canvas(16, 16);
    graphics_bezier_quadratic(&mut video, 2, 1, 900, -900, 6, 5, 1);
    let mut line = canvas(16, 16);
    graphics_line(&mut line, 2, 1, 6, 5);
    assert_eq!(video.framebuffer, line.framebuffer);
}

#[test]
fn cubic_curve_runs_through_its_points() {
    let mut video = canvas(16, 16);
    graphics_bezier_cubic(&mut video, 0, 0, 0, 6, 6, 6, 6, 0, 3);
    assert_eq!(
        painted(&video, RED),
        vec![
            (0, 0), (0, 1), (1, 2), (1, 3), (1, 4), (2, 4), (3, 4), (4, 4), (5, 2), (5, 3),
            (6, 0), (6, 1)
        ]
    );
    let mut video = canvas(16, 16);
    graphics_bezier_cubic(&mut video, 0, 0, 0, 6, 6, 6, 6, 0, 0);
    assert_eq!(painted(&video, RED), vec![]);
}

#[test]
fn curves_with_extreme_control_points_stay_inside() {
    let mut video = canvas(4, 4);
    graphics_bezier_quadratic(&mut video, 0, 0, 4_000_000, -4_000_000, 3, 3, 2);
    assert_eq!(video.framebuffer.len(), 16);
    assert_eq!(painted(&video, RED), vec![(0, 0), (3, 3)]);
    graphics_bezier_cubic(&mut video, 0, 0, -4_000_000, 4_000_000, 4_000_000, -4_000_000, 3, 3, 2);
    assert_eq!(video.framebuffer.len(), 16);
    assert_eq!(painted(&video, RED), vec![(0, 0), (1, 1), (2, 2), (3, 3)]);
}

#[test]
fn blit_copies_opaque_pixels_only() {
    let mut video = canvas(3, 2);
    let data = vec![
        1, 2, 3, 255,   4, 5, 6, 0,
        7, 8, 9, 1,     10, 11, 12, 128,
    ];
    graphics_image_from_host(&mut video, 1, 0, 2, 2, &data);
    assert_eq!(
        video.framebuffer,
        vec![0, 0x0001_0203, 0, 0, 0x0007_0809, 0x000A_0B0C]
    );
}

#[test]
fn blit_clips_and_ignores_short_buffers() {
    let mut video = canvas(2, 2);
    let data = vec![
        1, 1, 1, 255, 2, 2, 2, 255, 3, 3, 3, 255, 4, 4, 4, 255,
    ];
    graphics_image_from_host(&mut video, -1, -1, 2, 2, &data);
    assert_eq!(video.framebuffer, vec![0x0004_0404, 0, 0, 0]);
    graphics_image_from_host(&mut video, 1, 1, 2, 2, &data);
    assert_eq!(video.framebuffer, vec![0x0004_0404, 0, 0, 0x0001_0101]);
    let before = video.framebuffer.clone();
    graphics_image_from_host(&mut video, 0, 0, 2, 2, &data[..15]);
    graphics_image_from_host(&mut video, 0, 0, u32::MAX, u32::MAX, &data);
    graphics_image_from_host(&mut video, 5, 5, 2, 2, &data);
    assert_eq!(video.framebuffer, before);
}

#[test]
fn image_from_guest_memory() {
    let mut memory = vec![0u8; 64];
    memory[8..16].copy_from_slice(&[9, 8, 7, 255, 6, 5, 4, 255]);
    let mut video = canvas(2, 1);
    assert_eq!(
        graphics_image(&mut video, Some(&memory), 0, 0, 2, 1, 8, 8),
        Ok(())
    );
    assert_eq!(video.framebuffer, vec![0x0009_0807, 0x0006_0504]);

    let mut video = canvas(2, 1);
    assert_eq!(
        graphics_image(&mut video, Some(&memory), 0, 0, 2, 1, 8, 7),
        Ok(())
    );
    assert_eq!(
        graphics_image(&mut video, Some(&memory), 0, 0, u32::MAX, u32::MAX, 8, 8),
        Ok(())
    );
    assert_eq!(video.framebuffer, vec![0, 0]);
    assert_eq!(
        graphics_image(&mut video, None, 0, 0, 2, 1, 8, 8),
        Err(AvError::MissingMemory)
    );
    assert_eq!(
        graphics_image(&mut video, Some(&memory), 0, 0, 2, 1, 60, 8),
        Err(AvError::MemoryReadFailed)
    );
    assert_eq!(video.framebuffer, vec![0, 0]);
}
