use rusty_capture::pixel::Rgba;
use rusty_capture::screenshot::{ScreenShotError, Screenshot};

const GREY: Rgba = Rgba { r: 100, g: 100, b: 100, a: 255 };
const RED: Rgba = Rgba { r: 255, g: 0, b: 0, a: 255 };

fn uniform(w: u32, h: u32, c: Rgba) -> Screenshot {
    let mut bytes = Vec::new();
    for _ in 0..(w * h) {
        bytes.extend_from_slice(&[c.r, c.g, c.b, c.a]);
    }
    Screenshot::new(w, h, &bytes).unwrap()
}

fn px(s: &Screenshot, x: u32, y: u32) -> Rgba {
    s.screenshot.get_pixel(x, y)
}

#[test]
fn blend_colors_weights_by_foreground_alpha() {
    let bg = Rgba { r: 100, g: 100, b: 100, a: 200 };
    let fg = Rgba { r: 200, g: 0, b: 50, a: 64 };
    let out = Screenshot::blend_colors(bg, fg);
    assert_eq!(out, Rgba { r: 125, g: 74, b: 87, a: 200 });
}

#[test]
fn blend_colors_transparent_foreground_keeps_background() {
    let bg = Rgba { r: 9, g: 8, b: 7, a: 6 };
    let fg = Rgba { r: 255, g: 255, b: 255, a: 0 };
    assert_eq!(Screenshot::blend_colors(bg, fg), bg);
}

#[test]
fn capture_with_no_pixels_is_an_error() {
    assert!(matches!(Screenshot::new(0, 5, &Vec::new()), Err(ScreenShotError::CaptureError)));
}

#[test]
fn capture_with_short_buffer_is_an_error() {
    let bytes = vec![0u8; 4 * 3];
    assert!(matches!(Screenshot::new(2, 2, &bytes), Err(ScreenShotError::CaptureError)));
}

#[test]
fn capture_decodes_rows() {
    let bytes: Vec<u8> = vec![1, 2, 3, 4, 5, 6, 7, 8, 9, 10, 11, 12, 13, 14, 15, 16];
    let s = Screenshot::new(2, 2, &bytes).unwrap();
    assert_eq!(px(&s, 1, 0), Rgba { r: 5, g: 6, b: 7, a: 8 });
    assert_eq!(px(&s, 0, 1), Rgba { r: 9, g: 10, b: 11, a: 12 });
    assert_eq!(s.get_image().to_rgba(), bytes);
}

#[test]
fn crop_out_of_bounds_is_rejected_and_changes_nothing() {
    let mut s = uniform(10, 10, GREY);
    s.draw_line((0, 0), (9, 9), RED, 0);
    let before = s.get_image().to_rgba();
    assert_eq!(s.resize_image(5, 0, 4, 6), Err(ScreenShotError::ResizeSize));
    assert_eq!(s.resize_image(0, 7, 4, 2), Err(ScreenShotError::ResizeSize));
    assert_eq!(s.resize_image(0, 0, -1, 2), Err(ScreenShotError::ResizeSize));
    assert_eq!(s.get_width(), 10);
    assert_eq!(s.get_image().to_rgba(), before);
}

#[test]
fn crop_keeps_the_window() {
    let mut s = uniform(10, 10, GREY);
    s.screenshot.put_pixel(4, 3, RED);
    assert_eq!(s.resize_image(2, 1, 5, 6), Ok(()));
    assert_eq!((s.get_width(), s.get_height()), (6, 5));
    assert_eq!(px(&s, 2, 2), RED);
    assert_eq!(px(&s, 0, 0), GREY);
    assert_eq!(s.intermediate_image.get_pixel(2, 2), RED);
    assert_eq!(s.original_image.get_pixel(2, 2), GREY);
}

#[test]
fn rotations_turn_both_images() {
    let a = Rgba { r: 1, g: 0, b: 0, a: 255 };
    let b = Rgba { r: 2, g: 0, b: 0, a: 255 };
    let bytes = vec![a.r, a.g, a.b, a.a, b.r, b.g, b.b, b.a];
    let mut s = Screenshot::new(2, 1, &bytes).unwrap();
    s.rotate_sx_90();
    assert_eq!((s.get_width(), s.get_height()), (1, 2));
    assert_eq!(px(&s, 0, 0), a);
    assert_eq!(px(&s, 0, 1), b);
    assert_eq!(s.original_image.get_pixel(0, 1), b);
    let mut t = Screenshot::new(2, 1, &bytes).unwrap();
    t.rotate_dx_90();
    assert_eq!(px(&t, 0, 0), b);
    assert_eq!(px(&t, 0, 1), a);
}

#[test]
fn thin_line_covers_the_segment() {
    let mut s = uniform(30, 30, GREY);
    s.draw_line((10, 10), (20, 10), RED, 0);
    assert_eq!(px(&s, 10, 10), RED);
    assert_eq!(px(&s, 15, 10), RED);
    assert_eq!(px(&s, 20, 10), RED);
    assert_eq!(px(&s, 21, 10), GREY);
    assert_eq!(px(&s, 15, 12), GREY);
    assert_eq!(s.original_image.get_pixel(15, 10), GREY);
}

#[test]
fn thick_line_is_a_band() {
    let mut s = uniform(30, 30, GREY);
    s.draw_line((5, 10), (25, 10), RED, 4);
    assert_eq!(px(&s, 15, 8), RED);
    assert_eq!(px(&s, 15, 12), RED);
    assert_eq!(px(&s, 15, 14), GREY);
}

#[test]
fn erase_restores_the_capture_inside_the_radius() {
    let mut s = uniform(30, 30, GREY);
    s.draw_line((0, 15), (29, 15), RED, 2);
    s.draw_line((0, 15), (29, 15), RED, 0);
    s.erase_point(15, 15, 3);
    assert_eq!(px(&s, 15, 15), GREY);
    assert_eq!(px(&s, 18, 15), GREY);
    assert_eq!(px(&s, 19, 15), RED);
}

#[test]
fn highlight_tints_once() {
    let mut s = uniform(30, 30, GREY);
    s.highlight_line((5, 10), (25, 10), 3, Rgba { r: 255, g: 255, b: 0, a: 255 });
    let tinted = Screenshot::blend_colors(GREY, Rgba { r: 255, g: 255, b: 0, a: 64 });
    assert_eq!(px(&s, 15, 10), tinted);
    assert_eq!(px(&s, 15, 7), tinted);
    assert_eq!(px(&s, 15, 6), GREY);
    assert_eq!(px(&s, 15, 11), GREY);
}

#[test]
fn rectangle_previews_do_not_compound() {
    let mut s = uniform(50, 50, GREY);
    s.rectangle((10, 10), (30, 30), 0, RED);
    assert_eq!(px(&s, 29, 20), RED);
    s.rectangle((10, 10), (20, 40), 0, RED);
    assert_eq!(px(&s, 29, 20), GREY);
    assert_eq!(px(&s, 19, 20), RED);
    assert_eq!(px(&s, 10, 39), RED);
    assert_eq!(px(&s, 15, 15), GREY);
    assert_eq!(s.intermediate_image.get_pixel(19, 20), GREY);
}

#[test]
fn circle_draws_a_ring_through_the_end_point() {
    let mut s = uniform(100, 100, GREY);
    s.circle((50, 50), (60, 50), 0, RED);
    assert_eq!(px(&s, 60, 50), RED);
    assert_eq!(px(&s, 50, 40), RED);
    assert_eq!(px(&s, 50, 50), GREY);
}

#[test]
fn text_with_unreadable_font_is_rejected() {
    let mut s = uniform(20, 20, GREY);
    let before = s.get_image().to_rgba();
    let font = vec![1u8, 2, 3];
    assert_eq!(s.draw_text("A\nB", 2, 2, RED, 10, 10, &font), Err(ScreenShotError::FontError));
    assert_eq!(s.get_image().to_rgba(), before);
}

#[test]
fn capture_stroke_erase_scenario() {
    let mut s = uniform(100, 100, GREY);
    s.draw_line((10, 10), (90, 90), RED, 5);
    assert_eq!(px(&s, 50, 50), RED);
    s.erase_point(50, 50, 60);
    assert_eq!(px(&s, 50, 50), GREY);
    assert_eq!(px(&s, 5, 5), GREY);
    assert_eq!(px(&s, 70, 70), GREY);
}

fn changed_rows(s: &Screenshot, w: u32, h: u32) -> Vec<u32> {
    let mut rows = Vec::new();
    for y in 0..h {
        if (0..w).any(|x| px(s, x, y) != GREY) {
            rows.push(y);
        }
    }
    rows
}

#[test]
fn text_lines_stack_one_line_height_apart() {
    let fonts = eframe::egui::FontDefinitions::default();
    let font = fonts.font_data["Ubuntu-Light"].font.to_vec();
    let mut s = uniform(100, 100, GREY);
    assert_eq!(s.draw_text("A\nB", 10, 10, RED, 20, 20, &font), Ok(()));
    let rows = changed_rows(&s, 100, 100);
    assert!(rows.iter().any(|&y| (10..30).contains(&y)));
    assert!(rows.iter().any(|&y| (30..50).contains(&y)));
    assert!(rows.iter().all(|&y| (10..50).contains(&y)));
    let mut one = uniform(100, 100, GREY);
    assert_eq!(one.draw_text("A", 10, 10, RED, 20, 20, &font), Ok(()));
    assert!(changed_rows(&one, 100, 100).iter().all(|&y| (10..30).contains(&y)));
}

#[test]
fn erase_near_the_corner_stays_in_bounds() {
    let mut s = uniform(10, 10, GREY);
    s.draw_line((0, 0), (9, 0), RED, 0);
    s.erase_point(0, 0, 2);
    assert_eq!(px(&s, 0, 0), GREY);
    assert_eq!(px(&s, 2, 0), GREY);
    assert_eq!(px(&s, 3, 0), RED);
    s.erase_point(-50, -50, 3);
    assert_eq!(px(&s, 5, 0), RED);
}

#[test]
fn empty_screenshot_has_no_pixels() {
    let s = Screenshot::new_empty();
    assert_eq!((s.get_width(), s.get_height()), (0, 0));
    assert!(s.get_image().to_rgba().is_empty());
}

#[test]
fn crop_to_the_full_image_keeps_it() {
    let mut s = uniform(4, 3, GREY);
    assert_eq!(s.resize_image(0, 0, 3, 4), Ok(()));
    assert_eq!((s.get_width(), s.get_height()), (4, 3));
    assert_eq!(s.resize_image(4, 3, 0, 0), Ok(()));
    assert_eq!((s.get_width(), s.get_height()), (0, 0));
}

#[test]
fn restore_discards_edits_since_the_checkpoint() {
    let mut s = uniform(20, 20, GREY);
    s.draw_line((0, 5), (19, 5), RED, 0);
    s.save_intermediate_image();
    s.draw_line((0, 9), (19, 9), RED, 0);
    s.restore_intermediate_image();
    assert_eq!(px(&s, 3, 5), RED);
    assert_eq!(px(&s, 3, 9), GREY);
}

/// A face with only the `head`, `hhea` and `maxp` tables: it reads as a font, but no
/// glyph has a horizontal advance.
fn face_without_metrics() -> Vec<u8> {
    let mut f: Vec<u8> = vec![0, 1, 0, 0, 0, 3, 0, 0, 0, 0, 0, 0];
    for (tag, offset, len) in [(b"head", 60u32, 54u32), (b"hhea", 114, 36), (b"maxp", 150, 6)] {
        f.extend_from_slice(tag);
        f.extend_from_slice(&[0, 0, 0, 0]);
        f.extend_from_slice(&offset.to_be_bytes());
        f.extend_from_slice(&len.to_be_bytes());
    }
    let mut head = vec![0u8; 54];
    head[18..20].copy_from_slice(&1000u16.to_be_bytes());
    let mut hhea = vec![0u8; 36];
    hhea[4..6].copy_from_slice(&800i16.to_be_bytes());
    hhea[6..8].copy_from_slice(&(-200i16).to_be_bytes());
    hhea[34..36].copy_from_slice(&1u16.to_be_bytes());
    let maxp = vec![0, 0, 0x50, 0, 0, 1];
    f.extend(head);
    f.extend(hhea);
    f.extend(maxp);
    f
}

#[test]
fn font_without_glyph_metrics_is_rejected() {
    let mut s = uniform(20, 20, GREY);
    let before = s.get_image().to_rgba();
    assert_eq!(s.draw_text("A", 2, 2, RED, 10, 10, &face_without_metrics()), Err(ScreenShotError::FontError));
    assert_eq!(s.get_image().to_rgba(), before);
}

#[test]
fn rectangle_with_a_corner_on_the_edge_is_drawn() {
    let mut s = uniform(20, 20, GREY);
    let white = Rgba { r: 255, g: 255, b: 255, a: 255 };
    s.rectangle((0, 5), (10, 10), 0, white);
    assert_eq!(px(&s, 0, 5), white);
    assert_eq!(px(&s, 9, 9), white);
    assert_eq!(px(&s, 5, 7), GREY);
}

#[test]
fn circle_centred_on_the_top_row_is_drawn() {
    let mut s = uniform(40, 40, GREY);
    s.circle((20, 0), (20, 10), 0, RED);
    assert_eq!(px(&s, 20, 10), RED);
    assert_eq!(px(&s, 30, 0), RED);
}
