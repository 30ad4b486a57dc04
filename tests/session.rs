use rusty_capture::editor::{DrawingMode, ScreenshotStr, TextKey};
use rusty_capture::pixel::Rgba;
use rusty_capture::saving::{save_file_name, SaveFormat};
use rusty_capture::screenshot::{ScreenShotError, Screenshot};
use rusty_capture::settings::{ActiveShortcuts, KeyType, Settings, SettingsError};
use rusty_capture::text::split_lines;
use rusty_capture::viewport::{letterbox, pixel_to_screen, screen_to_pixel, Viewport};

const GREY: Rgba = Rgba { r: 100, g: 100, b: 100, a: 255 };
const RED: Rgba = Rgba { r: 255, g: 0, b: 0, a: 255 };

fn session(w: u32, h: u32) -> ScreenshotStr {
    let bytes: Vec<u8> = (0..w * h).flat_map(|_| [GREY.r, GREY.g, GREY.b, GREY.a]).collect();
    let mut s = ScreenshotStr::new();
    s.screenshot = Screenshot::new(w, h, &bytes).unwrap();
    // The panel height makes the image start at screen row 0.
    s.upper_panel_height = -2;
    s
}

const AREA: (i32, i32) = (100, 100);
const WINDOW: (i32, i32) = (100, 100);

fn at(s: &ScreenshotStr, x: u32, y: u32) -> Rgba {
    s.screenshot.screenshot.get_pixel(x, y)
}

#[test]
fn mapping_is_identity_when_sizes_match() {
    let s = session(100, 100);
    assert_eq!(s.calculate_texture_coordinates((37, 64), AREA, WINDOW, false), Some((37, 64)));
    assert_eq!(s.calculate_texture_coordinates((100, 5), AREA, WINDOW, false), None);
    assert_eq!(s.calculate_texture_coordinates((-3, 5), AREA, WINDOW, true), Some((-3, 5)));
}

#[test]
fn mapping_scales_and_letterboxes() {
    // A 50 × 25 image in a 200 × 200 area is scaled by 4, 100 screen rows high and
    // centred: rows 50 .. 150 below a panel of height 8 plus the margin.
    let v = Viewport { available_w: 200, available_h: 200, window_w: 200, panel_h: 8 };
    assert_eq!(screen_to_pixel(50, 25, v, (0, 60), false), Some((0, 0)));
    assert_eq!(screen_to_pixel(50, 25, v, (199, 159), false), Some((49, 24)));
    assert_eq!(screen_to_pixel(50, 25, v, (100, 59), false), None);
    let r = letterbox(50, 25, v).unwrap();
    assert_eq!((r.left, r.top, r.width, r.height), (0, 60, 200, 100));
    assert_eq!((r.scale_num, r.scale_den), (200, 50));
}

#[test]
fn pixel_round_trip() {
    let v = Viewport { available_w: 640, available_h: 356, window_w: 640, panel_h: 22 };
    for (x, y) in [(0u32, 0u32), (13, 7), (99, 49)] {
        let (sx, sy) = pixel_to_screen(100, 50, v, x, y);
        assert_eq!(screen_to_pixel(100, 50, v, (sx as i32, sy as i32), false), Some((x as i32, y as i32)));
    }
}

#[test]
fn degenerate_viewport_maps_nothing() {
    let v = Viewport { available_w: 0, available_h: 100, window_w: 100, panel_h: 0 };
    assert_eq!(screen_to_pixel(10, 10, v, (5, 5), true), None);
    assert!(letterbox(10, 10, v).is_none());
}

#[test]
fn stroke_samples_are_joined() {
    let mut s = session(100, 100);
    for p in [(10, 10), (20, 10), (40, 10)] {
        assert!(s.draw_paint(Some(p), true, AREA, WINDOW, 0, RED));
    }
    assert_eq!(at(&s, 15, 10), RED);
    assert_eq!(at(&s, 30, 10), RED);
    assert_eq!(s.starting_point, Some((40, 10)));
}

#[test]
fn releasing_the_pointer_leaves_a_gap() {
    let mut s = session(100, 100);
    assert!(s.draw_paint(Some((10, 10)), true, AREA, WINDOW, 0, RED));
    assert!(s.draw_paint(Some((20, 10)), true, AREA, WINDOW, 0, RED));
    assert!(s.draw_paint(Some((20, 10)), false, AREA, WINDOW, 0, RED));
    assert_eq!(s.starting_point, None);
    assert!(s.draw_paint(Some((40, 10)), true, AREA, WINDOW, 0, RED));
    assert_eq!(at(&s, 15, 10), RED);
    assert_eq!(at(&s, 30, 10), GREY);
}

#[test]
fn leaving_the_image_ends_the_stroke() {
    let mut s = session(100, 100);
    assert!(s.draw_paint(Some((10, 10)), true, AREA, WINDOW, 0, RED));
    assert!(!s.draw_paint(Some((150, 10)), true, AREA, WINDOW, 0, RED));
    assert_eq!(s.starting_point, None);
}

#[test]
fn highlighter_anchor_moves_past_the_sample() {
    let mut s = session(100, 100);
    s.draw_highlight(Some((10, 10)), true, AREA, WINDOW, 2, RED);
    s.draw_highlight(Some((20, 10)), true, AREA, WINDOW, 2, RED);
    assert_eq!(s.starting_point, Some((21, 10)));
    assert_ne!(at(&s, 15, 10), GREY);
    s.draw_highlight(None, true, AREA, WINDOW, 2, RED);
    assert_eq!(s.starting_point, None);
}

#[test]
fn eraser_restores_under_the_pointer() {
    let mut s = session(100, 100);
    s.screenshot.draw_line((0, 50), (99, 50), RED, 0);
    assert!(s.erase(Some((50, 50)), true, AREA, WINDOW, 5));
    assert_eq!(at(&s, 50, 50), GREY);
    assert_eq!(at(&s, 56, 50), RED);
}

#[test]
fn rectangle_gesture_reports_its_corners() {
    let mut s = session(100, 100);
    assert_eq!(s.draw_rectangle(Some((10, 10)), true, AREA, WINDOW, 0, RED), None);
    assert_eq!(s.draw_rectangle(Some((30, 30)), true, AREA, WINDOW, 0, RED), None);
    assert_eq!(s.draw_rectangle(Some((40, 35)), false, AREA, WINDOW, 0, RED), Some(((10, 10), (40, 35))));
    assert_eq!(at(&s, 39, 20), RED);
    assert_eq!(at(&s, 29, 20), GREY);
    assert_eq!(s.screenshot.intermediate_image.get_pixel(39, 20), RED);
}

#[test]
fn circle_gesture_commits_on_release() {
    let mut s = session(100, 100);
    s.draw_circle(Some((50, 50)), true, AREA, WINDOW, 0, RED);
    s.draw_circle(Some((60, 50)), false, AREA, WINDOW, 0, RED);
    assert_eq!(at(&s, 60, 50), RED);
    assert_eq!(s.screenshot.intermediate_image.get_pixel(60, 50), RED);
    assert_eq!(s.starting_point, None);
}

#[test]
fn crop_drops_the_border_margin() {
    let mut s = session(100, 100);
    assert_eq!(s.apply_crop((50, 40), (10, 10)), Ok(()));
    assert_eq!((s.screenshot.get_width(), s.screenshot.get_height()), (36, 26));
}

#[test]
fn crop_too_small_restores_the_checkpoint() {
    let mut s = session(100, 100);
    s.screenshot.rectangle((10, 10), (12, 12), 2, RED);
    assert_eq!(s.apply_crop((10, 10), (12, 12)), Err(ScreenShotError::ResizeSize));
    assert_eq!(at(&s, 10, 10), GREY);
    assert_eq!(s.screenshot.get_width(), 100);
}

#[test]
fn toggling_a_tool_twice_deselects_it() {
    let mut s = ScreenshotStr::new();
    s.toggle_drawing_mode(DrawingMode::Paint);
    assert_eq!(s.drawing_mode, Some(DrawingMode::Paint));
    s.toggle_drawing_mode(DrawingMode::Erase);
    assert_eq!(s.drawing_mode, Some(DrawingMode::Erase));
    s.toggle_drawing_mode(DrawingMode::Erase);
    assert_eq!(s.drawing_mode, None);
    assert_eq!(DrawingMode::Crop.as_str(), "Crop");
}

#[test]
fn errors_put_the_tool_aside() {
    let mut s = ScreenshotStr::new();
    s.toggle_drawing_mode(DrawingMode::Crop);
    let r: Option<()> = s.manage_errors(Err(ScreenShotError::ResizeSize));
    assert!(r.is_none());
    assert_eq!(s.drawing_mode, None);
    assert_eq!(s.previous_drawing_mode, Some(DrawingMode::Crop));
    assert_eq!(s.error, Some(ScreenShotError::ResizeSize));
    assert_eq!(s.manage_errors(Ok(7)), Some(7));
}

#[test]
fn text_is_split_into_lines() {
    assert_eq!(split_lines("A\nB"), vec![b"A".to_vec(), b"B".to_vec()]);
    assert_eq!(split_lines(""), vec![Vec::<u8>::new()]);
    assert_eq!(split_lines("x\n"), vec![b"x".to_vec(), Vec::new()]);
}

#[test]
fn committing_text_without_a_font_fails() {
    let mut s = session(100, 100);
    assert_eq!(s.commit_text("hi", (10, 10), AREA, WINDOW, &Vec::new()), Err(ScreenShotError::FontError));
}

#[test]
fn file_names() {
    assert_eq!(save_file_name(true, "01-02-2024-10-11-12_345", SaveFormat::Png).unwrap(), "screenshot-01-02-2024-10-11-12_345.png");
    assert_eq!(save_file_name(true, "t", SaveFormat::Jpeg).unwrap(), "screenshot-t.jpg");
    assert_eq!(save_file_name(true, "t", SaveFormat::Gif).unwrap(), "screenshot-t.gif");
    assert_eq!(save_file_name(true, "t", SaveFormat::Bmp), Err(ScreenShotError::ExtensionError));
    assert_eq!(save_file_name(false, "t", SaveFormat::Png), Err(ScreenShotError::PathError));
}

#[test]
fn settings_checks() {
    let mut s = Settings::new_default();
    assert_eq!(s.get_path(), "./");
    assert_eq!(s.hotkey_name(KeyType::Pen), "KeyP");
    assert_eq!(s.validate(true), Ok(()));
    assert_eq!(s.validate(false), Err(SettingsError::PathMissing));
    s.rubber = String::new();
    assert_eq!(s.validate(true), Err(SettingsError::EmptyHotkey));
}

#[test]
fn shortcuts_per_state() {
    assert!(ActiveShortcuts::ScreenshotDone.is_enabled(KeyType::Save));
    assert!(ActiveShortcuts::ScreenshotWaiting.is_enabled(KeyType::Quick));
    assert!(!ActiveShortcuts::ScreenshotWaiting.is_enabled(KeyType::Pen));
    assert!(!ActiveShortcuts::Pause.is_enabled(KeyType::NewScreenshot));
}

#[test]
fn picker_pauses_and_resumes_the_tool() {
    let mut s = ScreenshotStr::new();
    s.select_tool(DrawingMode::Paint);
    s.open_picker();
    assert_eq!(s.drawing_mode, Some(DrawingMode::Pause));
    assert_eq!(s.previous_drawing_mode, Some(DrawingMode::Paint));
    s.close_picker();
    assert_eq!(s.drawing_mode, Some(DrawingMode::Paint));
    s.select_tool(DrawingMode::Erase);
    s.open_picker();
    assert_eq!(s.drawing_mode, Some(DrawingMode::Erase));
}

#[test]
fn entering_the_shape_tool_fixes_earlier_edits() {
    let mut s = session(50, 50);
    assert!(s.draw_paint(Some((5, 5)), true, (50, 50), (50, 50), 0, RED));
    assert!(s.draw_paint(Some((20, 5)), true, (50, 50), (50, 50), 0, RED));
    s.select_tool(DrawingMode::Shape);
    assert_eq!(s.starting_point, None);
    assert_eq!(s.screenshot.intermediate_image.get_pixel(10, 5), RED);
    s.screenshot.restore_intermediate_image();
    assert_eq!(at(&s, 10, 5), RED);
}

#[test]
fn turning_the_image_drops_the_tool() {
    let mut s = session(4, 2);
    s.select_tool(DrawingMode::Paint);
    s.turn_image(true);
    assert_eq!(s.drawing_mode, None);
    assert_eq!((s.screenshot.get_width(), s.screenshot.get_height()), (2, 4));
    s.turn_image(false);
    assert_eq!((s.screenshot.get_width(), s.screenshot.get_height()), (4, 2));
}

fn ubuntu_font() -> Vec<u8> {
    eframe::egui::FontDefinitions::default().font_data["Ubuntu-Light"].font.to_vec()
}

#[test]
fn text_too_large_for_the_font_is_refused() {
    let mut s = session(100, 100);
    s.toggle_drawing_mode(DrawingMode::Text);
    s.tool_size = 0x1_0000;
    let long = "x".repeat(300);
    assert_eq!(s.commit_text(&long, (10, 10), AREA, WINDOW, &ubuntu_font()), Err(ScreenShotError::FontError));
    assert_eq!(at(&s, 12, 12), GREY);
    assert_eq!(s.drawing_mode, None);
}

#[test]
fn committing_text_returns_to_idle() {
    let mut s = session(100, 100);
    s.toggle_drawing_mode(DrawingMode::Text);
    s.tool_size = 20;
    assert_eq!(s.commit_text("Hi", (10, 10), AREA, WINDOW, &ubuntu_font()), Ok(()));
    assert_eq!(s.drawing_mode, None);
    assert!((0..100).any(|x| (0..100).any(|y| at(&s, x, y) != GREY)));
}

#[test]
fn text_box_keys() {
    let mut s = ScreenshotStr::new();
    s.toggle_drawing_mode(DrawingMode::Text);
    assert_eq!(s.text_key(true, true, false), TextKey::Newline);
    assert_eq!(s.text_key(false, false, false), TextKey::Nothing);
    assert_eq!(s.drawing_mode, Some(DrawingMode::Text));
    assert_eq!(s.text_key(true, false, false), TextKey::Commit);
    assert_eq!(s.text_key(false, false, true), TextKey::Discard);
    assert_eq!(s.drawing_mode, None);
}

#[test]
fn no_pointer_ends_the_gesture() {
    let mut s = session(100, 100);
    assert!(s.draw_paint(Some((10, 10)), true, AREA, WINDOW, 0, RED));
    assert!(!s.draw_paint(None, true, AREA, WINDOW, 0, RED));
    assert_eq!(s.starting_point, None);
    assert_eq!(s.draw_rectangle(Some((10, 10)), true, AREA, WINDOW, 0, RED), None);
    assert_eq!(s.draw_rectangle(None, true, AREA, WINDOW, 0, RED), None);
    assert_eq!(s.starting_point, None);
    s.draw_circle(Some((50, 50)), true, AREA, WINDOW, 0, RED);
    s.draw_circle(None, true, AREA, WINDOW, 0, RED);
    assert_eq!(s.starting_point, None);
}

#[test]
fn crop_gesture_crops_the_clean_image() {
    let mut s = session(100, 100);
    s.select_tool(DrawingMode::Crop);
    assert_eq!(s.draw_crop(Some((10, 10)), true, AREA, WINDOW), None);
    assert_eq!(s.draw_crop(Some((50, 40)), true, AREA, WINDOW), None);
    assert_eq!(at(&s, 10, 20), Rgba { r: 255, g: 255, b: 255, a: 255 });
    assert_eq!(s.draw_crop(Some((50, 40)), false, AREA, WINDOW), Some(Ok(())));
    assert_eq!((s.screenshot.get_width(), s.screenshot.get_height()), (36, 26));
    assert_eq!(at(&s, 0, 0), GREY);
    assert_eq!(s.drawing_mode, Some(DrawingMode::Crop));
}

#[test]
fn failed_crop_gesture_restores_the_pre_crop_image() {
    let mut s = session(100, 100);
    s.select_tool(DrawingMode::Crop);
    s.draw_crop(Some((10, 10)), true, AREA, WINDOW);
    s.draw_crop(Some((12, 12)), true, AREA, WINDOW);
    assert_eq!(s.draw_crop(Some((12, 12)), false, AREA, WINDOW), Some(Err(ScreenShotError::ResizeSize)));
    assert_eq!(at(&s, 10, 10), GREY);
    assert_eq!(at(&s, 11, 10), GREY);
    assert_eq!(s.screenshot.get_width(), 100);
    assert_eq!(s.drawing_mode, None);
    assert_eq!(s.previous_drawing_mode, Some(DrawingMode::Crop));
    assert_eq!(s.error, Some(ScreenShotError::ResizeSize));
}

#[test]
fn a_new_capture_drops_the_gesture() {
    let mut s = session(100, 100);
    assert!(s.draw_paint(Some((10, 10)), true, AREA, WINDOW, 0, RED));
    let bytes: Vec<u8> = (0..4 * 4).flat_map(|_| [1u8, 2, 3, 255]).collect();
    s.load_capture(Screenshot::new(4, 4, &bytes).unwrap());
    assert_eq!(s.starting_point, None);
    assert!(s.show_image);
    assert_eq!(s.screenshot.get_width(), 4);
}

#[test]
fn dialogs_put_the_tool_aside_and_back() {
    let mut s = ScreenshotStr::new();
    s.select_tool(DrawingMode::Highlight);
    s.put_tool_aside();
    assert_eq!(s.drawing_mode, None);
    assert_eq!(s.previous_drawing_mode, Some(DrawingMode::Highlight));
    s.resume_tool();
    assert_eq!(s.drawing_mode, Some(DrawingMode::Highlight));
}
