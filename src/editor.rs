//! The editing session: the screenshot, the selected tool and its parameters, and the
//! per-frame handlers that turn a polled pointer sample into an edit.
use vstd::prelude::*;
use crate::drawing::{circle_result, highlight_result, point_ok, rectangle_result, stroke_result, POINT_LIMIT};
use crate::pixel::Rgba;
use crate::raster::{same_size, MAX_SIDE};
use crate::screenshot::{
    erase_result, is_crop, is_turn_clockwise, is_turn_counter_clockwise, preview_base, ScreenShotError, Screenshot,
};
use crate::viewport::{
    area_top, geometry_ok, letterbox, pixel_under, scale_den, scale_num, screen_to_pixel, ImageRect, Viewport,
};
use crate::text::text_result;
use vstd::string::StringSliceAdditionalSpecFns;

verus! {

/// The editing tools; `Pause` is entered while a colour or size picker is open.
#[derive(Clone, Copy, Debug, PartialEq, Eq, Structural)]
pub enum DrawingMode {
    Paint,
    Highlight,
    Erase,
    Shape,
    Text,
    Pause,
    Crop,
}

impl DrawingMode {
    /// The tool's name as shown to the user.
    pub fn as_str(&self) -> &'static str {
        match self {
            DrawingMode::Paint => "Paint",
            DrawingMode::Highlight => "Highlight",
            DrawingMode::Erase => "Erase",
            DrawingMode::Shape => "Shape",
            DrawingMode::Text => "Text",
            DrawingMode::Pause => "Pause",
            DrawingMode::Crop => "Crop",
        }
    }
}

/// The shapes of the shape tool.
#[derive(Clone, Copy, Debug, PartialEq, Eq, Structural)]
pub enum Shape {
    Rectangle,
    Circle,
}

/// What a key press in the text box does.
#[derive(Clone, Copy, Debug, PartialEq, Eq, Structural)]
pub enum TextKey {
    /// Shift+Enter: a line break is added to the text.
    Newline,
    /// Enter: the text is stamped into the image.
    Commit,
    /// Escape: the text is thrown away.
    Discard,
    /// Any other input: the text box stays as it is.
    Nothing,
}

/// An editing session.
pub struct ScreenshotStr {
    /// The image being edited.
    pub screenshot: Screenshot,
    /// The selected tool, if any.
    pub drawing_mode: Option<DrawingMode>,
    /// The tool to go back to when a picker or a dialog is closed.
    pub previous_drawing_mode: Option<DrawingMode>,
    /// The shape drawn by the shape tool.
    pub shape: Option<Shape>,
    /// The colour of the brush, highlighter, shapes and text.
    pub tool_color: Rgba,
    /// The size of the tools, in pixels.
    pub tool_size: u32,
    /// The last pixel of the gesture in progress, if any.
    pub starting_point: Option<(i32, i32)>,
    /// Height of the panel above the image, in screen pixels.
    pub upper_panel_height: i32,
    /// Whether the image is on display.
    pub show_image: bool,
    /// The last error, waiting to be shown.
    pub error: Option<ScreenShotError>,
}

/// The pixel under the pointer, if there is a pointer and it is over the image.
pub open spec fn sample_at(s: &ScreenshotStr, pointer: Option<(i32, i32)>, available: (i32, i32), total_window: (i32, i32)) -> Option<(i32, i32)> {
    match pointer {
        Some(c) => pixel_under(
            s.screenshot.screenshot.width,
            s.screenshot.screenshot.height,
            Viewport {
                available_w: available.0,
                available_h: available.1,
                window_w: total_window.0,
                panel_h: s.upper_panel_height,
            },
            c,
            false,
        ),
        None => None,
    }
}

/// Everything but the screenshot, the gesture and the selected tool is as it was.
pub open spec fn same_settings_but_mode(a: &ScreenshotStr, b: &ScreenshotStr) -> bool {
    &&& a.previous_drawing_mode == b.previous_drawing_mode
    &&& a.shape == b.shape
    &&& a.tool_color == b.tool_color
    &&& a.tool_size == b.tool_size
    &&& a.upper_panel_height == b.upper_panel_height
    &&& a.show_image == b.show_image
    &&& a.error == b.error
}

/// Everything but the screenshot and the gesture is as it was.
pub open spec fn same_settings(a: &ScreenshotStr, b: &ScreenshotStr) -> bool {
    &&& a.drawing_mode == b.drawing_mode
    &&& same_settings_but_mode(a, b)
}

impl ScreenshotStr {
    /// The image is well formed and the anchor of a gesture is a drawable point.
    pub open spec fn wf(&self) -> bool {
        &&& self.screenshot.wf()
        &&& self.starting_point matches Some(p) ==> point_ok(p)
    }

    /// A session with an empty image, no tool selected and a black brush of size 10.
    pub fn new() -> (r: ScreenshotStr)
        ensures
            r.wf(),
            r.screenshot.screenshot.width == 0 && r.screenshot.screenshot.height == 0,
            r.drawing_mode.is_none(),
            r.previous_drawing_mode == Some(DrawingMode::Pause),
            r.shape == Some(Shape::Rectangle),
            r.tool_color == (Rgba { r: 0, g: 0, b: 0, a: 255 }),
            r.tool_size == 10,
            r.starting_point.is_none(),
            r.upper_panel_height == 0,
            !r.show_image,
            r.error.is_none(),
    {
        ScreenshotStr {
            screenshot: Screenshot::new_empty(),
            drawing_mode: None,
            previous_drawing_mode: Some(DrawingMode::Pause),
            shape: Some(Shape::Rectangle),
            tool_color: Rgba { r: 0, g: 0, b: 0, a: 255 },
            tool_size: 10,
            starting_point: None,
            upper_panel_height: 0,
            show_image: false,
            error: None,
        }
    }

    /// Selecting the selected tool again deselects it; selecting another switches to it.
    pub fn toggle_drawing_mode(&mut self, mode: DrawingMode)
        ensures
            final(self).drawing_mode == if old(self).drawing_mode == Some(mode) {
                None
            } else {
                Some(mode)
            },
            final(self).show_image,
            final(self).screenshot == old(self).screenshot,
            final(self).previous_drawing_mode == old(self).previous_drawing_mode,
            final(self).starting_point == old(self).starting_point,
            final(self).shape == old(self).shape,
            final(self).tool_color == old(self).tool_color,
            final(self).tool_size == old(self).tool_size,
            final(self).upper_panel_height == old(self).upper_panel_height,
            final(self).error == old(self).error,
    {
        let same = match self.drawing_mode {
            Some(m) => m == mode,
            None => false,
        };
        if same {
            self.drawing_mode = None;
        } else {
            self.drawing_mode = Some(mode);
        }
        self.show_image = true;
    }

    /// The image pixel under the screen point `cursor` when the image is fitted into an
    /// `available` area of a window `total_window` wide; see `screen_to_pixel`.
    pub fn calculate_texture_coordinates(
        &self,
        cursor: (i32, i32),
        available: (i32, i32),
        total_window: (i32, i32),
        return_always: bool,
    ) -> (r: Option<(i32, i32)>)
        ensures
            r == pixel_under(
                self.screenshot.screenshot.width,
                self.screenshot.screenshot.height,
                Viewport {
                    available_w: available.0,
                    available_h: available.1,
                    window_w: total_window.0,
                    panel_h: self.upper_panel_height,
                },
                cursor,
                return_always,
            ),
    {
        let v = Viewport {
            available_w: available.0,
            available_h: available.1,
            window_w: total_window.0,
            panel_h: self.upper_panel_height,
        };
        screen_to_pixel(self.screenshot.screenshot.width, self.screenshot.screenshot.height, v, cursor, return_always)
    }

    /// Records a failed operation: the tool is put aside and the error kept for display.
    pub fn manage_errors<E>(&mut self, result: Result<E, ScreenShotError>) -> (r: Option<E>)
        ensures
            result matches Ok(v) ==> r == Some(v) && *final(self) == *old(self),
            result matches Err(e) ==> {
                &&& r.is_none()
                &&& final(self).drawing_mode.is_none()
                &&& final(self).previous_drawing_mode == old(self).drawing_mode
                &&& final(self).error == Some(e)
                &&& final(self).screenshot == old(self).screenshot
                &&& final(self).starting_point == old(self).starting_point
                &&& final(self).shape == old(self).shape
                &&& final(self).tool_color == old(self).tool_color
                &&& final(self).tool_size == old(self).tool_size
                &&& final(self).upper_panel_height == old(self).upper_panel_height
                &&& final(self).show_image == old(self).show_image
            },
    {
        match result {
            Ok(v) => Some(v),
            Err(e) => {
                self.previous_drawing_mode = self.drawing_mode;
                self.drawing_mode = None;
                self.error = Some(e);
                None
            },
        }
    }

    /// One frame of the brush. Over the image with the button down, the first sample
    /// anchors the stroke and each later one draws a segment from the anchor to it and
    /// becomes the anchor. Releasing the button or leaving the image ends the stroke, so
    /// the next press starts a new one; so does a frame with no pointer. Returns whether
    /// the pointer is over the image.
    pub fn draw_paint(
        &mut self,
        pointer: Option<(i32, i32)>,
        down: bool,
        available: (i32, i32),
        total_window: (i32, i32),
        size: u32,
        color: Rgba,
    ) -> (over: bool)
        requires
            old(self).wf(),
            size <= POINT_LIMIT,
        ensures
            final(self).wf(),
            same_settings(final(self), old(self)),
            over == sample_at(old(self), pointer, available, total_window).is_some(),
            match sample_at(old(self), pointer, available, total_window) {
                None => {
                    &&& final(self).screenshot@ == old(self).screenshot@
                    &&& final(self).starting_point.is_none()
                },
                Some(q) => if !down {
                    final(self).screenshot@ == old(self).screenshot@ && final(self).starting_point.is_none()
                } else {
                    &&& final(self).starting_point == Some(q)
                    &&& match old(self).starting_point {
                        None => final(self).screenshot@ == old(self).screenshot@,
                        Some(a) => stroke_result(final(self).screenshot@, old(self).screenshot@, a, q, color, size as int),
                    }
                },
            },
    {
        match pointer {
            None => {
                self.starting_point = None;
                false
            },
            Some(c) => match self.calculate_texture_coordinates(c, available, total_window, false) {
                None => {
                    self.starting_point = None;
                    false
                },
                Some(q) => {
                    if down {
                        match self.starting_point {
                            None => {
                                self.starting_point = Some(q);
                            },
                            Some(a) => {
                                proof {
                                    assert(0 <= q.0 < MAX_SIDE && 0 <= q.1 < MAX_SIDE);
                                }
                                self.screenshot.draw_line(a, q, color, size);
                                self.starting_point = Some(q);
                            },
                        }
                    } else {
                        self.starting_point = None;
                    }
                    true
                },
            },
        }
    }

    /// One frame of the highlighter. Like the brush, but the anchor moves one pixel past
    /// the sample, away from the previous anchor, so consecutive bands do not overlap;
    /// with no pointer the stroke ends too. Returns whether the pointer is over the image.
    pub fn draw_highlight(
        &mut self,
        pointer: Option<(i32, i32)>,
        down: bool,
        available: (i32, i32),
        total_window: (i32, i32),
        size: u32,
        color: Rgba,
    ) -> (over: bool)
        requires
            old(self).wf(),
            size <= POINT_LIMIT,
        ensures
            final(self).wf(),
            same_settings(final(self), old(self)),
            over == sample_at(old(self), pointer, available, total_window).is_some(),
            match sample_at(old(self), pointer, available, total_window) {
                None => final(self).screenshot@ == old(self).screenshot@ && final(self).starting_point.is_none(),
                Some(q) => if !down {
                    final(self).screenshot@ == old(self).screenshot@ && final(self).starting_point.is_none()
                } else {
                    match old(self).starting_point {
                        None => final(self).screenshot@ == old(self).screenshot@ && final(self).starting_point == Some(q),
                        Some(a) => {
                            &&& highlight_result(final(self).screenshot@, old(self).screenshot@, a, q, size as int, color)
                            &&& final(self).starting_point == Some(
                                (if a.0 > q.0 { (q.0 - 1) as i32 } else { (q.0 + 1) as i32 }, q.1),
                            )
                        },
                    }
                },
            },
    {
        match pointer {
            None => {
                self.starting_point = None;
                false
            },
            Some(c) => match self.calculate_texture_coordinates(c, available, total_window, false) {
                None => {
                    self.starting_point = None;
                    false
                },
                Some(q) => {
                    if down {
                        match self.starting_point {
                            None => {
                                self.starting_point = Some(q);
                            },
                            Some(a) => {
                                self.screenshot.highlight_line(a, q, size, color);
                                let nx = if a.0 > q.0 { q.0 - 1 } else { q.0 + 1 };
                                self.starting_point = Some((nx, q.1));
                            },
                        }
                    } else {
                        self.starting_point = None;
                    }
                    true
                },
            },
        }
    }

    /// One frame of the eraser: over the image with the button down, the pixels within
    /// `size` of the pointer are restored from the capture. Returns whether the pointer
    /// is over the image.
    pub fn erase(&mut self, pointer: Option<(i32, i32)>, down: bool, available: (i32, i32), total_window: (i32, i32), size: u32) -> (over: bool)
        requires
            old(self).wf(),
        ensures
            final(self).wf(),
            same_settings(final(self), old(self)),
            over == sample_at(old(self), pointer, available, total_window).is_some(),
            match sample_at(old(self), pointer, available, total_window) {
                None => final(self).screenshot@ == old(self).screenshot@ && final(self).starting_point.is_none(),
                Some(q) => {
                    &&& final(self).starting_point == old(self).starting_point
                    &&& if down {
                        erase_result(final(self).screenshot@, old(self).screenshot@, q.0, q.1, size)
                    } else {
                        final(self).screenshot@ == old(self).screenshot@
                    }
                },
            },
    {
        if let Some(c) = pointer {
            if let Some(q) = self.calculate_texture_coordinates(c, available, total_window, false) {
                if down {
                    self.screenshot.erase_point(q.0, q.1, size);
                }
                return true;
            }
        }
        self.starting_point = None;
        false
    }

    /// One frame of the rectangle tool. The first sample with the button down anchors
    /// the corner; each later one redraws the preview from the checkpoint. On release
    /// the final rectangle is drawn, becomes the new checkpoint, and its two corners are
    /// returned. Leaving the image, or a frame with no pointer, drops the gesture.
    pub fn draw_rectangle(
        &mut self,
        pointer: Option<(i32, i32)>,
        down: bool,
        available: (i32, i32),
        total_window: (i32, i32),
        size: u32,
        color: Rgba,
    ) -> (done: Option<((i32, i32), (i32, i32))>)
        requires
            old(self).wf(),
            size <= POINT_LIMIT,
        ensures
            final(self).wf(),
            same_settings(final(self), old(self)),
            match sample_at(old(self), pointer, available, total_window) {
                None => {
                    &&& done.is_none()
                    &&& final(self).screenshot@ == old(self).screenshot@
                    &&& final(self).starting_point.is_none()
                },
                Some(q) => match old(self).starting_point {
                    None => {
                        &&& done.is_none()
                        &&& final(self).screenshot@ == old(self).screenshot@
                        &&& final(self).starting_point == if down { Some(q) } else { None }
                    },
                    Some(a) => {
                        &&& rectangle_result(
                            (final(self).screenshot@.0, final(self).screenshot@.1, preview_base_of(old(self))),
                            old(self).screenshot@,
                            a,
                            q,
                            size as int,
                            color,
                        )
                        &&& if down {
                            &&& done.is_none()
                            &&& final(self).starting_point == Some(a)
                            &&& final(self).screenshot@.2 == preview_base_of(old(self))
                        } else {
                            &&& done == Some((a, q))
                            &&& final(self).starting_point.is_none()
                            &&& final(self).screenshot@.2 == final(self).screenshot@.0
                        }
                    },
                },
            },
    {
        match pointer {
            None => {
                self.starting_point = None;
                None
            },
            Some(c) => match self.calculate_texture_coordinates(c, available, total_window, false) {
                None => {
                    self.starting_point = None;
                    None
                },
                Some(q) => match self.starting_point {
                    None => {
                        if down {
                            self.starting_point = Some(q);
                        }
                        None
                    },
                    Some(a) => {
                        self.screenshot.rectangle(a, q, size, color);
                        if down {
                            None
                        } else {
                            self.starting_point = None;
                            self.screenshot.save_intermediate_image();
                            Some((a, q))
                        }
                    },
                },
            },
        }
    }

    /// One frame of the circle tool: the first sample with the button down anchors the
    /// centre, later ones redraw the preview from the checkpoint, and on release the
    /// final circle is drawn and the image becomes the new checkpoint.
    pub fn draw_circle(
        &mut self,
        pointer: Option<(i32, i32)>,
        down: bool,
        available: (i32, i32),
        total_window: (i32, i32),
        size: u32,
        color: Rgba,
    )
        requires
            old(self).wf(),
            size <= POINT_LIMIT,
        ensures
            final(self).wf(),
            same_settings(final(self), old(self)),
            match sample_at(old(self), pointer, available, total_window) {
                None => {
                    &&& final(self).screenshot@ == old(self).screenshot@
                    &&& final(self).starting_point.is_none()
                },
                Some(q) => if down {
                    match old(self).starting_point {
                        None => final(self).screenshot@ == old(self).screenshot@ && final(self).starting_point == Some(q),
                        Some(a) => circle_result(final(self).screenshot@, old(self).screenshot@, a, q, size as int, color)
                            && final(self).starting_point == Some(a),
                    }
                } else {
                    &&& final(self).starting_point.is_none()
                    &&& final(self).screenshot@.2 == final(self).screenshot@.0
                    &&& match old(self).starting_point {
                        None => final(self).screenshot@.0 == old(self).screenshot@.0 && final(self).screenshot@.1
                            == old(self).screenshot@.1,
                        Some(a) => circle_result(
                            (final(self).screenshot@.0, final(self).screenshot@.1, preview_base_of(old(self))),
                            old(self).screenshot@,
                            a,
                            q,
                            size as int,
                            color,
                        ),
                    }
                },
            },
    {
        if let Some(c) = pointer {
            match self.calculate_texture_coordinates(c, available, total_window, false) {
                None => {
                    self.starting_point = None;
                },
                Some(q) => {
                    if down {
                        match self.starting_point {
                            None => {
                                self.starting_point = Some(q);
                            },
                            Some(a) => {
                                self.screenshot.circle(a, q, size, color);
                            },
                        }
                    } else {
                        if let Some(a) = self.starting_point {
                            self.screenshot.circle(a, q, size, color);
                        }
                        self.starting_point = None;
                        self.screenshot.save_intermediate_image();
                    }
                },
            }
        } else {
            self.starting_point = None;
        }
    }

    /// Crops to the rectangle dragged from corner `a` to corner `b`, less a margin of
    /// `CROP_MARGIN` pixels on each side that drops the preview's own border. A window
    /// that does not fit the image is a `ResizeSize` error, and the working image is put
    /// back to the checkpoint (a stale checkpoint of another size is not restored).
    pub fn apply_crop(&mut self, a: (i32, i32), b: (i32, i32)) -> (r: Result<(), ScreenShotError>)
        requires
            old(self).wf(),
        ensures
            final(self).wf(),
            same_settings(final(self), old(self)),
            final(self).starting_point == old(self).starting_point,
            crop_result(final(self).screenshot@, old(self).screenshot@, a, b, r),
    {
        let ax = a.0 as i64;
        let ay = a.1 as i64;
        let bx = b.0 as i64;
        let by = b.1 as i64;
        let left = (if ax < bx { ax } else { bx }) + CROP_MARGIN as i64;
        let top = (if ay < by { ay } else { by }) + CROP_MARGIN as i64;
        let width = (if ax < bx { bx - ax } else { ax - bx }) - 2 * CROP_MARGIN as i64;
        let height = (if ay < by { by - ay } else { ay - by }) - 2 * CROP_MARGIN as i64;
        let w = self.screenshot.screenshot.width as i64;
        let h = self.screenshot.screenshot.height as i64;
        if left < 0 || top < 0 || width < 0 || height < 0 || left + width > w || top + height > h {
            self.screenshot.restore_intermediate_image();
            return Err(ScreenShotError::ResizeSize);
        }
        self.screenshot.resize_image(left as u32, top as u32, height as i32, width as i32)
    }

    /// One frame of the crop tool. The first sample with the button down anchors a
    /// corner and later ones preview the rectangle in white, two pixels wide, over the
    /// checkpoint (taken when the tool was selected). On release the preview is removed,
    /// the image is cropped to the dragged rectangle with `apply_crop`, and its outcome is
    /// returned; a failed crop leaves the pre-crop image and is recorded with
    /// `manage_errors`. Leaving the image, or a frame with no pointer, drops the gesture.
    pub fn draw_crop(
        &mut self,
        pointer: Option<(i32, i32)>,
        down: bool,
        available: (i32, i32),
        total_window: (i32, i32),
    ) -> (done: Option<Result<(), ScreenShotError>>)
        requires
            old(self).wf(),
        ensures
            final(self).wf(),
            match sample_at(old(self), pointer, available, total_window) {
                None => {
                    &&& done.is_none()
                    &&& final(self).screenshot@ == old(self).screenshot@
                    &&& final(self).starting_point.is_none()
                    &&& same_settings(final(self), old(self))
                },
                Some(q) => match old(self).starting_point {
                    None => {
                        &&& done.is_none()
                        &&& final(self).screenshot@ == old(self).screenshot@
                        &&& final(self).starting_point == if down { Some(q) } else { None }
                        &&& same_settings(final(self), old(self))
                    },
                    Some(a) => if down {
                        &&& done.is_none()
                        &&& final(self).starting_point == Some(a)
                        &&& same_settings(final(self), old(self))
                        &&& rectangle_result(final(self).screenshot@, old(self).screenshot@, a, q, 2, crop_ink())
                    } else {
                        let v = old(self).screenshot@;
                        &&& final(self).starting_point.is_none()
                        &&& done matches Some(r) && crop_result(
                            final(self).screenshot@,
                            (preview_base(v), v.1, v.2),
                            a,
                            q,
                            r,
                        ) && match r {
                            Ok(_) => same_settings(final(self), old(self)),
                            Err(e) => {
                                &&& final(self).drawing_mode.is_none()
                                &&& final(self).previous_drawing_mode == old(self).drawing_mode
                                &&& final(self).error == Some(e)
                            },
                        }
                    },
                },
            },
    {
        match pointer {
            None => {
                self.starting_point = None;
                None
            },
            Some(c) => match self.calculate_texture_coordinates(c, available, total_window, false) {
                None => {
                    self.starting_point = None;
                    None
                },
                Some(q) => match self.starting_point {
                    None => {
                        if down {
                            self.starting_point = Some(q);
                        }
                        None
                    },
                    Some(a) => {
                        if down {
                            self.screenshot.rectangle(a, q, 2, Rgba { r: 255, g: 255, b: 255, a: 255 });
                            None
                        } else {
                            self.starting_point = None;
                            self.screenshot.restore_intermediate_image();
                            let r = self.apply_crop(a, q);
                            if let Err(e) = r {
                                let _ = self.manage_errors::<()>(Err(e));
                            }
                            Some(r)
                        }
                    },
                },
            },
        }
    }

    /// Where the image is shown when fitted into an `available` area of a window
    /// `total_window` wide; see `letterbox`.
    pub fn calculate_rect_image(&self, available: (i32, i32), total_window: (i32, i32)) -> (r: Option<ImageRect>)
        ensures
            ({
                let v = Viewport {
                    available_w: available.0,
                    available_h: available.1,
                    window_w: total_window.0,
                    panel_h: self.upper_panel_height,
                };
                let w = self.screenshot.screenshot.width as int;
                let h = self.screenshot.screenshot.height as int;
                let n = scale_num(w, h, v);
                let d = scale_den(w, h, v);
                &&& r.is_some() == geometry_ok(w, h, v)
                &&& r matches Some(b) ==> {
                    &&& b.scale_num == n
                    &&& b.scale_den == d
                    &&& b.width == w * n / d
                    &&& b.height == h * n / d
                    &&& b.left == (v.window_w * d - w * n) / (2 * d)
                    &&& b.top == ((2 * area_top(v) + v.available_h) * d - h * n) / (2 * d)
                }
            }),
    {
        let v = Viewport {
            available_w: available.0,
            available_h: available.1,
            window_w: total_window.0,
            panel_h: self.upper_panel_height,
        };
        letterbox(self.screenshot.screenshot.width, self.screenshot.screenshot.height, v)
    }

    /// Stamps the typed `text` with its top-left corner at the pixel under the text box's
    /// corner `box_pos` (clamped into `0 ..= POINT_LIMIT`), in the tool colour, with glyphs
    /// as tall as `tool_size` screen pixels, and closes the text tool: no tool is selected
    /// afterwards. A degenerate display is a `ResizeSize` error, and a line the font cannot
    /// lay out at that size is a `FontError`.
    pub fn commit_text(
        &mut self,
        text: &str,
        box_pos: (i32, i32),
        available: (i32, i32),
        total_window: (i32, i32),
        font: &Vec<u8>,
    ) -> (r: Result<(), ScreenShotError>)
        requires
            old(self).wf(),
        ensures
            final(self).wf(),
            final(self).drawing_mode.is_none(),
            same_settings_but_mode(final(self), old(self)),
            final(self).starting_point == old(self).starting_point,
            ({
                let v = Viewport {
                    available_w: available.0,
                    available_h: available.1,
                    window_w: total_window.0,
                    panel_h: old(self).upper_panel_height,
                };
                let w = old(self).screenshot.screenshot.width;
                let h = old(self).screenshot.screenshot.height;
                match pixel_under(w, h, v, box_pos, true) {
                    None => r == Err::<(), ScreenShotError>(ScreenShotError::ResizeSize) && final(self).screenshot@
                        == old(self).screenshot@,
                    Some(p) => {
                        let s = glyph_size(old(self).tool_size as int, scale_num(w as int, h as int, v), scale_den(w as int, h as int, v));
                        text_result(
                            final(self).screenshot@,
                            old(self).screenshot@,
                            text.spec_bytes(),
                            clamp_coord(p.0) as i32,
                            clamp_coord(p.1) as i32,
                            old(self).tool_color,
                            s as u32,
                            s as u32,
                            font@,
                            r,
                        )
                    },
                }
            }),
    {
        self.drawing_mode = None;
        let v = Viewport {
            available_w: available.0,
            available_h: available.1,
            window_w: total_window.0,
            panel_h: self.upper_panel_height,
        };
        let w = self.screenshot.screenshot.width;
        let h = self.screenshot.screenshot.height;
        let p = match screen_to_pixel(w, h, v, box_pos, true) {
            Some(p) => p,
            None => {
                return Err(ScreenShotError::ResizeSize);
            },
        };
        let rect = match letterbox(w, h, v) {
            Some(b) => b,
            None => {
                return Err(ScreenShotError::ResizeSize);
            },
        };
        let x = if p.0 < 0 { 0 } else if p.0 > POINT_LIMIT { POINT_LIMIT } else { p.0 };
        let y = if p.1 < 0 { 0 } else if p.1 > POINT_LIMIT { POINT_LIMIT } else { p.1 };
        proof {
            assert(self.tool_size as int * rect.scale_den <= 0x1_0000_0000 * 0x80_0000) by (nonlinear_arith)
                requires 0 < rect.scale_den <= 0x80_0000, self.tool_size <= 0xffff_ffff;
            assert(self.tool_size as int * rect.scale_den >= 0) by (nonlinear_arith)
                requires 0 < rect.scale_den;
        }
        let g = self.tool_size as i64 * rect.scale_den / rect.scale_num;
        let s: u32 = if g > 0x1_0000 { 0x1_0000 } else { g as u32 };
        self.screenshot.draw_text(text, x, y, self.tool_color, s, s, font)
    }

    /// Reads the keys pressed in the text box this frame. Enter with Shift adds a line
    /// break, Enter alone commits (see `commit_text`), Escape discards the text and
    /// closes the text tool.
    pub fn text_key(&mut self, enter: bool, shift: bool, escape: bool) -> (k: TextKey)
        ensures
            k == (if enter && shift {
                TextKey::Newline
            } else if enter {
                TextKey::Commit
            } else if escape {
                TextKey::Discard
            } else {
                TextKey::Nothing
            }),
            final(self).drawing_mode == (if k == TextKey::Discard { None } else { old(self).drawing_mode }),
            same_settings_but_mode(final(self), old(self)),
            final(self).screenshot == old(self).screenshot,
            final(self).starting_point == old(self).starting_point,
    {
        if enter && shift {
            TextKey::Newline
        } else if enter {
            TextKey::Commit
        } else if escape {
            self.drawing_mode = None;
            TextKey::Discard
        } else {
            TextKey::Nothing
        }
    }

    /// Puts the tool aside while a dialog is open or an error is shown: no tool is
    /// selected, and the one that was is remembered.
    pub fn put_tool_aside(&mut self)
        ensures
            final(self).drawing_mode.is_none(),
            final(self).previous_drawing_mode == old(self).drawing_mode,
            final(self).screenshot == old(self).screenshot,
            final(self).starting_point == old(self).starting_point,
            final(self).shape == old(self).shape,
            final(self).tool_color == old(self).tool_color,
            final(self).tool_size == old(self).tool_size,
            final(self).upper_panel_height == old(self).upper_panel_height,
            final(self).show_image == old(self).show_image,
            final(self).error == old(self).error,
    {
        self.previous_drawing_mode = self.drawing_mode;
        self.drawing_mode = None;
    }

    /// Takes the remembered tool back up when a dialog is closed.
    pub fn resume_tool(&mut self)
        ensures
            final(self).drawing_mode == old(self).previous_drawing_mode,
            final(self).previous_drawing_mode == old(self).previous_drawing_mode,
            final(self).screenshot == old(self).screenshot,
            final(self).starting_point == old(self).starting_point,
            final(self).shape == old(self).shape,
            final(self).tool_color == old(self).tool_color,
            final(self).tool_size == old(self).tool_size,
            final(self).upper_panel_height == old(self).upper_panel_height,
            final(self).show_image == old(self).show_image,
            final(self).error == old(self).error,
    {
        self.drawing_mode = self.previous_drawing_mode;
    }

    /// Starts editing a new capture: it replaces the image, is put on display, and any
    /// gesture in progress on the old image is dropped.
    pub fn load_capture(&mut self, shot: Screenshot)
        requires
            shot.wf(),
        ensures
            final(self).wf(),
            final(self).screenshot == shot,
            final(self).starting_point.is_none(),
            final(self).show_image,
            final(self).drawing_mode == old(self).drawing_mode,
            final(self).shape == old(self).shape,
            final(self).tool_color == old(self).tool_color,
            final(self).tool_size == old(self).tool_size,
            final(self).previous_drawing_mode == old(self).previous_drawing_mode,
            final(self).upper_panel_height == old(self).upper_panel_height,
            final(self).error == old(self).error,
    {
        self.screenshot = shot;
        self.starting_point = None;
        self.show_image = true;
    }

    /// Selects `mode` as `toggle_drawing_mode` does, dropping any gesture in progress.
    /// Entering the shape or crop tool first makes the working image the checkpoint, so
    /// that earlier edits are fixed before previews start.
    pub fn select_tool(&mut self, mode: DrawingMode)
        requires
            old(self).wf(),
        ensures
            final(self).wf(),
            final(self).drawing_mode == if old(self).drawing_mode == Some(mode) {
                None
            } else {
                Some(mode)
            },
            final(self).show_image,
            final(self).starting_point.is_none(),
            final(self).screenshot@.0 == old(self).screenshot@.0,
            final(self).screenshot@.1 == old(self).screenshot@.1,
            final(self).screenshot@.2 == (if (final(self).drawing_mode == Some(DrawingMode::Shape)
                || final(self).drawing_mode == Some(DrawingMode::Crop)) {
                old(self).screenshot@.0
            } else {
                old(self).screenshot@.2
            }),
    {
        self.toggle_drawing_mode(mode);
        self.starting_point = None;
        match self.drawing_mode {
            Some(DrawingMode::Shape) => self.screenshot.save_intermediate_image(),
            Some(DrawingMode::Crop) => self.screenshot.save_intermediate_image(),
            _ => {},
        }
    }

    /// Opens the colour or size picker: an active brush, highlighter or shape tool is
    /// paused, remembering it so that closing the picker resumes it. Other tools are
    /// left as they are.
    pub fn open_picker(&mut self)
        ensures
            pausable(old(self).drawing_mode) ==> final(self).drawing_mode == Some(DrawingMode::Pause)
                && final(self).previous_drawing_mode == old(self).drawing_mode,
            !pausable(old(self).drawing_mode) ==> final(self).drawing_mode == old(self).drawing_mode
                && final(self).previous_drawing_mode == old(self).previous_drawing_mode,
            final(self).screenshot == old(self).screenshot,
            final(self).starting_point == old(self).starting_point,
    {
        match self.drawing_mode {
            Some(DrawingMode::Paint) | Some(DrawingMode::Highlight) | Some(DrawingMode::Shape) => {
                self.previous_drawing_mode = self.drawing_mode;
                self.drawing_mode = Some(DrawingMode::Pause);
            },
            _ => {},
        }
    }

    /// Closes the picker (a click elsewhere or Escape): a paused tool resumes.
    pub fn close_picker(&mut self)
        ensures
            final(self).drawing_mode == (if (old(self).drawing_mode == Some(DrawingMode::Pause)) {
                old(self).previous_drawing_mode
            } else {
                old(self).drawing_mode
            }),
            final(self).previous_drawing_mode == old(self).previous_drawing_mode,
            final(self).screenshot == old(self).screenshot,
            final(self).starting_point == old(self).starting_point,
    {
        match self.drawing_mode {
            Some(DrawingMode::Pause) => {
                self.drawing_mode = self.previous_drawing_mode;
            },
            _ => {},
        }
    }

    /// Turns the image a quarter, clockwise when `to_right` holds. The tool is deselected
    /// and any gesture in progress is dropped.
    pub fn turn_image(&mut self, to_right: bool)
        requires
            old(self).wf(),
        ensures
            final(self).wf(),
            final(self).drawing_mode.is_none(),
            final(self).starting_point.is_none(),
            turned(final(self).screenshot@.0, old(self).screenshot@.0, to_right),
            turned(final(self).screenshot@.1, old(self).screenshot@.1, to_right),
            final(self).screenshot.intermediate_image@ == old(self).screenshot.intermediate_image@,
    {
        self.drawing_mode = None;
        self.starting_point = None;
        if to_right {
            self.screenshot.rotate_sx_90();
        } else {
            self.screenshot.rotate_dx_90();
        }
    }
}

/// A coordinate clamped into `0 ..= POINT_LIMIT`.
pub open spec fn clamp_coord(c: i32) -> int {
    if c < 0 { 0 } else if c > POINT_LIMIT { POINT_LIMIT as int } else { c as int }
}

/// The glyph size in image pixels for text `tool_size` screen pixels tall at display
/// scale `num / den`, at most 65536.
pub open spec fn glyph_size(tool_size: int, num: int, den: int) -> int {
    let g = tool_size * den / num;
    if g > 0x1_0000 { 0x1_0000 } else { g }
}

impl Default for ScreenshotStr {
    /// A session with an empty image and no tool selected.
    fn default() -> (r: ScreenshotStr)
        ensures
            r.wf(),
            r.screenshot.screenshot.width == 0 && r.screenshot.screenshot.height == 0,
            r.drawing_mode.is_none(),
            r.previous_drawing_mode == Some(DrawingMode::Pause),
            r.shape == Some(Shape::Rectangle),
            r.tool_color == (Rgba { r: 0, g: 0, b: 0, a: 255 }),
            r.tool_size == 10,
            r.upper_panel_height == 0,
            r.starting_point.is_none(),
            !r.show_image,
            r.error.is_none(),
    {
        ScreenshotStr::new()
    }
}

/// What `apply_crop(a, b)` returning `r` makes of the screenshot `v`.
pub open spec fn crop_result(
    new: ((u32, u32, Seq<Rgba>), (u32, u32, Seq<Rgba>), (u32, u32, Seq<Rgba>)),
    v: ((u32, u32, Seq<Rgba>), (u32, u32, Seq<Rgba>), (u32, u32, Seq<Rgba>)),
    a: (i32, i32),
    b: (i32, i32),
    r: Result<(), ScreenShotError>,
) -> bool {
    let left = crop_left(a, b);
    let top = crop_top(a, b);
    let width = crop_side(a.0, b.0);
    let height = crop_side(a.1, b.1);
    let ok = 0 <= left && 0 <= top && 0 <= width && 0 <= height && left + width <= v.0.0 && top + height <= v.0.1;
    &&& r.is_ok() == ok
    &&& r matches Err(e) ==> e == ScreenShotError::ResizeSize
    &&& ok ==> {
        &&& is_crop(new.0, v.0, left, top, width, height)
        &&& is_crop(new.1, v.1, left, top, width, height)
        &&& new.2 == new.0
    }
    &&& !ok ==> {
        &&& new.0 == (if same_size(v.2, v.0) { v.2 } else { v.0 })
        &&& new.1 == v.1
        &&& new.2 == v.2
    }
}

/// The colour of the crop tool's preview.
pub open spec fn crop_ink() -> Rgba {
    Rgba { r: 255, g: 255, b: 255, a: 255 }
}

/// Margin dropped on each side of a dragged crop rectangle: the width of its border.
pub const CROP_MARGIN: i32 = 2;

/// Left edge of the crop window dragged from `a` to `b`.
pub open spec fn crop_left(a: (i32, i32), b: (i32, i32)) -> int {
    (if a.0 < b.0 { a.0 as int } else { b.0 as int }) + CROP_MARGIN
}

/// Top edge of the crop window dragged from `a` to `b`.
pub open spec fn crop_top(a: (i32, i32), b: (i32, i32)) -> int {
    (if a.1 < b.1 { a.1 as int } else { b.1 as int }) + CROP_MARGIN
}

/// Side of the crop window between two coordinates of the dragged corners.
pub open spec fn crop_side(p: i32, q: i32) -> int {
    (if p < q { q - p } else { p - q }) - 2 * CROP_MARGIN
}

/// The tools that a picker pauses: those with a colour.
pub open spec fn pausable(m: Option<DrawingMode>) -> bool {
    m == Some(DrawingMode::Paint) || m == Some(DrawingMode::Highlight) || m == Some(DrawingMode::Shape)
}

/// `new` is `old` turned a quarter, clockwise or not.
pub open spec fn turned(new: (u32, u32, Seq<Rgba>), old: (u32, u32, Seq<Rgba>), clockwise: bool) -> bool {
    if clockwise {
        is_turn_clockwise(new, old)
    } else {
        is_turn_counter_clockwise(new, old)
    }
}

/// The checkpoint that a shape preview of this session draws over.
pub open spec fn preview_base_of(s: &ScreenshotStr) -> (u32, u32, Seq<Rgba>) {
    preview_base(s.screenshot@)
}

} // verus!
