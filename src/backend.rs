//! The calls into the imaging crates. Each function here converts the library's pixel
//! storage to an `image::RgbaImage`, makes one call, and converts the result back.
use vstd::prelude::*;
use crate::pixel::Rgba;
use crate::raster::{grid_wf, index_of};

verus! {

/// The largest coordinate magnitude handed to the line and text routines, so that
/// their 32-bit walks never overflow.
pub const WALK_LIMIT: i64 = 0x4000_0000;

/// The largest centre coordinate or radius handed to the circle routine, whose 32-bit
/// walk adds the two.
pub const RING_LIMIT: i32 = 0x2000_0000;

/// The cells that `imageproc::drawing::draw_line_segment_mut` walks between two points.
pub uninterp spec fn segment_cover(x0: int, y0: int, x1: int, y1: int) -> Set<(int, int)>;

/// The cells that `imageproc::drawing::draw_hollow_circle_mut` visits for a circle.
pub uninterp spec fn circle_cover(cx: int, cy: int, radius: int) -> Set<(int, int)>;

/// Whether `rusttype::Font::try_from_bytes` accepts the bytes as a font, which it does
/// exactly when `ttf_parser::Face::from_slice` reads them.
pub uninterp spec fn font_parses(font: Seq<u8>) -> bool;

/// The ascender, descender and number of glyphs that `ttf_parser::Face::from_slice`
/// reads from a font's header tables.
pub uninterp spec fn face_header(font: Seq<u8>) -> (int, int, int);

/// The glyph of each character of a line (its bytes read as UTF-8 text), as
/// `ttf_parser::Face::glyph_index` finds it, 0 for a character the font lacks.
pub uninterp spec fn line_glyphs(font: Seq<u8>, line: Seq<u8>) -> Seq<u16>;

/// The horizontal advance that `ttf_parser::Face::glyph_hor_advance` gives for a glyph.
pub uninterp spec fn advance_of(font: Seq<u8>, glyph: int) -> Option<u16>;

/// The left side bearing that `ttf_parser::Face::glyph_hor_side_bearing` gives for a glyph.
pub uninterp spec fn bearing_of(font: Seq<u8>, glyph: int) -> Option<i16>;

/// Whether one line of text can be laid out in `font` at glyph size `sx × sy`: the font
/// reads, its ascender lies above its descender, every glyph of the line exists and has
/// a horizontal advance and side bearing, and the line's extent in font units, scaled,
/// stays far inside 32 bits.
pub open spec fn renders(font: Seq<u8>, line: Seq<u8>, sx: int, sy: int) -> bool {
    let h = face_header(font);
    let gs = line_glyphs(font, line);
    let m = if sx > sy { sx } else { sy };
    &&& font_parses(font)
    &&& h.0 - h.1 >= 1
    &&& (gs.len() + 1) * m <= 0x800 * (h.0 - h.1)
    &&& forall|i: int|
        0 <= i < gs.len() ==> (#[trigger] gs[i] as int) < h.2 && advance_of(font, gs[i] as int).is_some()
            && bearing_of(font, gs[i] as int).is_some()
}

/// The pixels after `imageproc::drawing::draw_text_mut` blends one line of glyphs in.
pub uninterp spec fn text_stamp(
    canvas: (u32, u32, Seq<Rgba>),
    font: Seq<u8>,
    x: int,
    y: int,
    scale_x: int,
    scale_y: int,
    color: Rgba,
    line: Seq<u8>,
) -> Seq<Rgba>;

/// Whether `(x, y)` lies on the outline of the rectangle spanning `left..=right`
/// and `top..=bottom`.
pub open spec fn on_outline(left: int, top: int, right: int, bottom: int, x: int, y: int) -> bool {
    ||| (left <= x <= right && (y == top || y == bottom))
    ||| (top <= y <= bottom && (x == left || x == right))
}

/// Relies on `image::imageops::crop_imm`: inside the image it copies the window
/// whose top-left cell is `(x, y)`.
#[verifier::external_body]
pub(crate) fn crop_cells(px: &Vec<Rgba>, w: u32, h: u32, x: u32, y: u32, cw: u32, ch: u32) -> (r: Vec<Rgba>)
    requires
        grid_wf((w, h, px@)),
        x as int + cw as int <= w,
        y as int + ch as int <= h,
    ensures
        r@.len() == cw as int * ch as int,
        forall|i: int, j: int|
            0 <= i < cw && 0 <= j < ch ==> #[trigger] r@[index_of(cw as int, i, j)] == px@[index_of(
                w as int,
                x + i,
                y + j,
            )],
{
    let raw: Vec<u8> = px.iter().flat_map(|p| [p.r, p.g, p.b, p.a]).collect();
    let img = image::RgbaImage::from_raw(w, h, raw).unwrap();
    let out = image::imageops::crop_imm(&img, x, y, cw, ch).to_image();
    out.pixels().map(|p| Rgba { r: p[0], g: p[1], b: p[2], a: p[3] }).collect()
}

/// Relies on `image::imageops::rotate90`: a quarter turn clockwise, so the result is
/// `h` wide and cell `(i, j)` comes from `(j, h - 1 - i)`.
#[verifier::external_body]
pub(crate) fn rotate_cells_90(px: &Vec<Rgba>, w: u32, h: u32) -> (r: Vec<Rgba>)
    requires
        grid_wf((w, h, px@)),
    ensures
        r@.len() == px@.len(),
        forall|i: int, j: int|
            0 <= i < h && 0 <= j < w ==> #[trigger] r@[index_of(h as int, i, j)] == px@[index_of(
                w as int,
                j,
                h - 1 - i,
            )],
{
    let raw: Vec<u8> = px.iter().flat_map(|p| [p.r, p.g, p.b, p.a]).collect();
    let img = image::RgbaImage::from_raw(w, h, raw).unwrap();
    let out = image::imageops::rotate90(&img);
    out.pixels().map(|p| Rgba { r: p[0], g: p[1], b: p[2], a: p[3] }).collect()
}

/// Relies on `image::imageops::rotate270`: a quarter turn counter-clockwise, so the
/// result is `h` wide and cell `(i, j)` comes from `(w - 1 - j, i)`.
#[verifier::external_body]
pub(crate) fn rotate_cells_270(px: &Vec<Rgba>, w: u32, h: u32) -> (r: Vec<Rgba>)
    requires
        grid_wf((w, h, px@)),
    ensures
        r@.len() == px@.len(),
        forall|i: int, j: int|
            0 <= i < h && 0 <= j < w ==> #[trigger] r@[index_of(h as int, i, j)] == px@[index_of(
                w as int,
                w - 1 - j,
                i,
            )],
{
    let raw: Vec<u8> = px.iter().flat_map(|p| [p.r, p.g, p.b, p.a]).collect();
    let img = image::RgbaImage::from_raw(w, h, raw).unwrap();
    let out = image::imageops::rotate270(&img);
    out.pixels().map(|p| Rgba { r: p[0], g: p[1], b: p[2], a: p[3] }).collect()
}

/// Relies on `imageproc::drawing::draw_line_segment_mut`: it sets the walked cells that
/// lie inside the image to `color` and touches nothing else.
#[verifier::external_body]
pub(crate) fn paint_segment(px: &mut Vec<Rgba>, w: u32, h: u32, x0: i64, y0: i64, x1: i64, y1: i64, color: Rgba)
    requires
        grid_wf((w, h, old(px)@)),
        -WALK_LIMIT <= x0 <= WALK_LIMIT,
        -WALK_LIMIT <= y0 <= WALK_LIMIT,
        -WALK_LIMIT <= x1 <= WALK_LIMIT,
        -WALK_LIMIT <= y1 <= WALK_LIMIT,
    ensures
        final(px)@.len() == old(px)@.len(),
        forall|x: int, y: int|
            0 <= x < w && 0 <= y < h ==> #[trigger] final(px)@[index_of(w as int, x, y)] == if segment_cover(
                x0 as int,
                y0 as int,
                x1 as int,
                y1 as int,
            ).contains((x, y)) {
                color
            } else {
                old(px)@[index_of(w as int, x, y)]
            },
{
    let raw: Vec<u8> = px.iter().flat_map(|p| [p.r, p.g, p.b, p.a]).collect();
    let mut img = image::RgbaImage::from_raw(w, h, raw).unwrap();
    let c = image::Rgba([color.r, color.g, color.b, color.a]);
    imageproc::drawing::draw_line_segment_mut(&mut img, (x0 as _, y0 as _), (x1 as _, y1 as _), c);
    *px = img.pixels().map(|p| Rgba { r: p[0], g: p[1], b: p[2], a: p[3] }).collect();
}

/// Relies on `imageproc::drawing::draw_hollow_rect_mut`: it draws the four sides as
/// axis-aligned segments, which cover exactly the outline cells inside the image.
/// Coordinates up to 2^24 pass through `f32` unchanged.
#[verifier::external_body]
pub(crate) fn paint_outline(px: &mut Vec<Rgba>, w: u32, h: u32, left: i32, top: i32, rw: u32, rh: u32, color: Rgba)
    requires
        grid_wf((w, h, old(px)@)),
        0 < rw,
        0 < rh,
        -0x100_0000 <= left,
        -0x100_0000 <= top,
        left + rw <= 0x100_0000,
        top + rh <= 0x100_0000,
    ensures
        final(px)@.len() == old(px)@.len(),
        forall|x: int, y: int|
            0 <= x < w && 0 <= y < h ==> #[trigger] final(px)@[index_of(w as int, x, y)] == if on_outline(
                left as int,
                top as int,
                left + rw - 1,
                top + rh - 1,
                x,
                y,
            ) {
                color
            } else {
                old(px)@[index_of(w as int, x, y)]
            },
{
    let raw: Vec<u8> = px.iter().flat_map(|p| [p.r, p.g, p.b, p.a]).collect();
    let mut img = image::RgbaImage::from_raw(w, h, raw).unwrap();
    let c = image::Rgba([color.r, color.g, color.b, color.a]);
    let rect = imageproc::rect::Rect::at(left, top).of_size(rw, rh);
    imageproc::drawing::draw_hollow_rect_mut(&mut img, rect, c);
    *px = img.pixels().map(|p| Rgba { r: p[0], g: p[1], b: p[2], a: p[3] }).collect();
}

/// Relies on `imageproc::drawing::draw_hollow_circle_mut`: it sets the visited cells that
/// lie inside the image to `color` and touches nothing else.
#[verifier::external_body]
pub(crate) fn paint_circle(px: &mut Vec<Rgba>, w: u32, h: u32, cx: i32, cy: i32, radius: i32, color: Rgba)
    requires
        grid_wf((w, h, old(px)@)),
        -RING_LIMIT <= cx <= RING_LIMIT,
        -RING_LIMIT <= cy <= RING_LIMIT,
        -RING_LIMIT <= radius <= RING_LIMIT,
    ensures
        final(px)@.len() == old(px)@.len(),
        forall|x: int, y: int|
            0 <= x < w && 0 <= y < h ==> #[trigger] final(px)@[index_of(w as int, x, y)] == if circle_cover(
                cx as int,
                cy as int,
                radius as int,
            ).contains((x, y)) {
                color
            } else {
                old(px)@[index_of(w as int, x, y)]
            },
{
    let raw: Vec<u8> = px.iter().flat_map(|p| [p.r, p.g, p.b, p.a]).collect();
    let mut img = image::RgbaImage::from_raw(w, h, raw).unwrap();
    let c = image::Rgba([color.r, color.g, color.b, color.a]);
    imageproc::drawing::draw_hollow_circle_mut(&mut img, (cx, cy), radius, c);
    *px = img.pixels().map(|p| Rgba { r: p[0], g: p[1], b: p[2], a: p[3] }).collect();
}

/// Relies on `rusttype::Font::try_from_bytes` to read the font and on
/// `imageproc::drawing::draw_text_mut` to blend the glyphs of one line of text, with its
/// top-left corner at `(x, y)`. The line's bytes are handed over as UTF-8 text.
/// rusttype reads the face with the same `ttf_parser::Face::from_slice`, looks each
/// character up with `glyph_index` (asserting the glyph exists), unwraps
/// `glyph_hor_advance` and `glyph_hor_side_bearing`, and scales by
/// `sy / (ascender - descender)`: `renders` keeps all of that defined and in range.
#[verifier::external_body]
pub(crate) fn stamp_text_line(
    px: &mut Vec<Rgba>,
    w: u32,
    h: u32,
    font: &Vec<u8>,
    x: i32,
    y: i32,
    scale_x: u32,
    scale_y: u32,
    color: Rgba,
    line: &Vec<u8>,
)
    requires
        grid_wf((w, h, old(px)@)),
        -0x100_0000 <= x <= 0x100_0000,
        -0x100_0000 <= y <= 0x100_0000,
        scale_x <= 0x1_0000,
        scale_y <= 0x1_0000,
        renders(font@, line@, scale_x as int, scale_y as int),
    ensures
        final(px)@ == text_stamp((w, h, old(px)@), font@, x as int, y as int, scale_x as int, scale_y as int, color, line@),
        final(px)@.len() == old(px)@.len(),
{
    let Some(f) = rusttype::Font::try_from_bytes(font) else { return };
    let mut img = image::RgbaImage::from_raw(w, h, px.iter().flat_map(|p| [p.r, p.g, p.b, p.a]).collect()).unwrap();
    let scale = rusttype::Scale { x: scale_x as _, y: scale_y as _ };
    let c = image::Rgba([color.r, color.g, color.b, color.a]);
    imageproc::drawing::draw_text_mut(&mut img, c, x, y, scale, &f, &String::from_utf8_lossy(line));
    *px = img.pixels().map(|p| Rgba { r: p[0], g: p[1], b: p[2], a: p[3] }).collect();
}

/// Relies on `ttf_parser::Face::from_slice`, the parser `rusttype::Font::try_from_bytes`
/// uses, to read the font, then on its `ascender`, `descender` and `number_of_glyphs`.
#[verifier::external_body]
pub(crate) fn read_face_header(font: &Vec<u8>) -> (r: Option<(i16, i16, u16)>)
    ensures
        r.is_some() == font_parses(font@),
        r matches Some(t) ==> (t.0 as int, t.1 as int, t.2 as int) == face_header(font@),
{
    let face = ttf_parser::Face::from_slice(font, 0).ok()?;
    Some((face.ascender(), face.descender(), face.number_of_glyphs()))
}

/// Relies on `ttf_parser::Face::glyph_index` for each character of the line, read as
/// UTF-8 text the way `stamp_text_line` hands it over, with 0 for a missing glyph as
/// rusttype takes it.
#[verifier::external_body]
pub(crate) fn glyphs_of_line(font: &Vec<u8>, line: &Vec<u8>) -> (r: Vec<u16>)
    requires
        font_parses(font@),
    ensures
        r@ == line_glyphs(font@, line@),
{
    let Ok(face) = ttf_parser::Face::from_slice(font, 0) else { return Vec::new() };
    String::from_utf8_lossy(line).chars().map(|c| face.glyph_index(c).map_or(0, |g| g.0)).collect()
}

/// Relies on `ttf_parser::Face::glyph_hor_advance`, which rusttype unwraps.
#[verifier::external_body]
pub(crate) fn glyph_advance(font: &Vec<u8>, glyph: u16) -> (r: Option<u16>)
    requires
        font_parses(font@),
    ensures
        r == advance_of(font@, glyph as int),
{
    ttf_parser::Face::from_slice(font, 0).ok()?.glyph_hor_advance(ttf_parser::GlyphId(glyph))
}

/// Relies on `ttf_parser::Face::glyph_hor_side_bearing`, which rusttype unwraps.
#[verifier::external_body]
pub(crate) fn glyph_bearing(font: &Vec<u8>, glyph: u16) -> (r: Option<i16>)
    requires
        font_parses(font@),
    ensures
        r == bearing_of(font@, glyph as int),
{
    ttf_parser::Face::from_slice(font, 0).ok()?.glyph_hor_side_bearing(ttf_parser::GlyphId(glyph))
}

} // verus!
