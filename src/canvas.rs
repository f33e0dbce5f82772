use vstd::prelude::*;
use crate::geometry::{Point, Rect, Size};
use crate::text::{Text, text_chars};
use crate::scene::{Color, DrawOp, Font, Op, ops_view, text_extent};
use embedded_graphics::Drawable;
use embedded_graphics::draw_target::DrawTarget;
use embedded_graphics::geometry::OriginDimensions;
use embedded_graphics::primitives::Primitive;
use embedded_graphics::text::renderer::TextRenderer;
use epd_waveshare::color::TriColor;

verus! {

/// epd-waveshare's three panel colours, a plain enum without fields.
#[verifier::external_type_specification]
pub struct ExTriColor(TriColor);

/// embedded-graphics' monospaced font, used only to hand a font to its text styles.
#[verifier::external_type_specification]
#[verifier::external_body]
pub struct ExMonoFont<'a>(embedded_graphics::mono_font::MonoFont<'a>);

/// Width of the canvas in pixels, the panel being used in landscape.
pub const CANVAS_WIDTH: u32 = 296;

/// Height of the canvas in pixels.
pub const CANVAS_HEIGHT: u32 = 128;

/// Bytes of one bit plane: one bit per pixel.
pub const PLANE_BYTES: usize = 4736;

/// The pixel buffer of the tri-colour panel: a black/white plane followed
/// by a chromatic plane, one bit per pixel each.
///
/// It holds epd-waveshare's `Display` buffer in a private field, turned to
/// landscape; what the buffer holds is named by `canvas_planes`.
#[verifier::external_body]
pub struct Canvas {
    display: epd_waveshare::graphics::Display<128, 296, false, 9472, TriColor>,
}

/// The bytes of both planes of a canvas, the black/white plane first.
pub uninterp spec fn canvas_planes(c: Canvas) -> Seq<u8>;

/// The planes after a line is drawn on them.
pub uninterp spec fn with_line(planes: Seq<u8>, from: Point, to: Point, stroke: u32, color: Color) -> Seq<u8>;

/// The planes after the one-pixel border of a box is drawn on them.
pub uninterp spec fn with_outline(planes: Seq<u8>, rect: Rect, color: Color) -> Seq<u8>;

/// The planes after a line of text is drawn on them.
pub uninterp spec fn with_text(
    planes: Seq<u8>,
    text: Seq<char>,
    at: Point,
    font: Font,
    color: Color,
    background: Color,
) -> Seq<u8>;

/// The planes after an emoticon glyph is drawn on them.
pub uninterp spec fn with_glyph(planes: Seq<u8>, glyph: char, at: Point, color: Color) -> Seq<u8>;

/// Whether the emoticon font can draw the character.
pub uninterp spec fn emoticon_has_glyph(c: char) -> bool;

/// The box of the emoticon font's glyphs relative to the point they are
/// drawn from, anchored at the top.
pub open spec fn emoticon_bounds() -> Rect {
    Rect { top_left: Point { x: 0, y: -13i32 }, size: Size { width: 16, height: 16 } }
}

/// Relies on u8g2-fonts' `FontRenderer::get_glyph_bounding_box` with
/// `VerticalPosition::Top` for the unifont emoticon font, whose header gives
/// a 16 by 16 box, x offset 0, y offset -2 and ascent 0: the box starts
/// `ascent + 1 - (16 - 2)` = 13 pixels above the anchor.
#[verifier::external_body]
pub fn emoticon_box() -> (r: Rect)
    ensures
        r == emoticon_bounds(),
{
    let renderer = u8g2_fonts::FontRenderer::new::<u8g2_fonts::fonts::u8g2_font_unifont_t_emoticons>();
    let b = renderer.get_glyph_bounding_box(u8g2_fonts::types::VerticalPosition::Top);
    Rect {
        top_left: Point { x: b.top_left.x, y: b.top_left.y },
        size: Size { width: b.size.width, height: b.size.height },
    }
}

/// A byte of the black/white plane where every pixel has the colour.
pub open spec fn bw_byte(color: Color) -> u8 {
    match color {
        Color::Black => 0u8,
        _ => 0xffu8,
    }
}

/// A byte of the chromatic plane where every pixel has the colour.
pub open spec fn chromatic_byte(color: Color) -> u8 {
    match color {
        Color::Chromatic => 0xffu8,
        _ => 0u8,
    }
}

/// Both planes of a canvas filled with one colour.
pub open spec fn filled(color: Color) -> Seq<u8> {
    Seq::new(
        (2 * PLANE_BYTES) as nat,
        |i: int| if i < PLANE_BYTES { bw_byte(color) } else { chromatic_byte(color) },
    )
}

/// Bound on the coordinates that drawing steps use.
pub const DRAW_BOUND: i32 = 4194304;

/// Both coordinates lie within the drawing bound.
pub open spec fn within(p: Point) -> bool {
    -DRAW_BOUND <= p.x <= DRAW_BOUND && -DRAW_BOUND <= p.y <= DRAW_BOUND
}

/// A line that can be drawn without overflow: its ends lie within the
/// drawing bound, and its stroke, its length and the error terms of the
/// thick-line walk stay small: `(2 * stroke + 3)^2 * (dx^2 + dy^2)` fits an `i32`.
pub open spec fn line_ok(from: Point, to: Point, stroke: u32) -> bool {
    let dx = to.x - from.x;
    let dy = to.y - from.y;
    &&& within(from)
    &&& within(to)
    &&& (2 * stroke + 3) * (2 * stroke + 3) * (dx * dx + dy * dy) <= i32::MAX
}

/// A box whose border can be drawn without overflow.
pub open spec fn outline_ok(rect: Rect) -> bool {
    within(rect.top_left) && rect.size.width <= DRAW_BOUND && rect.size.height <= DRAW_BOUND
}

/// A drawing step whose arguments keep the drawing code's arithmetic in range.
pub open spec fn op_ok(op: Op) -> bool {
    match op {
        Op::Clear { .. } => true,
        Op::Line { from, to, stroke, .. } => line_ok(from, to, stroke),
        Op::Outline { rect, .. } => outline_ok(rect),
        Op::Text { at, .. } => within(at),
        Op::Glyph { at, .. } => within(at),
    }
}

/// Every step can be drawn.
pub open spec fn ops_ok(ops: Seq<Op>) -> bool {
    forall|i: int| 0 <= i < ops.len() ==> op_ok(#[trigger] ops[i])
}

pub proof fn lemma_ops_ok_push(ops: Seq<DrawOp>, o: DrawOp)
    requires
        ops_ok(ops_view(ops)),
        op_ok(o@),
    ensures
        ops_ok(ops_view(ops.push(o))),
{
    crate::scene::lemma_ops_view_push(ops, o);
    let v = ops_view(ops.push(o));
    assert forall|i: int| 0 <= i < v.len() implies op_ok(#[trigger] v[i]) by {
        if i < ops.len() {
            assert(v[i] == ops_view(ops)[i]);
        }
    }
}

fn tri_color(c: Color) -> (r: TriColor)
    ensures
        c == Color::White ==> r == TriColor::White,
        c == Color::Black ==> r == TriColor::Black,
        c == Color::Chromatic ==> r == TriColor::Chromatic,
{
    match c {
        Color::White => TriColor::White,
        Color::Black => TriColor::Black,
        Color::Chromatic => TriColor::Chromatic,
    }
}

/// Relies on embedded-graphics' `MonoTextStyle::measure_string`: a line of
/// `n` characters of a monospaced font without character spacing is `n`
/// cells wide and one cell high.
#[verifier::external_body]
pub fn text_size(text: &Text, font: Font) -> (r: Size)
    ensures
        r == text_extent(text_chars(*text).len(), font),
{
    let style = embedded_graphics::mono_font::MonoTextStyle::new(font.mono(), TriColor::Black);
    let m = style.measure_string(text.as_str(), embedded_graphics::prelude::Point::zero(), embedded_graphics::text::Baseline::Top);
    Size { width: m.bounding_box.size.width, height: m.bounding_box.size.height }
}

impl Font {
    /// Relies on embedded-graphics' ISO 8859-1 mono fonts of the same cell sizes.
    #[verifier::external_body]
    fn mono(&self) -> &'static embedded_graphics::mono_font::MonoFont<'static> {
        match self {
            Font::Bold8x13 => &embedded_graphics::mono_font::iso_8859_1::FONT_8X13_BOLD,
            Font::Small6x10 => &embedded_graphics::mono_font::iso_8859_1::FONT_6X10,
            Font::Large10x20 => &embedded_graphics::mono_font::iso_8859_1::FONT_10X20,
        }
    }
}

impl Canvas {
    /// Relies on epd-waveshare's `Display::default`, whose buffer starts with
    /// every bit cleared, turned to landscape by `Display::set_rotation`.
    #[verifier::external_body]
    pub fn new() -> (r: Canvas)
        ensures
            canvas_planes(r) == Seq::new((2 * PLANE_BYTES) as nat, |i: int| 0u8),
    {
        let mut display = epd_waveshare::graphics::Display::default();
        display.set_rotation(epd_waveshare::graphics::DisplayRotation::Rotate270);
        Canvas { display }
    }

    /// Relies on epd-waveshare's `OriginDimensions::size`: the panel's height
    /// and width swapped, the canvas being in landscape.
    #[verifier::external_body]
    pub fn size(&self) -> (r: Size)
        ensures
            r == (Size { width: CANVAS_WIDTH, height: CANVAS_HEIGHT }),
    {
        let s = self.display.size();
        Size { width: s.width, height: s.height }
    }

    /// Relies on embedded-graphics' `DrawTarget::clear`, which sets every
    /// pixel of the canvas through epd-waveshare's bit layout.
    #[verifier::external_body]
    pub fn clear(&mut self, color: Color)
        ensures
            canvas_planes(*final(self)) == filled(color),
    {
        let _ = self.display.clear(tri_color(color));
    }

    /// Relies on embedded-graphics' styled `Line` drawing, which sets pixels
    /// according to its arguments alone.
    #[verifier::external_body]
    pub fn draw_line(&mut self, from: Point, to: Point, stroke: u32, color: Color)
        requires
            line_ok(from, to, stroke),
        ensures
            canvas_planes(*final(self)) == with_line(canvas_planes(*old(self)), from, to, stroke, color),
            canvas_planes(*final(self)).len() == 2 * PLANE_BYTES,
    {
        let from = embedded_graphics::prelude::Point::new(from.x, from.y);
        let to = embedded_graphics::prelude::Point::new(to.x, to.y);
        let style = embedded_graphics::primitives::PrimitiveStyle::with_stroke(tri_color(color), stroke);
        let _ = embedded_graphics::primitives::Line::new(from, to).into_styled(style).draw(&mut self.display);
    }

    /// Relies on embedded-graphics' styled `Rectangle` drawing with a
    /// one-pixel stroke, which sets pixels according to its arguments alone.
    #[verifier::external_body]
    pub fn draw_outline(&mut self, rect: Rect, color: Color)
        requires
            outline_ok(rect),
        ensures
            canvas_planes(*final(self)) == with_outline(canvas_planes(*old(self)), rect, color),
            canvas_planes(*final(self)).len() == 2 * PLANE_BYTES,
    {
        let r = embedded_graphics::primitives::Rectangle::new(
            embedded_graphics::prelude::Point::new(rect.top_left.x, rect.top_left.y),
            embedded_graphics::prelude::Size::new(rect.size.width, rect.size.height),
        );
        let style = embedded_graphics::primitives::PrimitiveStyle::with_stroke(tri_color(color), 1);
        let _ = r.into_styled(style).draw(&mut self.display);
    }

    /// Relies on embedded-graphics' `Text` drawing with a mono font, anchored
    /// at its top-left corner, which sets pixels according to its arguments alone.
    #[verifier::external_body]
    pub fn draw_text(&mut self, text: &Text, at: Point, font: Font, color: Color, background: Color)
        requires
            within(at),
        ensures
            canvas_planes(*final(self)) == with_text(
                canvas_planes(*old(self)),
                text_chars(*text),
                at,
                font,
                color,
                background,
            ),
            canvas_planes(*final(self)).len() == 2 * PLANE_BYTES,
    {
        let style = embedded_graphics::mono_font::MonoTextStyleBuilder::new().font(font.mono())
            .text_color(tri_color(color)).background_color(tri_color(background)).build();
        let at = embedded_graphics::prelude::Point::new(at.x, at.y);
        let baseline = embedded_graphics::text::Baseline::Top;
        let _ = embedded_graphics::text::Text::with_baseline(text.as_str(), at, style, baseline).draw(&mut self.display);
    }

    /// Relies on u8g2-fonts' `FontRenderer::render` with the unifont emoticon
    /// font, anchored at the top, without background: it sets pixels according
    /// to its arguments alone, and fails only where the font lacks the glyph,
    /// which it finds out before drawing anything.
    #[verifier::external_body]
    pub fn draw_glyph(&mut self, glyph: char, at: Point, color: Color) -> (r: bool)
        requires
            within(at),
        ensures
            r == emoticon_has_glyph(glyph),
            r ==> canvas_planes(*final(self)) == with_glyph(canvas_planes(*old(self)), glyph, at, color),
            !r ==> canvas_planes(*final(self)) == canvas_planes(*old(self)),
            canvas_planes(*final(self)).len() == 2 * PLANE_BYTES,
    {
        let renderer = u8g2_fonts::FontRenderer::new::<u8g2_fonts::fonts::u8g2_font_unifont_t_emoticons>();
        let at = embedded_graphics::prelude::Point::new(at.x, at.y);
        let vertical = u8g2_fonts::types::VerticalPosition::Top;
        let color = u8g2_fonts::types::FontColor::Transparent(tri_color(color));
        renderer.render(glyph, at, vertical, color, &mut self.display).is_ok()
    }

    /// Relies on epd-waveshare's `Display::bw_buffer`: the first half of the buffer.
    #[verifier::external_body]
    fn bw_bytes(&self) -> (r: &[u8])
        ensures
            r@ == canvas_planes(*self).subrange(0, PLANE_BYTES as int),
    {
        self.display.bw_buffer()
    }

    /// Relies on epd-waveshare's `Display::chromatic_buffer`: the second half of the buffer.
    #[verifier::external_body]
    fn chromatic_bytes(&self) -> (r: &[u8])
        ensures
            r@ == canvas_planes(*self).subrange(PLANE_BYTES as int, 2 * PLANE_BYTES as int),
    {
        self.display.chromatic_buffer()
    }
}

/// Access to the two planes of a tri-colour pixel buffer.
pub trait ChromaticBuffer {
    spec fn bw_plane(&self) -> Seq<u8>;

    spec fn chromatic_plane(&self) -> Seq<u8>;

    /// The black/white plane.
    fn bw_buffer(&self) -> (r: &[u8])
        ensures
            r@ == self.bw_plane(),
    ;

    /// The chromatic plane.
    fn chromatic_buffer(&self) -> (r: &[u8])
        ensures
            r@ == self.chromatic_plane(),
    ;
}

impl ChromaticBuffer for Canvas {
    open spec fn bw_plane(&self) -> Seq<u8> {
        canvas_planes(*self).subrange(0, PLANE_BYTES as int)
    }

    open spec fn chromatic_plane(&self) -> Seq<u8> {
        canvas_planes(*self).subrange(PLANE_BYTES as int, 2 * PLANE_BYTES as int)
    }

    fn bw_buffer(&self) -> (r: &[u8]) {
        self.bw_bytes()
    }

    fn chromatic_buffer(&self) -> (r: &[u8]) {
        self.chromatic_bytes()
    }
}

/// Why a drawing could not be completed.
#[derive(Clone, Copy, Debug, PartialEq, Eq, Structural)]
pub enum DrawError {
    /// The emoticon font has no glyph for the character.
    MissingGlyph(char),
}

/// The planes after one drawing step.
pub open spec fn paint(planes: Seq<u8>, op: Op) -> Seq<u8> {
    match op {
        Op::Clear { color } => filled(color),
        Op::Line { from, to, stroke, color } => with_line(planes, from, to, stroke, color),
        Op::Outline { rect, color } => with_outline(planes, rect, color),
        Op::Text { text, at, font, color, background } => with_text(planes, text, at, font, color, background),
        Op::Glyph { glyph, at, color } => with_glyph(planes, glyph, at, color),
    }
}

/// The planes after the steps, in order.
pub open spec fn painted(planes: Seq<u8>, ops: Seq<Op>) -> Seq<u8>
    decreases ops.len(),
{
    if ops.len() == 0 {
        planes
    } else {
        paint(painted(planes, ops.subrange(0, ops.len() - 1)), ops[ops.len() - 1])
    }
}

/// Every glyph among the steps is in the emoticon font.
pub open spec fn glyphs_available(ops: Seq<Op>) -> bool {
    forall|i: int| 0 <= i < ops.len() ==> match #[trigger] ops[i] {
        Op::Glyph { glyph, .. } => emoticon_has_glyph(glyph),
        _ => true,
    }
}

/// Steps after a clear of the whole canvas do not depend on what it held before.
pub proof fn lemma_painted_after_clear(p: Seq<u8>, q: Seq<u8>, color: Color, rest: Seq<Op>)
    ensures
        painted(p, seq![Op::Clear { color }] + rest) == painted(q, seq![Op::Clear { color }] + rest),
        painted(p, seq![Op::Clear { color }] + rest) == painted(filled(color), rest),
    decreases rest.len(),
{
    let head = seq![Op::Clear { color }];
    if rest.len() == 0 {
        assert(head + rest =~= head);
        assert(head.subrange(0, 0) =~= Seq::<Op>::empty());
    } else {
        let shorter = rest.subrange(0, rest.len() - 1);
        assert((head + rest).subrange(0, (head + rest).len() - 1) =~= head + shorter);
        lemma_painted_after_clear(p, q, color, shorter);
    }
}

/// Step `i` is the first glyph that the emoticon font lacks.
pub open spec fn first_missing_glyph(ops: Seq<Op>, i: int) -> bool {
    &&& 0 <= i < ops.len()
    &&& glyphs_available(ops.subrange(0, i))
    &&& ops[i] matches Op::Glyph { glyph, .. } && !emoticon_has_glyph(glyph)
}

/// What drawing the steps leaves and returns: all steps painted when every
/// glyph is available, else the steps before the first missing glyph, and
/// an error that names it.
pub open spec fn render_result(before: Seq<u8>, ops: Seq<Op>, after: Seq<u8>, r: Result<(), DrawError>) -> bool {
    &&& after.len() == 2 * PLANE_BYTES
    &&& r.is_ok() == glyphs_available(ops)
    &&& r.is_ok() ==> after == painted(before, ops)
    &&& r matches Err(DrawError::MissingGlyph(c)) ==> exists|i: int| {
        &&& #[trigger] first_missing_glyph(ops, i)
        &&& ops[i] matches Op::Glyph { glyph, .. } && glyph == c
        &&& after == painted(before, ops.subrange(0, i))
    }
}

impl Canvas {
    fn apply(&mut self, op: &DrawOp) -> (r: Result<(), DrawError>)
        requires
            op_ok(op@),
            canvas_planes(*old(self)).len() == 2 * PLANE_BYTES,
        ensures
            canvas_planes(*final(self)).len() == 2 * PLANE_BYTES,
            r.is_ok() == match op@ {
                Op::Glyph { glyph, .. } => emoticon_has_glyph(glyph),
                _ => true,
            },
            r.is_ok() ==> canvas_planes(*final(self)) == paint(canvas_planes(*old(self)), op@),
            r.is_err() ==> canvas_planes(*final(self)) == canvas_planes(*old(self)),
            r matches Err(DrawError::MissingGlyph(c)) ==> op@ matches Op::Glyph { glyph, .. } && glyph == c,
    {
        match op {
            DrawOp::Clear { color } => {
                self.clear(*color);
                proof {
                    assert(filled(*color).len() == 2 * PLANE_BYTES);
                }
                Ok(())
            },
            DrawOp::Line { from, to, stroke, color } => {
                self.draw_line(*from, *to, *stroke, *color);
                Ok(())
            },
            DrawOp::Outline { rect, color } => {
                self.draw_outline(*rect, *color);
                Ok(())
            },
            DrawOp::Text { text, at, font, color, background } => {
                self.draw_text(text, *at, *font, *color, *background);
                Ok(())
            },
            DrawOp::Glyph { glyph, at, color } => {
                if self.draw_glyph(*glyph, *at, *color) {
                    Ok(())
                } else {
                    Err(DrawError::MissingGlyph(*glyph))
                }
            },
        }
    }

    /// Carries out the steps in order, stopping at the first that fails;
    /// what was drawn before it stays drawn.
    pub fn render(&mut self, ops: &Vec<DrawOp>) -> (r: Result<(), DrawError>)
        requires
            ops_ok(ops_view(ops@)),
            canvas_planes(*old(self)).len() == 2 * PLANE_BYTES,
        ensures
            render_result(canvas_planes(*old(self)), ops_view(ops@), canvas_planes(*final(self)), r),
    {
        let ghost start = canvas_planes(*self);
        let ghost all = ops_view(ops@);
        let n = ops.len();
        let mut i: usize = 0;
        while i < n
            invariant
                n == ops@.len(),
                0 <= i <= n,
                all == ops_view(ops@),
                ops_ok(all),
                glyphs_available(ops_view(ops@.subrange(0, i as int))),
                canvas_planes(*self) == painted(start, ops_view(ops@.subrange(0, i as int))),
                canvas_planes(*self).len() == 2 * PLANE_BYTES,
                start == canvas_planes(*old(self)),
            decreases n - i,
        {
            proof {
                assert(all[i as int] == ops@[i as int]@);
            }
            let step = self.apply(&ops[i]);
            proof {
                let before = ops_view(ops@.subrange(0, i as int));
                let after = ops_view(ops@.subrange(0, i as int + 1));
                assert(after.subrange(0, i as int) =~= before);
                assert(after[i as int] == ops@[i as int]@);
                assert(before =~= all.subrange(0, i as int));
            }
            match step {
                Ok(()) => {
                    proof {
                        let before = ops_view(ops@.subrange(0, i as int));
                        let after = ops_view(ops@.subrange(0, i as int + 1));
                        assert forall|j: int| 0 <= j < after.len() implies match #[trigger] after[j] {
                            Op::Glyph { glyph, .. } => emoticon_has_glyph(glyph),
                            _ => true,
                        } by {
                            if j < i {
                                assert(after[j] == before[j]);
                            }
                        }
                    }
                },
                Err(e) => {
                    proof {
                        assert(first_missing_glyph(all, i as int));
                    }
                    return Err(e);
                },
            }
            i = i + 1;
        }
        proof {
            assert(ops@.subrange(0, n as int) =~= ops@);
        }
        Ok(())
    }
}

} // verus!
