use vstd::prelude::*;
use crate::geometry::{Point, Rect, Size};
use crate::text::{Text, text_chars};

verus! {

/// The three colours of the panel.
#[derive(Clone, Copy, Debug, PartialEq, Eq, Structural)]
pub enum Color {
    White,
    Black,
    /// The panel's third colour, used to draw attention.
    Chromatic,
}

/// The fonts that the themes draw text with. All are monospaced.
#[derive(Clone, Copy, Debug, PartialEq, Eq, Structural)]
pub enum Font {
    /// Bold, 8 by 13 pixels per character.
    Bold8x13,
    /// 6 by 10 pixels per character.
    Small6x10,
    /// 10 by 20 pixels per character.
    Large10x20,
}

/// Width and height of one character cell of a font.
pub open spec fn char_cell(font: Font) -> Size {
    match font {
        Font::Bold8x13 => Size { width: 8, height: 13 },
        Font::Small6x10 => Size { width: 6, height: 10 },
        Font::Large10x20 => Size { width: 10, height: 20 },
    }
}

/// The box that `n` characters of `font` take on one line.
pub open spec fn text_extent(n: nat, font: Font) -> Size {
    Size { width: (n * char_cell(font).width) as u32, height: char_cell(font).height }
}

/// Emoticon shown while the CO2 level is above the alert threshold.
pub const GLYPH_ELEVATED: char = 'U';

/// Emoticon shown while the CO2 level is at or below the alert threshold.
pub const GLYPH_NORMAL: char = '#';

/// One drawing step on a canvas.
#[derive(Debug)]
pub enum DrawOp {
    /// Fill the whole canvas.
    Clear { color: Color },
    /// A straight line of `stroke` pixels width.
    Line { from: Point, to: Point, stroke: u32, color: Color },
    /// The one-pixel border of a box.
    Outline { rect: Rect, color: Color },
    /// One line of text whose top-left corner is `at`, on its own background.
    Text { text: Text, at: Point, font: Font, color: Color, background: Color },
    /// An emoticon glyph drawn from `at`, anchored at the top of the font.
    Glyph { glyph: char, at: Point, color: Color },
}

/// What a drawing step is, with its text as a sequence of characters.
pub enum Op {
    Clear { color: Color },
    Line { from: Point, to: Point, stroke: u32, color: Color },
    Outline { rect: Rect, color: Color },
    Text { text: Seq<char>, at: Point, font: Font, color: Color, background: Color },
    Glyph { glyph: char, at: Point, color: Color },
}

impl View for DrawOp {
    type V = Op;

    open spec fn view(&self) -> Op {
        match self {
            DrawOp::Clear { color } => Op::Clear { color: *color },
            DrawOp::Line { from, to, stroke, color } => Op::Line {
                from: *from,
                to: *to,
                stroke: *stroke,
                color: *color,
            },
            DrawOp::Outline { rect, color } => Op::Outline { rect: *rect, color: *color },
            DrawOp::Text { text, at, font, color, background } => Op::Text {
                text: text_chars(*text),
                at: *at,
                font: *font,
                color: *color,
                background: *background,
            },
            DrawOp::Glyph { glyph, at, color } => Op::Glyph { glyph: *glyph, at: *at, color: *color },
        }
    }
}

/// The steps of a sequence of drawing operations.
pub open spec fn ops_view(ops: Seq<DrawOp>) -> Seq<Op> {
    ops.map_values(|o: DrawOp| o@)
}

pub proof fn lemma_ops_view_push(ops: Seq<DrawOp>, o: DrawOp)
    ensures
        ops_view(ops.push(o)) == ops_view(ops).push(o@),
{
    assert(ops_view(ops.push(o)) =~= ops_view(ops).push(o@));
}

} // verus!
