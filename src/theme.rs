use vstd::prelude::*;
use crate::canvas::{
    CANVAS_HEIGHT, CANVAS_WIDTH, Canvas, DrawError, PLANE_BYTES, canvas_planes, emoticon_bounds,
    emoticon_box, lemma_ops_ok_push,
    ops_ok, painted, render_result, text_size,
};
use crate::geometry::{
    Point, Rect, Size, Stack, add_points, centre_point, centred_at, column_cell, column_extent,
    lemma_row_cells_bounded, offset, row_cell, row_extent, stack_horizontal, stack_vertical,
    transpose_all,
};
use crate::data::Data;
use crate::text::{Text, put, text_chars, text_new, utf8_size};
use crate::format::{decimal, line_text, one_decimal};
use crate::scene::{Color, DrawOp, Font, GLYPH_ELEVATED, GLYPH_NORMAL, Op, lemma_ops_view_push, ops_view, text_extent};

verus! {

/// CO2 concentration, in ppm, above which the value is drawn in the chromatic colour.
pub const ALERT_PPM: u16 = 800;

/// Width and height of the box of a value cell.
pub const CELL_SIDE: u32 = 80;

/// Pixels between a value and its labels, and between a cell's text and its glyph.
pub const GAP: u32 = 4;

/// Longest value or label text that a value cell is laid out for.
pub const CELL_TEXT_MAX: usize = 8;

/// Most labels beside one value.
pub const CELL_LABELS_MAX: usize = 2;

/// Bound on the coordinates of a value cell's box.
pub const COORD_BOUND: i32 = 1000000;

/// The CO2 level calls for attention: strictly above the threshold.
pub open spec fn alert(co2: u16) -> bool {
    co2 > ALERT_PPM
}

/// Colour of the CO2 value and of the mood glyph.
pub open spec fn level_color(co2: u16) -> Color {
    if alert(co2) { Color::Chromatic } else { Color::Black }
}

/// The colour in which the CO2 value is drawn: chromatic above the
/// threshold, black at or below it.
pub fn co2_color(co2: u16) -> (r: Color)
    ensures
        r == level_color(co2),
{
    if co2 > ALERT_PPM { Color::Chromatic } else { Color::Black }
}

pub open spec fn texts_view(v: Seq<Text>) -> Seq<Seq<char>> {
    v.map_values(|l: Text| text_chars(l))
}

/// The boxes of a cell's labels, one under the other.
pub open spec fn label_sizes(labels: Seq<Seq<char>>) -> Seq<Size> {
    labels.map_values(|l: Seq<char>| text_extent(l.len(), Font::Small6x10))
}

/// The two items of a cell's row: the value, then the column of labels.
pub open spec fn value_row(value: Seq<char>, labels: Seq<Seq<char>>) -> Seq<Size> {
    seq![text_extent(value.len(), Font::Large10x20), column_extent(label_sizes(labels), 0)]
}

/// Texts that a value cell can lay out: a value and one or two labels, none
/// empty.
pub open spec fn cell_texts_ok(value: Seq<char>, labels: Seq<Seq<char>>) -> bool {
    &&& 1 <= value.len() <= CELL_TEXT_MAX
    &&& 1 <= labels.len() <= CELL_LABELS_MAX
    &&& forall|k: int| 0 <= k < labels.len() ==> 1 <= (#[trigger] labels[k]).len() <= CELL_TEXT_MAX
}

/// Both coordinates lie within `k` times the coordinate bound.
pub open spec fn near(p: Point, k: int) -> bool {
    -k * COORD_BOUND <= p.x <= k * COORD_BOUND && -k * COORD_BOUND <= p.y <= k * COORD_BOUND
}

/// The labels, stacked with no space between them, from `at` on.
pub open spec fn label_ops(at: Point, labels: Seq<Seq<char>>) -> Seq<Op> {
    Seq::new(
        labels.len(),
        |k: int|
            Op::Text {
                text: labels[k],
                at: offset(at, column_cell(label_sizes(labels), 0, k).top_left),
                font: Font::Small6x10,
                color: Color::Black,
                background: Color::White,
            },
    )
}

/// The value and, `GAP` pixels to its right, its labels; both centred on
/// one horizontal line; the row's top-left corner is `at`.
pub open spec fn row_ops(at: Point, value: Seq<char>, color: Color, labels: Seq<Seq<char>>) -> Seq<Op> {
    let row = value_row(value, labels);
    seq![
        Op::Text {
            text: value,
            at: offset(at, row_cell(row, GAP as int, 0).top_left),
            font: Font::Large10x20,
            color,
            background: Color::White,
        },
    ] + label_ops(offset(at, row_cell(row, GAP as int, 1).top_left), labels)
}

/// A bordered box with the row of a value and its labels centred in it.
pub open spec fn cell_ops(bx: Rect, value: Seq<char>, color: Color, labels: Seq<Seq<char>>) -> Seq<Op> {
    seq![Op::Outline { rect: bx, color: Color::Black }]
        + row_ops(centred_at(row_extent(value_row(value, labels), GAP as int), bx), value, color, labels)
}

proof fn lemma_label_column_bounded(labels: Seq<Seq<char>>)
    requires
        labels.len() <= CELL_LABELS_MAX,
        forall|k: int| 0 <= k < labels.len() ==> (#[trigger] labels[k]).len() <= CELL_TEXT_MAX,
    ensures
        crate::geometry::row_fits(transpose_all(label_sizes(labels)), 0),
        column_extent(label_sizes(labels), 0).width <= 48,
        column_extent(label_sizes(labels), 0).height <= 96,
        labels.len() >= 1 && labels[0].len() >= 1 ==> column_extent(label_sizes(labels), 0).width >= 1
            && column_extent(label_sizes(labels), 0).height >= 1,
        forall|k: int| 0 <= k < labels.len() ==> {
            let c = #[trigger] column_cell(label_sizes(labels), 0, k);
            &&& 0 <= c.left() && c.right() <= 48
            &&& 0 <= c.top() && c.bottom() <= 96
        },
{
    let t = transpose_all(label_sizes(labels));
    assert forall|i: int| 0 <= i < t.len() implies (#[trigger] t[i]).width <= 48 && t[i].height <= 48 by {
        assert(labels[i].len() * 6 <= 48);
    }
    lemma_row_cells_bounded(t, 0, 48);
    assert(t.len() * 48 <= 96);
    assert(0 <= crate::geometry::row_width(t, 0) <= 96);
    if labels.len() >= 1 && labels[0].len() >= 1 {
        crate::geometry::lemma_max_height_bounds(t, 0);
        crate::geometry::lemma_total_width_step(t, 0);
        crate::geometry::lemma_total_width_prefix(t, 1);
        assert(crate::geometry::total_width(t.subrange(0, 0)) == 0);
        assert(t[0] == label_sizes(labels)[0].transposed());
        assert(label_sizes(labels)[0] == text_extent(labels[0].len(), Font::Small6x10));
        assert(labels[0].len() <= CELL_TEXT_MAX);
        assert(1 * 6 <= labels[0].len() * 6 <= 8 * 6);
        assert(t[0].height >= 6 && t[0].width == 10);
        assert(crate::geometry::max_height(t) >= 6);
        assert(crate::geometry::total_width(t) >= 10);
        assert(crate::geometry::row_width(t, 0) >= 10);
    }
}

proof fn lemma_value_row_bounded(value: Seq<char>, labels: Seq<Seq<char>>)
    requires
        cell_texts_ok(value, labels),
    ensures
        crate::geometry::row_fits(value_row(value, labels), GAP as int),
        row_extent(value_row(value, labels), GAP as int).width <= 200,
        row_extent(value_row(value, labels), GAP as int).height <= 96,
        row_extent(value_row(value, labels), GAP as int).width >= 1,
        row_extent(value_row(value, labels), GAP as int).height >= 1,
        crate::geometry::sizes_nonzero(value_row(value, labels)),
        forall|i: int| 0 <= i < 2 ==> {
            let c = #[trigger] row_cell(value_row(value, labels), GAP as int, i);
            &&& 0 <= c.left() && c.right() <= 200
            &&& 0 <= c.top() && c.bottom() <= 96
        },
{
    lemma_label_column_bounded(labels);
    let row = value_row(value, labels);
    assert(value.len() * 10 <= 80);
    lemma_row_cells_bounded(row, GAP as int, 96);
    assert(row.len() == 2);
    assert(0 <= crate::geometry::row_width(row, GAP as int) <= 200);
    crate::geometry::lemma_max_height_bounds(row, 0);
    crate::geometry::lemma_total_width_step(row, 0);
    crate::geometry::lemma_total_width_prefix(row, 1);
    assert(row.subrange(0, 0).len() == 0);
}

fn measure_labels(labels: &Vec<Text>) -> (r: Vec<Size>)
    requires
        forall|k: int| 0 <= k < labels@.len() ==> text_chars(#[trigger] labels@[k]).len() <= CELL_TEXT_MAX,
    ensures
        r@ == label_sizes(texts_view(labels@)),
{
    let mut sizes: Vec<Size> = Vec::new();
    let mut k: usize = 0;
    while k < labels.len()
        invariant
            0 <= k <= labels@.len(),
            forall|j: int| 0 <= j < labels@.len() ==> text_chars(#[trigger] labels@[j]).len() <= CELL_TEXT_MAX,
            sizes@ == label_sizes(texts_view(labels@.subrange(0, k as int))),
        decreases labels@.len() - k,
    {
        let s = text_size(&labels[k], Font::Small6x10);
        sizes.push(s);
        k = k + 1;
        proof {
            assert(sizes@ =~= label_sizes(texts_view(labels@.subrange(0, k as int))));
        }
    }
    proof {
        assert(labels@.subrange(0, labels@.len() as int) =~= labels@);
    }
    sizes
}

/// Appends the labels at their places in the column that starts at `at`.
fn push_labels(out: &mut Vec<DrawOp>, at: Point, labels: Vec<Text>, column: &Stack)
    requires
        ops_ok(ops_view(old(out)@)),
        near(at, 3),
        labels@.len() <= CELL_LABELS_MAX,
        forall|k: int| 0 <= k < labels@.len() ==> text_chars(#[trigger] labels@[k]).len() <= CELL_TEXT_MAX,
        column.cells@.len() == labels@.len(),
        forall|k: int| 0 <= k < labels@.len() ==>
            #[trigger] column.cells@[k] == column_cell(label_sizes(texts_view(labels@)), 0, k),
    ensures
        ops_ok(ops_view(final(out)@)),
        ops_view(final(out)@) == ops_view(old(out)@) + label_ops(at, texts_view(labels@)),
{
    let ghost all = texts_view(labels@);
    proof {
        lemma_label_column_bounded(all);
    }
    let n = labels.len();
    let mut rest = labels;
    let mut k: usize = 0;
    while k < n
        invariant
            near(at, 3),
            n == labels@.len(),
            0 <= k <= n,
            rest@ == labels@.subrange(k as int, n as int),
            all == texts_view(labels@),
            column.cells@.len() == n,
            forall|j: int| 0 <= j < n ==> #[trigger] column.cells@[j] == column_cell(label_sizes(all), 0, j),
            forall|j: int| 0 <= j < n ==> {
                let c = #[trigger] column_cell(label_sizes(all), 0, j);
                &&& 0 <= c.left() && c.right() <= 48
                &&& 0 <= c.top() && c.bottom() <= 96
            },
            ops_view(out@) == ops_view(old(out)@) + label_ops(at, all).subrange(0, k as int),
            ops_ok(ops_view(out@)),
        decreases n - k,
    {
        let text = rest.remove(0);
        let p = add_points(at, column.cells[k].top_left);
        let op = DrawOp::Text { text, at: p, font: Font::Small6x10, color: Color::Black, background: Color::White };
        proof {
            lemma_ops_view_push(out@, op);
            lemma_ops_ok_push(out@, op);
        }
        out.push(op);
        k = k + 1;
        proof {
            assert(ops_view(out@) =~= ops_view(old(out)@) + label_ops(at, all).subrange(0, k as int));
        }
    }
    proof {
        assert(label_ops(at, all).subrange(0, n as int) =~= label_ops(at, all));
    }
}

/// The column of a cell's labels and the row of its value and that column.
struct RowLayout {
    column: Stack,
    row: Stack,
}

impl RowLayout {
    spec fn matches(&self, value: Seq<char>, labels: Seq<Seq<char>>) -> bool {
        &&& self.column.cells@.len() == labels.len()
        &&& forall|k: int| 0 <= k < labels.len() ==>
            #[trigger] self.column.cells@[k] == column_cell(label_sizes(labels), 0, k)
        &&& self.row.cells@.len() == 2
        &&& forall|i: int| 0 <= i < 2 ==>
            #[trigger] self.row.cells@[i] == row_cell(value_row(value, labels), GAP as int, i)
        &&& self.row.size == row_extent(value_row(value, labels), GAP as int)
    }
}

/// Measures the texts of a cell and lays out its row.
fn lay_out_row(value: &Text, labels: &Vec<Text>) -> (r: RowLayout)
    requires
        cell_texts_ok(text_chars(*value), texts_view(labels@)),
    ensures
        r.matches(text_chars(*value), texts_view(labels@)),
{
    let ghost lv = texts_view(labels@);
    proof {
        lemma_label_column_bounded(lv);
        lemma_value_row_bounded(text_chars(*value), lv);
        assert forall|k: int| 0 <= k < labels@.len() implies text_chars(#[trigger] labels@[k]).len() <= CELL_TEXT_MAX by {
            assert(lv[k] == text_chars(labels@[k]));
        }
    }
    let label_sizes_v = measure_labels(labels);
    let column = stack_vertical(&label_sizes_v, 0);
    let mut items: Vec<Size> = Vec::new();
    items.push(text_size(value, Font::Large10x20));
    items.push(column.size);
    proof {
        assert(items@ =~= value_row(text_chars(*value), lv));
    }
    let row = stack_horizontal(&items, GAP);
    RowLayout { column, row }
}

/// Appends the value and its labels, laid out in a row whose top-left corner is `at`.
fn push_row(out: &mut Vec<DrawOp>, at: Point, value: Text, color: Color, labels: Vec<Text>, layout: &RowLayout)
    requires
        ops_ok(ops_view(old(out)@)),
        near(at, 2),
        cell_texts_ok(text_chars(value), texts_view(labels@)),
        layout.matches(text_chars(value), texts_view(labels@)),
    ensures
        ops_ok(ops_view(final(out)@)),
        ops_view(final(out)@) == ops_view(old(out)@) + row_ops(at, text_chars(value), color, texts_view(labels@)),
{
    let ghost lv = texts_view(labels@);
    proof {
        lemma_value_row_bounded(text_chars(value), lv);
        assert forall|k: int| 0 <= k < labels@.len() implies text_chars(#[trigger] labels@[k]).len() <= CELL_TEXT_MAX by {
            assert(lv[k] == text_chars(labels@[k]));
        }
    }
    let value_at = add_points(at, layout.row.cells[0].top_left);
    let labels_at = add_points(at, layout.row.cells[1].top_left);
    let op = DrawOp::Text { text: value, at: value_at, font: Font::Large10x20, color, background: Color::White };
    proof {
        lemma_ops_view_push(out@, op);
        lemma_ops_ok_push(out@, op);
    }
    out.push(op);
    push_labels(out, labels_at, labels, &layout.column);
    proof {
        assert(ops_view(final(out)@) =~= ops_view(old(out)@) + row_ops(at, text_chars(value), color, lv));
    }
}

/// The cell of the mood glyph: the box of the emoticon font's glyphs.
pub open spec fn glyph_cell() -> Size {
    emoticon_bounds().size
}

/// The point to draw the mood glyph from so that its box starts at `cell`.
pub open spec fn glyph_anchor(cell: Point) -> Point {
    Point {
        x: (cell.x - emoticon_bounds().top_left.x) as i32,
        y: (cell.y - emoticon_bounds().top_left.y) as i32,
    }
}

/// The column of a CO2 cell with a mood glyph: the row of the value and its
/// labels, then the glyph.
pub open spec fn mood_column(value: Seq<char>, labels: Seq<Seq<char>>) -> Seq<Size> {
    seq![row_extent(value_row(value, labels), GAP as int), glyph_cell()]
}

/// A bordered box with the row of a value and its labels, and the glyph
/// `GAP` pixels under it, centred together in the box.
pub open spec fn mood_cell_ops(
    bx: Rect,
    value: Seq<char>,
    color: Color,
    labels: Seq<Seq<char>>,
    glyph: char,
) -> Seq<Op> {
    let column = mood_column(value, labels);
    let top = centred_at(column_extent(column, GAP as int), bx);
    seq![Op::Outline { rect: bx, color: Color::Black }]
        + row_ops(offset(top, column_cell(column, GAP as int, 0).top_left), value, color, labels)
        + seq![
            Op::Glyph {
                glyph,
                at: glyph_anchor(offset(top, column_cell(column, GAP as int, 1).top_left)),
                color,
            },
        ]
}

/// A box that a value cell can be drawn in.
pub open spec fn cell_box_ok(bx: Rect) -> bool {
    near(bx.top_left, 1) && bx.size.width <= 1000 && bx.size.height <= 1000
}

proof fn lemma_mood_column_bounded(value: Seq<char>, labels: Seq<Seq<char>>)
    requires
        cell_texts_ok(value, labels),
    ensures
        crate::geometry::row_fits(transpose_all(mood_column(value, labels)), GAP as int),
        column_extent(mood_column(value, labels), GAP as int).width <= 408,
        column_extent(mood_column(value, labels), GAP as int).height <= 408,
        forall|i: int| 0 <= i < 2 ==> {
            let c = #[trigger] column_cell(mood_column(value, labels), GAP as int, i);
            &&& 0 <= c.left() && c.right() <= 408
            &&& 0 <= c.top() && c.bottom() <= 408
        },
{
    lemma_value_row_bounded(value, labels);
    let t = transpose_all(mood_column(value, labels));
    assert(t.len() == 2);
    assert forall|i: int| 0 <= i < t.len() implies (#[trigger] t[i]).width <= 200 && t[i].height <= 200 by {
    }
    lemma_row_cells_bounded(t, GAP as int, 200);
    assert(0 <= crate::geometry::row_width(t, GAP as int) <= 408);
}

/// Appends a bordered value cell.
fn push_cell(out: &mut Vec<DrawOp>, bx: Rect, value: Text, color: Color, labels: Vec<Text>)
    requires
        ops_ok(ops_view(old(out)@)),
        cell_box_ok(bx),
        cell_texts_ok(text_chars(value), texts_view(labels@)),
    ensures
        ops_ok(ops_view(final(out)@)),
        ops_view(final(out)@) == ops_view(old(out)@) + cell_ops(bx, text_chars(value), color, texts_view(labels@)),
{
    let ghost lv = texts_view(labels@);
    proof {
        lemma_value_row_bounded(text_chars(value), lv);
    }
    let layout = lay_out_row(&value, &labels);
    let at = centre_point(layout.row.size, bx);
    let op = DrawOp::Outline { rect: bx, color: Color::Black };
    proof {
        lemma_ops_view_push(out@, op);
        lemma_ops_ok_push(out@, op);
    }
    out.push(op);
    push_row(out, at, value, color, labels, &layout);
    proof {
        assert(ops_view(final(out)@) =~= ops_view(old(out)@) + cell_ops(bx, text_chars(value), color, lv));
    }
}

/// Appends a bordered value cell with a glyph under its text.
fn push_mood_cell(
    out: &mut Vec<DrawOp>,
    bx: Rect,
    value: Text,
    color: Color,
    labels: Vec<Text>,
    glyph: char,
)
    requires
        ops_ok(ops_view(old(out)@)),
        cell_box_ok(bx),
        cell_texts_ok(text_chars(value), texts_view(labels@)),
    ensures
        ops_ok(ops_view(final(out)@)),
        ops_view(final(out)@) == ops_view(old(out)@) + mood_cell_ops(
            bx,
            text_chars(value),
            color,
            texts_view(labels@),
            glyph,
        ),
{
    let ghost lv = texts_view(labels@);
    proof {
        lemma_value_row_bounded(text_chars(value), lv);
        lemma_mood_column_bounded(text_chars(value), lv);
    }
    let layout = lay_out_row(&value, &labels);
    let mut parts: Vec<Size> = Vec::new();
    parts.push(layout.row.size);
    let glyph_box = emoticon_box();
    parts.push(glyph_box.size);
    proof {
        assert(parts@ =~= mood_column(text_chars(value), lv));
    }
    let whole = stack_vertical(&parts, GAP);
    let top = centre_point(whole.size, bx);
    let row_at = add_points(top, whole.cells[0].top_left);
    let cell = add_points(top, whole.cells[1].top_left);
    let glyph_at = Point { x: cell.x - glyph_box.top_left.x, y: cell.y - glyph_box.top_left.y };
    let op = DrawOp::Outline { rect: bx, color: Color::Black };
    proof {
        lemma_ops_view_push(out@, op);
        lemma_ops_ok_push(out@, op);
    }
    out.push(op);
    push_row(out, row_at, value, color, labels, &layout);
    let g = DrawOp::Glyph { glyph, at: glyph_at, color };
    proof {
        lemma_ops_view_push(out@, g);
        lemma_ops_ok_push(out@, g);
    }
    out.push(g);
    proof {
        assert(ops_view(final(out)@) =~= ops_view(old(out)@) + mood_cell_ops(bx, text_chars(value), color, lv, glyph));
    }
}

/// Largest canvas side that the themes lay out on.
pub const AREA_MAX: u32 = 2048;

/// A canvas size that the themes can lay out on.
pub open spec fn area_ok(area: Size) -> bool {
    area.width <= AREA_MAX && area.height <= AREA_MAX
}

pub open spec fn co2_labels() -> Seq<Seq<char>> {
    seq![seq!['C', 'O', '2'], seq!['p', 'p', 'm']]
}

pub open spec fn temperature_labels() -> Seq<Seq<char>> {
    seq![seq!['\u{b0}', 'C']]
}

pub open spec fn humidity_labels() -> Seq<Seq<char>> {
    seq![seq!['R', 'H'], seq!['%']]
}

/// The glyph beside the CO2 value: elevated above the threshold, normal otherwise.
pub open spec fn mood_glyph(co2: u16) -> char {
    if alert(co2) { GLYPH_ELEVATED } else { GLYPH_NORMAL }
}

pub fn mood_of(co2: u16) -> (r: char)
    ensures
        r == mood_glyph(co2),
{
    if co2 > ALERT_PPM { GLYPH_ELEVATED } else { GLYPH_NORMAL }
}

pub open spec fn cell_sizes() -> Seq<Size> {
    seq![Size { width: CELL_SIDE, height: CELL_SIDE }; 3]
}

/// Box `i` of the three value cells, side by side with no margin, the row
/// centred on a canvas of size `area`.
pub open spec fn grid_box(area: Size, i: int) -> Rect {
    let at = centred_at(
        row_extent(cell_sizes(), 0),
        Rect { top_left: Point { x: 0, y: 0 }, size: area },
    );
    row_cell(cell_sizes(), 0, i).moved(at.x as int, at.y as int)
}

/// The grid: the canvas cleared to white, then the CO2, temperature and
/// humidity cells; with `mood`, the CO2 cell also shows the mood glyph.
pub open spec fn grid_scene(d: Data, area: Size, mood: bool) -> Seq<Op> {
    let co2 = decimal(d.co2 as nat);
    seq![Op::Clear { color: Color::White }]
        + (if mood {
            mood_cell_ops(grid_box(area, 0), co2, level_color(d.co2), co2_labels(), mood_glyph(d.co2))
        } else {
            cell_ops(grid_box(area, 0), co2, level_color(d.co2), co2_labels())
        })
        + cell_ops(grid_box(area, 1), one_decimal(d.temperature as int), Color::Black, temperature_labels())
        + cell_ops(grid_box(area, 2), one_decimal(d.humidity as int), Color::Black, humidity_labels())
}

/// The line theme: a chromatic rule across the middle of the canvas, then
/// the whole reading as one line of text at the top left.
pub open spec fn line_scene(d: Data, area: Size) -> Seq<Op> {
    let mid = (area.height / 2) as i32;
    seq![
        Op::Line {
            from: Point { x: 5, y: mid },
            to: Point { x: (area.width - 5) as i32, y: mid },
            stroke: 4,
            color: Color::Chromatic,
        },
        Op::Text {
            text: line_text(d),
            at: Point { x: 5, y: 10 },
            font: Font::Bold8x13,
            color: Color::Black,
            background: Color::White,
        },
    ]
}

fn text_of1(a: char) -> (r: Text)
    ensures
        text_chars(r) == seq![a],
        utf8_size(text_chars(r)) <= 4,
{
    let mut t = text_new();
    put(&mut t, a);
    proof {
        assert(text_chars(t) =~= seq![a]);
    }
    t
}

fn text_of2(a: char, b: char) -> (r: Text)
    ensures
        text_chars(r) == seq![a, b],
        utf8_size(text_chars(r)) <= 8,
{
    let mut t = text_of1(a);
    put(&mut t, b);
    proof {
        assert(text_chars(t) =~= seq![a, b]);
    }
    t
}

fn text_of3(a: char, b: char, c: char) -> (r: Text)
    ensures
        text_chars(r) == seq![a, b, c],
{
    let mut t = text_of2(a, b);
    put(&mut t, c);
    proof {
        assert(text_chars(t) =~= seq![a, b, c]);
    }
    t
}

fn co2_label_texts() -> (r: Vec<Text>)
    ensures
        texts_view(r@) == co2_labels(),
{
    let mut v: Vec<Text> = Vec::new();
    v.push(text_of3('C', 'O', '2'));
    v.push(text_of3('p', 'p', 'm'));
    proof {
        assert(texts_view(v@) =~= co2_labels());
    }
    v
}

fn temperature_label_texts() -> (r: Vec<Text>)
    ensures
        texts_view(r@) == temperature_labels(),
{
    let mut v: Vec<Text> = Vec::new();
    v.push(text_of2('\u{b0}', 'C'));
    proof {
        assert(texts_view(v@) =~= temperature_labels());
    }
    v
}

fn humidity_label_texts() -> (r: Vec<Text>)
    ensures
        texts_view(r@) == humidity_labels(),
{
    let mut v: Vec<Text> = Vec::new();
    v.push(text_of2('R', 'H'));
    v.push(text_of1('%'));
    proof {
        assert(texts_view(v@) =~= humidity_labels());
    }
    v
}

proof fn lemma_grid_boxes(area: Size)
    requires
        area_ok(area),
    ensures
        crate::geometry::row_fits(cell_sizes(), 0),
        crate::geometry::sizes_nonzero(cell_sizes()),
        row_extent(cell_sizes(), 0).width <= 240,
        row_extent(cell_sizes(), 0).height <= 80,
        forall|i: int| 0 <= i < 3 ==> cell_box_ok(#[trigger] grid_box(area, i)),
        forall|i: int| 0 <= i < 3 ==> {
            let c = #[trigger] row_cell(cell_sizes(), 0, i);
            0 <= c.left() <= 240 && 0 <= c.top() <= 80
        },
{
    let s = cell_sizes();
    lemma_row_cells_bounded(s, 0, 80);
    assert(0 <= crate::geometry::row_width(s, 0) <= 240);
}

/// The drawing steps of the grid themes.
pub fn compose_grid(d: &Data, area: Size, mood: bool) -> (r: Vec<DrawOp>)
    requires
        d.in_range(),
        area_ok(area),
    ensures
        ops_view(r@) == grid_scene(*d, area, mood),
        ops_ok(ops_view(r@)),
{
    proof {
        lemma_grid_boxes(area);
    }
    let mut out: Vec<DrawOp> = Vec::new();
    let clear = DrawOp::Clear { color: Color::White };
    proof {
        lemma_ops_view_push(out@, clear);
        lemma_ops_ok_push(out@, clear);
    }
    out.push(clear);
    let mut sizes: Vec<Size> = Vec::new();
    sizes.push(Size { width: CELL_SIDE, height: CELL_SIDE });
    sizes.push(Size { width: CELL_SIDE, height: CELL_SIDE });
    sizes.push(Size { width: CELL_SIDE, height: CELL_SIDE });
    proof {
        assert(sizes@ =~= cell_sizes());
    }
    let row = stack_horizontal(&sizes, 0);
    let at = centre_point(row.size, Rect { top_left: Point { x: 0, y: 0 }, size: area });
    let boxes = row.place(at);
    proof {
        assert forall|i: int| 0 <= i < 3 implies boxes@[i] == grid_box(area, i) by {
            assert(boxes@[i] == row.cells@[i].moved(at.x as int, at.y as int));
            assert(row.cells@[i] == row_cell(cell_sizes(), 0, i));
        }
        assert(cell_box_ok(grid_box(area, 0)));
        assert(cell_box_ok(grid_box(area, 1)));
        assert(cell_box_ok(grid_box(area, 2)));
    }
    let co2 = crate::format::co2_text(d.co2);
    let color = co2_color(d.co2);
    if mood {
        push_mood_cell(&mut out, boxes[0], co2, color, co2_label_texts(), mood_of(d.co2));
    } else {
        push_cell(&mut out, boxes[0], co2, color, co2_label_texts());
    }
    push_cell(&mut out, boxes[1], crate::format::value_text(d.temperature), Color::Black, temperature_label_texts());
    push_cell(&mut out, boxes[2], crate::format::value_text(d.humidity), Color::Black, humidity_label_texts());
    proof {
        assert(ops_view(out@) =~= grid_scene(*d, area, mood));
    }
    out
}

/// The drawing steps of the line theme.
pub fn compose_line(d: &Data, area: Size) -> (r: Vec<DrawOp>)
    requires
        area_ok(area),
    ensures
        ops_view(r@) == line_scene(*d, area),
        ops_ok(ops_view(r@)),
{
    let mid = (area.height / 2) as i32;
    let mut out: Vec<DrawOp> = Vec::new();
    proof {
        let dx = area.width as int - 10;
        assert(dx * dx <= 2048 * 2048) by (nonlinear_arith)
            requires
                -10 <= dx <= 2038,
        ;
        assert(11 * 11 * (dx * dx + 0 * 0) <= i32::MAX) by (nonlinear_arith)
            requires
                dx * dx <= 2048 * 2048,
        ;
    }
    let rule = DrawOp::Line {
        from: Point { x: 5, y: mid },
        to: Point { x: area.width as i32 - 5, y: mid },
        stroke: 4,
        color: Color::Chromatic,
    };
    proof {
        lemma_ops_view_push(out@, rule);
        lemma_ops_ok_push(out@, rule);
    }
    out.push(rule);
    let text = DrawOp::Text {
        text: crate::format::format_line(d),
        at: Point { x: 5, y: 10 },
        font: Font::Bold8x13,
        color: Color::Black,
        background: Color::White,
    };
    proof {
        lemma_ops_view_push(out@, text);
        lemma_ops_ok_push(out@, text);
    }
    out.push(text);
    proof {
        assert(ops_view(out@) =~= line_scene(*d, area));
    }
    out
}

/// A way of laying a reading out on the canvas.
pub trait Theme: Sized {
    /// The readings that the theme can lay out.
    spec fn accepts(&self, data: Data) -> bool;

    /// The drawing steps for a reading on a canvas of size `area`.
    spec fn scene(&self, data: Data, area: Size) -> Seq<Op>;

    /// Whether the theme can lay the reading out.
    fn accepts_data(&self, data: &Data) -> (r: bool)
        ensures
            r == self.accepts(*data),
    ;

    /// The drawing steps for a reading on a canvas of size `area`.
    fn compose(&self, data: &Data, area: Size) -> (r: Vec<DrawOp>)
        requires
            self.accepts(*data),
            area_ok(area),
        ensures
            ops_view(r@) == self.scene(*data, area),
            ops_ok(ops_view(r@)),
    ;

    /// Draws a reading on the canvas. A missing glyph stops the drawing and
    /// leaves the steps before it drawn.
    fn draw(&mut self, data: &Data, canvas: &mut Canvas) -> (r: Result<(), DrawError>)
        requires
            old(self).accepts(*data),
            canvas_planes(*old(canvas)).len() == 2 * PLANE_BYTES,
        ensures
            render_result(
                canvas_planes(*old(canvas)),
                old(self).scene(*data, canvas_size()),
                canvas_planes(*final(canvas)),
                r,
            ),
            *final(self) == *old(self),
    ;
}

/// The size of every canvas.
pub open spec fn canvas_size() -> Size {
    Size { width: CANVAS_WIDTH, height: CANVAS_HEIGHT }
}

/// The whole reading on one line of text, over a chromatic rule.
pub struct Theme1;

/// Three bordered cells side by side: CO2, temperature and humidity.
pub struct Theme2;

/// As `Theme2`, with a mood glyph under the CO2 value.
pub struct Theme3;

impl Theme1 {
    pub fn new() -> Theme1 {
        Theme1
    }
}

impl Theme2 {
    pub fn new() -> Theme2 {
        Theme2
    }
}

impl Theme3 {
    pub fn new() -> Theme3 {
        Theme3
    }
}

impl Theme for Theme1 {
    open spec fn accepts(&self, data: Data) -> bool {
        true
    }

    fn accepts_data(&self, data: &Data) -> (r: bool) {
        true
    }

    open spec fn scene(&self, data: Data, area: Size) -> Seq<Op> {
        line_scene(data, area)
    }

    fn compose(&self, data: &Data, area: Size) -> (r: Vec<DrawOp>) {
        compose_line(data, area)
    }

    fn draw(&mut self, data: &Data, canvas: &mut Canvas) -> (r: Result<(), DrawError>) {
        let ops = self.compose(data, canvas.size());
        canvas.render(&ops)
    }
}

impl Theme for Theme2 {
    open spec fn accepts(&self, data: Data) -> bool {
        data.in_range()
    }

    fn accepts_data(&self, data: &Data) -> (r: bool) {
        data.is_in_range()
    }

    open spec fn scene(&self, data: Data, area: Size) -> Seq<Op> {
        grid_scene(data, area, false)
    }

    fn compose(&self, data: &Data, area: Size) -> (r: Vec<DrawOp>) {
        compose_grid(data, area, false)
    }

    fn draw(&mut self, data: &Data, canvas: &mut Canvas) -> (r: Result<(), DrawError>) {
        let ops = self.compose(data, canvas.size());
        canvas.render(&ops)
    }
}

impl Theme for Theme3 {
    open spec fn accepts(&self, data: Data) -> bool {
        data.in_range()
    }

    fn accepts_data(&self, data: &Data) -> (r: bool) {
        data.is_in_range()
    }

    open spec fn scene(&self, data: Data, area: Size) -> Seq<Op> {
        grid_scene(data, area, true)
    }

    fn compose(&self, data: &Data, area: Size) -> (r: Vec<DrawOp>) {
        compose_grid(data, area, true)
    }

    fn draw(&mut self, data: &Data, canvas: &mut Canvas) -> (r: Result<(), DrawError>) {
        let ops = self.compose(data, canvas.size());
        canvas.render(&ops)
    }
}

/// In the grid themes the CO2 value is the first text drawn, in the large
/// font, and its colour is chromatic exactly when the level is strictly
/// above the threshold: black at 800 ppm, chromatic at 801 ppm.
pub proof fn lemma_co2_value_color(d: Data, area: Size, mood: bool)
    ensures
        grid_scene(d, area, mood)[2] matches Op::Text { text, font, color, .. } && text == decimal(
            d.co2 as nat,
        ) && font == Font::Large10x20 && color == (if d.co2 > 800 {
            Color::Chromatic
        } else {
            Color::Black
        }),
        level_color(800) == Color::Black,
        level_color(801) == Color::Chromatic,
{
    let co2 = decimal(d.co2 as nat);
    let s = grid_scene(d, area, mood);
    let first = if mood {
        mood_cell_ops(grid_box(area, 0), co2, level_color(d.co2), co2_labels(), mood_glyph(d.co2))
    } else {
        cell_ops(grid_box(area, 0), co2, level_color(d.co2), co2_labels())
    };
    assert(s[2] == first[1]);
}

/// Drawing a reading with a grid theme gives the same planes whatever the
/// canvas held before, since the canvas is cleared first: drawing twice
/// gives byte-identical planes.
pub proof fn lemma_grid_redraw_identical(d: Data, area: Size, mood: bool, p: Seq<u8>, q: Seq<u8>)
    ensures
        painted(p, grid_scene(d, area, mood)) == painted(q, grid_scene(d, area, mood)),
{
    let s = grid_scene(d, area, mood);
    let rest = s.subrange(1, s.len() as int);
    assert(s =~= seq![Op::Clear { color: Color::White }] + rest);
    crate::canvas::lemma_painted_after_clear(p, q, Color::White, rest);
}

} // verus!
