use vstd::prelude::*;
use embedded_layout::align::Align;
use embedded_layout::align::{horizontal, vertical};
use embedded_layout::layout::linear::{FixedMargin, LinearLayout};
use embedded_layout::view_group::Views;

verus! {

/// A position on the canvas, in pixels; `y` grows downwards.
#[derive(Clone, Copy, Debug, PartialEq, Eq, Structural)]
pub struct Point {
    pub x: i32,
    pub y: i32,
}

/// A width and a height, in pixels.
#[derive(Clone, Copy, Debug, PartialEq, Eq, Structural)]
pub struct Size {
    pub width: u32,
    pub height: u32,
}

/// An axis-aligned box: the pixels `top_left.x .. top_left.x + width`
/// by `top_left.y .. top_left.y + height`.
#[derive(Clone, Copy, Debug, PartialEq, Eq, Structural)]
pub struct Rect {
    pub top_left: Point,
    pub size: Size,
}

impl Point {
    pub fn new(x: i32, y: i32) -> (r: Point)
        ensures
            r == (Point { x, y }),
    {
        Point { x, y }
    }
}

impl Size {
    pub fn new(width: u32, height: u32) -> (r: Size)
        ensures
            r == (Size { width, height }),
    {
        Size { width, height }
    }

    pub open spec fn transposed(self) -> Size {
        Size { width: self.height, height: self.width }
    }
}

impl Rect {
    pub fn new(top_left: Point, size: Size) -> (r: Rect)
        ensures
            r == (Rect { top_left, size }),
    {
        Rect { top_left, size }
    }

    pub open spec fn left(self) -> int {
        self.top_left.x as int
    }

    pub open spec fn top(self) -> int {
        self.top_left.y as int
    }

    /// One past the last column.
    pub open spec fn right(self) -> int {
        self.top_left.x + self.size.width
    }

    /// One past the last row.
    pub open spec fn bottom(self) -> int {
        self.top_left.y + self.size.height
    }

    /// Both far edges are representable.
    pub open spec fn fits(self) -> bool {
        self.right() <= i32::MAX && self.bottom() <= i32::MAX
    }

    pub open spec fn contains(self, inner: Rect) -> bool {
        &&& self.left() <= inner.left()
        &&& self.top() <= inner.top()
        &&& inner.right() <= self.right()
        &&& inner.bottom() <= self.bottom()
    }

    pub open spec fn moved(self, dx: int, dy: int) -> Rect {
        Rect {
            top_left: Point { x: (self.top_left.x + dx) as i32, y: (self.top_left.y + dy) as i32 },
            size: self.size,
        }
    }

    pub open spec fn transposed(self) -> Rect {
        Rect {
            top_left: Point { x: self.top_left.y, y: self.top_left.x },
            size: self.size.transposed(),
        }
    }

    /// The box moved by `by`.
    pub fn translate(&self, by: Point) -> (r: Rect)
        requires
            i32::MIN <= self.top_left.x + by.x <= i32::MAX,
            i32::MIN <= self.top_left.y + by.y <= i32::MAX,
        ensures
            r == self.moved(by.x as int, by.y as int),
    {
        Rect {
            top_left: Point { x: self.top_left.x + by.x, y: self.top_left.y + by.y },
            size: self.size,
        }
    }
}

/// Sum of the widths.
pub open spec fn total_width(s: Seq<Size>) -> int
    decreases s.len(),
{
    if s.len() == 0 {
        0
    } else {
        total_width(s.subrange(0, s.len() - 1)) + s[s.len() - 1].width
    }
}

/// Largest height, 0 for no items.
pub open spec fn max_height(s: Seq<Size>) -> int
    decreases s.len(),
{
    if s.len() == 0 {
        0
    } else {
        let m = max_height(s.subrange(0, s.len() - 1));
        if s[s.len() - 1].height > m { s[s.len() - 1].height as int } else { m }
    }
}

/// Width of a row of the items with `spacing` pixels between neighbours.
pub open spec fn row_width(s: Seq<Size>, spacing: int) -> int {
    if s.len() == 0 { 0 } else { total_width(s) + spacing * (s.len() - 1) }
}

/// The bounding box of a row: the union of its items and the spacing between them.
pub open spec fn row_extent(s: Seq<Size>, spacing: int) -> Size {
    Size { width: row_width(s, spacing) as u32, height: max_height(s) as u32 }
}

/// Offset of the centre of a span of `n` pixels from its start: the middle
/// pixel, the left one of the two middle pixels for an even span.
pub open spec fn mid(n: int) -> int {
    if n <= 0 { 0 } else { (n - 1) / 2 }
}

/// Every item is at least one pixel wide and high.
pub open spec fn sizes_nonzero(s: Seq<Size>) -> bool {
    forall|i: int| 0 <= i < s.len() ==> (#[trigger] s[i]).width >= 1 && s[i].height >= 1
}

/// Place of item `i` in a row that starts at the origin; each item is
/// centred vertically in the row.
pub open spec fn row_cell(s: Seq<Size>, spacing: int, i: int) -> Rect {
    Rect {
        top_left: Point {
            x: (total_width(s.subrange(0, i)) + spacing * i) as i32,
            y: (mid(max_height(s)) - mid(s[i].height as int)) as i32,
        },
        size: s[i],
    }
}

/// The row can be laid out with representable coordinates.
pub open spec fn row_fits(s: Seq<Size>, spacing: int) -> bool {
    total_width(s) + spacing * s.len() <= i32::MAX && max_height(s) <= i32::MAX
}

pub open spec fn transpose_all(s: Seq<Size>) -> Seq<Size> {
    s.map_values(|z: Size| z.transposed())
}

/// Place of item `i` in a column that starts at the origin; each item is
/// centred horizontally in the column.
pub open spec fn column_cell(s: Seq<Size>, spacing: int, i: int) -> Rect {
    row_cell(transpose_all(s), spacing, i).transposed()
}

pub open spec fn column_extent(s: Seq<Size>, spacing: int) -> Size {
    row_extent(transpose_all(s), spacing).transposed()
}

/// Top-left corner at which a box of `size` is centred in `reference`: the
/// centres, `top_left + mid(size)` on each axis, meet.
pub open spec fn centred_at(size: Size, reference: Rect) -> Point {
    Point {
        x: (reference.top_left.x + mid(reference.size.width as int) - mid(size.width as int)) as i32,
        y: (reference.top_left.y + mid(reference.size.height as int) - mid(size.height as int)) as i32,
    }
}

/// Bound on the coordinates and sizes that alignment works with.
pub const LAYOUT_BOUND: u32 = 16777216;

/// Items laid out in a row or a column, relative to the origin.
pub struct Stack {
    /// The place of each item.
    pub cells: Vec<Rect>,
    /// The bounding box of the whole stack, whose top-left corner is the origin.
    pub size: Size,
}

pub proof fn lemma_total_width_step(s: Seq<Size>, i: int)
    requires
        0 <= i < s.len(),
    ensures
        total_width(s.subrange(0, i + 1)) == total_width(s.subrange(0, i)) + s[i].width,
{
    assert(s.subrange(0, i + 1).subrange(0, i) =~= s.subrange(0, i));
}

proof fn lemma_max_height_step(s: Seq<Size>, i: int)
    requires
        0 <= i < s.len(),
    ensures
        max_height(s.subrange(0, i + 1)) == if s[i].height > max_height(s.subrange(0, i)) {
            s[i].height as int
        } else {
            max_height(s.subrange(0, i))
        },
{
    assert(s.subrange(0, i + 1).subrange(0, i) =~= s.subrange(0, i));
}

pub proof fn lemma_total_width_prefix(s: Seq<Size>, i: int)
    requires
        0 <= i <= s.len(),
    ensures
        total_width(s.subrange(0, i)) <= total_width(s),
        0 <= total_width(s.subrange(0, i)),
    decreases s.len() - i,
{
    if i < s.len() {
        lemma_total_width_step(s, i);
        lemma_total_width_prefix(s, i + 1);
        lemma_total_width_nonneg(s.subrange(0, i));
    } else {
        assert(s.subrange(0, i) =~= s);
        lemma_total_width_nonneg(s);
    }
}

proof fn lemma_total_width_nonneg(s: Seq<Size>)
    ensures
        0 <= total_width(s),
    decreases s.len(),
{
    if s.len() > 0 {
        lemma_total_width_nonneg(s.subrange(0, s.len() - 1));
    }
}

pub proof fn lemma_max_height_bounds(s: Seq<Size>, i: int)
    requires
        0 <= i < s.len(),
    ensures
        s[i].height <= max_height(s),
    decreases s.len(),
{
    if i < s.len() - 1 {
        lemma_max_height_bounds(s.subrange(0, s.len() - 1), i);
    }
}

proof fn lemma_max_height_nonneg(s: Seq<Size>)
    ensures
        0 <= max_height(s),
    decreases s.len(),
{
    if s.len() > 0 {
        lemma_max_height_nonneg(s.subrange(0, s.len() - 1));
    }
}

/// Each item of a row lies inside the row's bounding box.
pub proof fn lemma_row_cell_within_extent(s: Seq<Size>, spacing: int, i: int)
    requires
        0 <= i < s.len(),
        spacing >= 0,
        row_fits(s, spacing),
    ensures
        (Rect { top_left: Point { x: 0, y: 0 }, size: row_extent(s, spacing) }).contains(
            row_cell(s, spacing, i),
        ),
{
    lemma_total_width_step(s, i);
    lemma_total_width_prefix(s, i + 1);
    lemma_total_width_prefix(s, i);
    lemma_max_height_bounds(s, i);
    assert(spacing * i <= spacing * (s.len() - 1)) by (nonlinear_arith)
        requires
            spacing >= 0,
            i <= s.len() - 1,
    ;
    assert(spacing * i >= 0) by (nonlinear_arith)
        requires
            spacing >= 0,
            i >= 0,
    ;
    assert(spacing * (s.len() - 1) <= spacing * s.len()) by (nonlinear_arith)
        requires
            spacing >= 0,
    ;
}

/// Relies on embedded-layout's `LinearLayout::horizontal` over rectangles,
/// with `vertical::Center` alignment and a `FixedMargin` of `spacing`: for
/// items of non-zero size, the first starts at the origin, each next one
/// `spacing` pixels after the previous one ends, and every item's centre
/// lies on the centre line of the tallest.
#[verifier::external_body]
fn arrange_row(sizes: &Vec<Size>, spacing: u32) -> (r: Vec<Rect>)
    requires
        sizes@.len() >= 1,
        sizes_nonzero(sizes@),
        row_fits(sizes@, spacing as int),
    ensures
        r@.len() == sizes@.len(),
        forall|i: int| 0 <= i < sizes@.len() ==> #[trigger] r@[i] == row_cell(sizes@, spacing as int, i),
{
    let zero = embedded_graphics::prelude::Point::zero();
    let mut rects: Vec<embedded_graphics::primitives::Rectangle> = sizes.iter()
        .map(|z| embedded_graphics::primitives::Rectangle::new(zero, embedded_graphics::prelude::Size::new(z.width, z.height)))
        .collect();
    LinearLayout::horizontal(Views::new(&mut rects)).with_alignment(vertical::Center)
        .with_spacing(FixedMargin(spacing as i32)).arrange();
    rects.iter().map(|c| Rect {
        top_left: Point { x: c.top_left.x, y: c.top_left.y },
        size: Size { width: c.size.width, height: c.size.height },
    }).collect()
}

/// Lays the items out left to right, `spacing` pixels apart, each centred
/// vertically; the row starts at the origin.
pub fn stack_horizontal(sizes: &Vec<Size>, spacing: u32) -> (r: Stack)
    requires
        sizes_nonzero(sizes@),
        row_fits(sizes@, spacing as int),
    ensures
        r.cells@.len() == sizes@.len(),
        forall|i: int| 0 <= i < sizes@.len() ==> #[trigger] r.cells@[i] == row_cell(sizes@, spacing as int, i),
        r.size == row_extent(sizes@, spacing as int),
{
    let n = sizes.len();
    let mut height: u32 = 0;
    let mut i: usize = 0;
    while i < n
        invariant
            n == sizes@.len(),
            0 <= i <= n,
            height == max_height(sizes@.subrange(0, i as int)),
            row_fits(sizes@, spacing as int),
        decreases n - i,
    {
        proof {
            lemma_max_height_step(sizes@, i as int);
            lemma_max_height_bounds(sizes@, i as int);
        }
        if sizes[i].height > height {
            height = sizes[i].height;
        }
        i = i + 1;
    }
    let mut width: u32 = 0;
    let mut k: usize = 0;
    while k < n
        invariant
            n == sizes@.len(),
            0 <= k <= n,
            width == total_width(sizes@.subrange(0, k as int)) + spacing * k,
            row_fits(sizes@, spacing as int),
        decreases n - k,
    {
        proof {
            lemma_total_width_step(sizes@, k as int);
            lemma_total_width_prefix(sizes@, k as int + 1);
            assert(spacing * (k + 1) <= spacing * n) by (nonlinear_arith)
                requires
                    k + 1 <= n,
            ;
            assert(spacing * (k + 1) == spacing * k + spacing) by (nonlinear_arith);
        }
        width = width + sizes[k].width + spacing;
        k = k + 1;
    }
    proof {
        assert(sizes@.subrange(0, n as int) =~= sizes@);
        lemma_total_width_nonneg(sizes@);
    }
    if n == 0 {
        return Stack { cells: Vec::new(), size: Size { width: 0, height: 0 } };
    }
    proof {
        assert(spacing * n == spacing * (n - 1) + spacing) by (nonlinear_arith);
        assert(spacing * (n - 1) >= 0) by (nonlinear_arith)
            requires
                n >= 1,
        ;
    }
    let cells = arrange_row(sizes, spacing);
    Stack { cells, size: Size { width: width - spacing, height } }
}

/// Lays the items out top to bottom, `spacing` pixels apart, each centred
/// horizontally; the column starts at the origin.
pub fn stack_vertical(sizes: &Vec<Size>, spacing: u32) -> (r: Stack)
    requires
        sizes_nonzero(sizes@),
        row_fits(transpose_all(sizes@), spacing as int),
    ensures
        r.cells@.len() == sizes@.len(),
        forall|i: int| 0 <= i < sizes@.len() ==> #[trigger] r.cells@[i] == column_cell(sizes@, spacing as int, i),
        r.size == column_extent(sizes@, spacing as int),
{
    let n = sizes.len();
    let mut flipped: Vec<Size> = Vec::new();
    let mut i: usize = 0;
    while i < n
        invariant
            n == sizes@.len(),
            0 <= i <= n,
            flipped@ == transpose_all(sizes@.subrange(0, i as int)),
        decreases n - i,
    {
        flipped.push(Size { width: sizes[i].height, height: sizes[i].width });
        i = i + 1;
        proof {
            assert(flipped@ =~= transpose_all(sizes@.subrange(0, i as int)));
        }
    }
    proof {
        assert(sizes@.subrange(0, n as int) =~= sizes@);
        assert forall|k: int| 0 <= k < flipped@.len() implies (#[trigger] flipped@[k]).width >= 1
            && flipped@[k].height >= 1 by {
            assert(flipped@[k] == sizes@[k].transposed());
        }
    }
    let row = stack_horizontal(&flipped, spacing);
    let mut cells: Vec<Rect> = Vec::new();
    let mut j: usize = 0;
    while j < n
        invariant
            n == sizes@.len(),
            0 <= j <= n,
            flipped@ == transpose_all(sizes@),
            row.cells@.len() == n,
            forall|k: int| 0 <= k < n ==> #[trigger] row.cells@[k] == row_cell(flipped@, spacing as int, k),
            cells@.len() == j,
            forall|k: int| 0 <= k < j ==> #[trigger] cells@[k] == column_cell(sizes@, spacing as int, k),
        decreases n - j,
    {
        let c = row.cells[j];
        cells.push(Rect {
            top_left: Point { x: c.top_left.y, y: c.top_left.x },
            size: Size { width: c.size.height, height: c.size.width },
        });
        j = j + 1;
    }
    Stack { cells, size: Size { width: row.size.height, height: row.size.width } }
}

/// Relies on embedded-layout's `Align::align_to` with `horizontal::Center`
/// and `vertical::Center`: a box of `size` is moved so that its centre,
/// `top_left + (size - 1) / 2` on each axis, meets the reference's.
#[verifier::external_body]
pub(crate) fn centre_point(size: Size, reference: Rect) -> (r: Point)
    requires
        size.width <= LAYOUT_BOUND && size.height <= LAYOUT_BOUND,
        reference.size.width <= LAYOUT_BOUND && reference.size.height <= LAYOUT_BOUND,
        -LAYOUT_BOUND <= reference.top_left.x <= LAYOUT_BOUND,
        -LAYOUT_BOUND <= reference.top_left.y <= LAYOUT_BOUND,
    ensures
        r == centred_at(size, reference),
{
    let object = embedded_graphics::primitives::Rectangle::new(
        embedded_graphics::prelude::Point::zero(),
        embedded_graphics::prelude::Size::new(size.width, size.height),
    );
    let target = embedded_graphics::primitives::Rectangle::new(
        embedded_graphics::prelude::Point::new(reference.top_left.x, reference.top_left.y),
        embedded_graphics::prelude::Size::new(reference.size.width, reference.size.height),
    );
    let moved = object.align_to(&target, horizontal::Center, vertical::Center);
    Point { x: moved.top_left.x, y: moved.top_left.y }
}

impl Stack {
    /// The cells moved so that the stack is centred in `reference`.
    pub fn align_center(&self, reference: Rect) -> (r: Vec<Rect>)
        requires
            self.size.width <= LAYOUT_BOUND && self.size.height <= LAYOUT_BOUND,
            reference.size.width <= LAYOUT_BOUND && reference.size.height <= LAYOUT_BOUND,
            -LAYOUT_BOUND <= reference.top_left.x <= LAYOUT_BOUND,
            -LAYOUT_BOUND <= reference.top_left.y <= LAYOUT_BOUND,
            forall|i: int| 0 <= i < self.cells@.len() ==> {
                let c = #[trigger] self.cells@[i];
                0 <= c.top_left.x <= LAYOUT_BOUND && 0 <= c.top_left.y <= LAYOUT_BOUND
            },
        ensures
            r@.len() == self.cells@.len(),
            forall|i: int| 0 <= i < r@.len() ==> {
                let at = centred_at(self.size, reference);
                #[trigger] r@[i] == self.cells@[i].moved(at.x as int, at.y as int)
            },
    {
        let at = centre_point(self.size, reference);
        self.place(at)
    }

    /// The cells moved so that the stack's top-left corner is `at`.
    pub fn place(&self, at: Point) -> (r: Vec<Rect>)
        requires
            forall|i: int| 0 <= i < self.cells@.len() ==> i32::MIN <= #[trigger] self.cells@[i].top_left.x + at.x <= i32::MAX,
            forall|i: int| 0 <= i < self.cells@.len() ==> i32::MIN <= #[trigger] self.cells@[i].top_left.y + at.y <= i32::MAX,
        ensures
            r@.len() == self.cells@.len(),
            forall|i: int| 0 <= i < r@.len() ==> #[trigger] r@[i] == self.cells@[i].moved(at.x as int, at.y as int),
    {
        let mut out: Vec<Rect> = Vec::new();
        let mut i: usize = 0;
        while i < self.cells.len()
            invariant
                0 <= i <= self.cells@.len(),
                out@.len() == i,
                forall|k: int| 0 <= k < self.cells@.len() ==> i32::MIN <= #[trigger] self.cells@[k].top_left.x + at.x <= i32::MAX,
                forall|k: int| 0 <= k < self.cells@.len() ==> i32::MIN <= #[trigger] self.cells@[k].top_left.y + at.y <= i32::MAX,
                forall|k: int| 0 <= k < i ==> #[trigger] out@[k] == self.cells@[k].moved(at.x as int, at.y as int),
            decreases self.cells@.len() - i,
        {
            out.push(self.cells[i].translate(at));
            i = i + 1;
        }
        out
    }
}

/// A row whose width (the items and the spacing between them) and height fit
/// in a reference box, once centred in it, lies wholly inside it, and so
/// does every item of the row.
pub proof fn lemma_centred_row_inside(s: Seq<Size>, spacing: int, reference: Rect)
    requires
        spacing >= 0,
        row_fits(s, spacing),
        reference.fits(),
        row_width(s, spacing) <= reference.size.width,
        max_height(s) <= reference.size.height,
    ensures
        ({
            let at = centred_at(row_extent(s, spacing), reference);
            &&& reference.contains(Rect { top_left: at, size: row_extent(s, spacing) })
            &&& forall|i: int| 0 <= i < s.len() ==> reference.contains(
                #[trigger] row_cell(s, spacing, i).moved(at.x as int, at.y as int),
            )
        }),
{
    lemma_total_width_nonneg(s);
    lemma_max_height_nonneg(s);
    if s.len() > 0 {
        assert(spacing * (s.len() - 1) >= 0) by (nonlinear_arith)
            requires
                spacing >= 0,
                s.len() >= 1,
        ;
    }
    let ext = row_extent(s, spacing);
    let at = centred_at(ext, reference);
    assert forall|i: int| 0 <= i < s.len() implies reference.contains(
        #[trigger] row_cell(s, spacing, i).moved(at.x as int, at.y as int),
    ) by {
        lemma_row_cell_within_extent(s, spacing, i);
    }
}

/// `p` moved by `q`.
pub open spec fn offset(p: Point, q: Point) -> Point {
    Point { x: (p.x + q.x) as i32, y: (p.y + q.y) as i32 }
}

/// `p` moved by `q`.
pub fn add_points(p: Point, q: Point) -> (r: Point)
    requires
        i32::MIN <= p.x + q.x <= i32::MAX,
        i32::MIN <= p.y + q.y <= i32::MAX,
    ensures
        r == offset(p, q),
{
    Point { x: p.x + q.x, y: p.y + q.y }
}

/// Items no wider and no higher than `b` make a row at most `n * b` wide
/// and at most `b` high.
pub proof fn lemma_bounded_sizes(s: Seq<Size>, b: int)
    requires
        forall|i: int| 0 <= i < s.len() ==> (#[trigger] s[i]).width <= b && s[i].height <= b,
    ensures
        0 <= total_width(s) <= s.len() * b,
        0 <= max_height(s),
        s.len() > 0 ==> max_height(s) <= b,
    decreases s.len(),
{
    if s.len() > 0 {
        let t = s.subrange(0, s.len() - 1);
        assert forall|i: int| 0 <= i < t.len() implies (#[trigger] t[i]).width <= b && t[i].height <= b by {
            assert(t[i] == s[i]);
        }
        lemma_bounded_sizes(t, b);
        assert(t.len() * b + b == s.len() * b) by (nonlinear_arith)
            requires
                t.len() + 1 == s.len(),
        ;
    }
}

/// The row's items lie between the origin and the row's far corner.
pub proof fn lemma_row_cells_bounded(s: Seq<Size>, spacing: int, b: int)
    requires
        spacing >= 0,
        b >= 0,
        forall|i: int| 0 <= i < s.len() ==> (#[trigger] s[i]).width <= b && s[i].height <= b,
        s.len() * (b + spacing) <= i32::MAX,
    ensures
        row_fits(s, spacing),
        0 <= row_width(s, spacing) <= s.len() * (b + spacing),
        max_height(s) <= b,
        forall|i: int| 0 <= i < s.len() ==> {
            let c = #[trigger] row_cell(s, spacing, i);
            &&& 0 <= c.left() && c.right() <= s.len() * (b + spacing)
            &&& 0 <= c.top() && c.bottom() <= b
        },
{
    lemma_bounded_sizes(s, b);
    assert(s.len() * (b + spacing) == s.len() * b + spacing * s.len()) by (nonlinear_arith);
    assert(spacing * s.len() >= 0) by (nonlinear_arith)
        requires
            spacing >= 0,
    ;
    if s.len() > 0 {
        assert(spacing * (s.len() - 1) <= spacing * s.len()) by (nonlinear_arith)
            requires
                spacing >= 0,
        ;
        assert(spacing * (s.len() - 1) >= 0) by (nonlinear_arith)
            requires
                spacing >= 0,
                s.len() >= 1,
        ;
        assert(b <= s.len() * (b + spacing)) by (nonlinear_arith)
            requires
                spacing >= 0,
                b >= 0,
                s.len() >= 1,
        ;
    }
    assert(total_width(s) + spacing * s.len() <= i32::MAX);
    assert(max_height(s) <= i32::MAX);
    assert forall|i: int| 0 <= i < s.len() implies {
        let c = #[trigger] row_cell(s, spacing, i);
        &&& 0 <= c.left() && c.right() <= s.len() * (b + spacing)
        &&& 0 <= c.top() && c.bottom() <= b
    } by {
        lemma_row_cell_within_extent(s, spacing, i);
    }
}

} // verus!
