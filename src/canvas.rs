use vstd::arithmetic::div_mod::{lemma_fundamental_div_mod, lemma_fundamental_div_mod_converse};
use vstd::prelude::*;

use crate::constants::{BACKGROUND_COLOR, HEIGHT, WIDTH};
use crate::dims::Dims;
use crate::figure::{canonical, sort3_spec, Figures};
use crate::point::{
    lemma_lerp_x_between, lemma_product_sign, lerp_x_of, ordered, sort_spec, trunc_div, Point,
};

verus! {

/// Pixel `(col, row)` lies in the rectangle reaching `d` to the right of and
/// below `a`, both edges included.
pub open spec fn in_rectangle(a: Point, d: Dims, col: int, row: int) -> bool {
    a.x <= col <= a.x + d.width && a.y <= row <= a.y + d.height
}

/// Pixel `(col, row)` lies in the filled disk of radius `r` around `c`.
pub open spec fn in_circle(c: Point, r: usize, col: int, row: int) -> bool {
    (col - c.x) * (col - c.x) + (row - c.y) * (row - c.y) <= r * r
}

/// Pixel `(col, row)` lies on the segment from `a` down to `b`: a vertical
/// segment is one column; otherwise, inside the box spanned by `a` and `b`,
/// the row offset from `a` is the column offset times the slope, truncated.
pub open spec fn on_segment(a: Point, b: Point, col: int, row: int) -> bool {
    if a.x == b.x {
        col == a.x && a.y <= row <= b.y
    } else {
        &&& within(col, a.x as int, b.x as int)
        &&& a.y <= row <= b.y
        &&& row - a.y == trunc_div((b.y - a.y) * (col - a.x), b.x - a.x)
    }
}

/// Pixel `(col, row)` lies on the line between `a` and `b`, put in order.
pub open spec fn on_line(a: Point, b: Point, col: int, row: int) -> bool {
    on_segment(sort_spec(a, b).0, sort_spec(a, b).1, col, row)
}

/// Column of the edge from `a` toward `b` at row `y`; `a`'s own column when
/// the edge is horizontal.
pub open spec fn edge_x(a: Point, b: Point, y: int) -> int {
    if a.y == b.y {
        a.x as int
    } else {
        lerp_x_of(a, b, y)
    }
}

/// `c` lies between `e1` and `e2`, whichever of them is smaller.
pub open spec fn within(c: int, e1: int, e2: int) -> bool {
    (e1 <= c <= e2) || (e2 <= c <= e1)
}

/// Where the row of the middle vertex crosses the edge from `p1` to `p3`.
pub open spec fn split_point(p1: Point, p2: Point, p3: Point) -> Point {
    Point { x: edge_x(p1, p3, p2.y as int) as usize, y: p2.y }
}

/// Pixel `(col, row)` lies in the triangle with vertices `p1`, `p2`, `p3`
/// given in `ordered` order. A flat triangle is the line between its end
/// points. Otherwise only rows from `p1` to `p3` count; a triangle with a
/// flat top spans between its two edges to `p3`, and any other is cut at
/// the middle row into an upper half, spanned by the edges from `p1`, and a
/// lower half, spanned by the edges to `p3`.
pub open spec fn in_sorted_triangle(p1: Point, p2: Point, p3: Point, col: int, row: int) -> bool {
    if p1.y == p2.y && p2.y == p3.y {
        on_line(p1, p3, col, row)
    } else if row < p1.y || row > p3.y {
        false
    } else if p1.y == p2.y {
        within(col, edge_x(p1, p3, row), edge_x(p2, p3, row))
    } else {
        let p4 = split_point(p1, p2, p3);
        ||| (row <= p2.y && within(col, edge_x(p1, p2, row), edge_x(p1, p4, row)))
        ||| (row >= p2.y && within(col, edge_x(p2, p3, row), edge_x(p4, p3, row)))
    }
}

/// Pixel `(col, row)` belongs to the figure.
pub open spec fn covers(fig: Figures, col: int, row: int) -> bool {
    match fig {
        Figures::Rectangle(a, d) => in_rectangle(a, d, col, row),
        Figures::Circle(c, r) => in_circle(c, r, col, row),
        Figures::Line(a, b) => on_line(a, b, col, row),
        Figures::Triangle(a, b, c) => {
            let s = sort3_spec(a, b, c);
            in_sorted_triangle(s.0, s.1, s.2, col, row)
        },
    }
}

/// A row-major buffer `width` pixels wide after drawing `fig` in `color`:
/// covered pixels take the color, the others keep theirs.
pub open spec fn painted(pixels: Seq<u32>, width: int, fig: Figures, color: u32) -> Seq<u32> {
    Seq::new(
        pixels.len(),
        |i: int|
            if covers(fig, i % width, i / width) {
                color
            } else {
                pixels[i]
            },
    )
}

/// Ordering a figure's points does not change the pixels it covers.
pub proof fn lemma_canonical_covers(fig: Figures, col: int, row: int)
    ensures
        covers(canonical(fig), col, row) == covers(fig, col, row),
{
}

/// Position `y * width + x` of a buffer holds pixel `(x, y)`.
proof fn lemma_cell_position(width: int, x: int, y: int)
    requires
        0 <= x < width,
        0 <= y,
    ensures
        (y * width + x) % width == x,
        (y * width + x) / width == y,
{
    lemma_fundamental_div_mod_converse(y * width + x, width, y, x);
}

/// When two figures overlap, the pixels they share keep the color of the one
/// drawn last.
pub proof fn lemma_last_draw_wins(
    pixels: Seq<u32>,
    width: int,
    height: int,
    first: Figures,
    first_color: u32,
    second: Figures,
    second_color: u32,
    x: int,
    y: int,
)
    requires
        pixels.len() == width * height,
        0 <= x < width,
        0 <= y < height,
        covers(first, x, y),
        covers(second, x, y),
    ensures
        painted(painted(pixels, width, first, first_color), width, second, second_color)[y * width
            + x] == second_color,
{
    lemma_cell_position(width, x, y);
    assert(y * width + x < width * height) by (nonlinear_arith)
        requires
            0 <= x < width,
            0 <= y < height,
    ;
}

/// Drawing a figure that covers no pixel of the canvas leaves every pixel as
/// it was.
pub proof fn lemma_outside_draw_unchanged(
    pixels: Seq<u32>,
    width: int,
    height: int,
    fig: Figures,
    color: u32,
)
    requires
        0 <= width,
        0 <= height,
        pixels.len() == width * height,
        forall|x: int, y: int| 0 <= x < width && 0 <= y < height ==> !covers(fig, x, y),
    ensures
        painted(pixels, width, fig, color) == pixels,
{
    assert forall|i: int| 0 <= i < pixels.len() implies painted(pixels, width, fig, color)[i]
        == pixels[i] by {
        assert(width > 0 && height > 0) by (nonlinear_arith)
            requires
                0 <= i < width * height,
                width >= 0,
                height >= 0,
        ;
        let x = i % width;
        let y = i / width;
        lemma_fundamental_div_mod(i, width);
        assert(0 <= x < width && y >= 0);
        assert(i == y * width + x) by (nonlinear_arith)
            requires
                i == width * y + x,
        ;
        assert(y < height) by (nonlinear_arith)
            requires
                i == y * width + x,
                i < width * height,
                0 <= x,
                width > 0,
        ;
    }
    assert(painted(pixels, width, fig, color) =~= pixels);
}

/// A triangle whose three vertices share one row covers exactly the line
/// between its leftmost and rightmost vertices.
pub proof fn lemma_flat_triangle_is_line(a: Point, b: Point, c: Point, col: int, row: int)
    requires
        a.y == b.y,
        b.y == c.y,
    ensures
        ({
            let left = Point { x: vstd::math::min(a.x as int, vstd::math::min(b.x as int, c.x as int)) as usize, y: a.y };
            let right = Point { x: vstd::math::max(a.x as int, vstd::math::max(b.x as int, c.x as int)) as usize, y: a.y };
            covers(Figures::Triangle(a, b, c), col, row) == on_line(left, right, col, row)
        }),
{
}

/// A buffer of pixels, row by row.
#[derive(Debug)]
pub struct Canvas {
    width: usize,
    height: usize,
    pixels: Vec<u32>,
}

/// Tests `within` on machine integers.
fn between(c: usize, e1: usize, e2: usize) -> (r: bool)
    ensures
        r == within(c as int, e1 as int, e2 as int),
{
    (e1 <= c && c <= e2) || (e2 <= c && c <= e1)
}

/// Column of the edge from `a` toward `b` at a row between theirs.
fn edge(a: &Point, b: &Point, y: usize) -> (r: usize)
    requires
        (a.y <= y <= b.y) || (b.y <= y <= a.y),
    ensures
        r == edge_x(*a, *b, y as int),
{
    if a.y != b.y {
        proof {
            lemma_lerp_x_between(*a, *b, y as int);
        }
    }
    match a.lerp_x(b, y) {
        Some(x) => x,
        None => a.x(),
    }
}

fn hit_rectangle(a: &Point, d: &Dims, col: usize, row: usize) -> (r: bool)
    ensures
        r == in_rectangle(*a, *d, col as int, row as int),
{
    col >= a.x() && col - a.x() <= d.width() && row >= a.y() && row - a.y() <= d.height()
}

fn hit_circle(c: &Point, radius: usize, col: usize, row: usize) -> (r: bool)
    ensures
        r == in_circle(*c, radius, col as int, row as int),
{
    let dx: usize = if col >= c.x() {
        col - c.x()
    } else {
        c.x() - col
    };
    let dy: usize = if row >= c.y() {
        row - c.y()
    } else {
        c.y() - row
    };
    proof {
        assert(usize::MAX as int * usize::MAX as int <= u128::MAX) by (nonlinear_arith)
            requires
                usize::MAX <= u64::MAX,
        ;
        assert(dx * dx <= usize::MAX * usize::MAX && dy * dy <= usize::MAX * usize::MAX
            && radius * radius <= usize::MAX * usize::MAX) by (nonlinear_arith)
            requires
                dx <= usize::MAX,
                dy <= usize::MAX,
                radius <= usize::MAX,
        ;
        assert((col - c.x) * (col - c.x) == dx * dx) by (nonlinear_arith)
            requires
                dx == col - c.x || dx == c.x - col,
        ;
        assert((row - c.y) * (row - c.y) == dy * dy) by (nonlinear_arith)
            requires
                dy == row - c.y || dy == c.y - row,
        ;
    }
    let dx2: u128 = dx as u128 * dx as u128;
    let dy2: u128 = dy as u128 * dy as u128;
    let r2: u128 = radius as u128 * radius as u128;
    dx2 <= r2 && dy2 <= r2 - dx2
}

fn hit_segment(a: &Point, b: &Point, col: usize, row: usize) -> (r: bool)
    requires
        a.y <= b.y,
    ensures
        r == on_segment(*a, *b, col as int, row as int),
{
    if a.x() == b.x() {
        return col == a.x() && a.y() <= row && row <= b.y();
    }
    if !between(col, a.x(), b.x()) || row < a.y() || row > b.y() {
        return false;
    }
    let run: usize = if col >= a.x() {
        col - a.x()
    } else {
        a.x() - col
    };
    let span: usize = if b.x() >= a.x() {
        b.x() - a.x()
    } else {
        a.x() - b.x()
    };
    proof {
        assert(usize::MAX as int * usize::MAX as int <= u128::MAX) by (nonlinear_arith)
            requires
                usize::MAX <= u64::MAX,
        ;
        assert((b.y - a.y) * run <= usize::MAX * usize::MAX) by (nonlinear_arith)
            requires
                0 <= b.y - a.y <= usize::MAX,
                0 <= run <= usize::MAX,
        ;
        lemma_product_sign(b.y - a.y, col - a.x);
        assert(b.y == a.y || run == 0 ==> (b.y - a.y) * run == 0) by (nonlinear_arith);
    }
    let rise = (b.y() - a.y()) as u128 * run as u128;
    assert(rise == 0 ==> rise / span as u128 == 0);
    (row - a.y()) as u128 == rise / span as u128
}

fn hit_line(a: &Point, b: &Point, col: usize, row: usize) -> (r: bool)
    requires
        ordered(*a, *b),
    ensures
        r == on_line(*a, *b, col as int, row as int),
{
    hit_segment(a, b, col, row)
}

fn hit_triangle(p1: &Point, p2: &Point, p3: &Point, col: usize, row: usize) -> (r: bool)
    requires
        ordered(*p1, *p2),
        ordered(*p2, *p3),
    ensures
        r == in_sorted_triangle(*p1, *p2, *p3, col as int, row as int),
{
    if p1.y() == p2.y() && p2.y() == p3.y() {
        hit_line(p1, p3, col, row)
    } else if row < p1.y() || row > p3.y() {
        false
    } else if p1.y() == p2.y() {
        between(col, edge(p1, p3, row), edge(p2, p3, row))
    } else {
        let p4 = Point::new(edge(p1, p3, p2.y()), p2.y());
        assert(p4 == split_point(*p1, *p2, *p3));
        (row <= p2.y() && between(col, edge(p1, p2, row), edge(p1, &p4, row))) || (row >= p2.y()
            && between(col, edge(p2, p3, row), edge(&p4, p3, row)))
    }
}

/// Tests `covers` on a figure whose points are in order.
fn hit(fig: &Figures, col: usize, row: usize) -> (r: bool)
    requires
        fig.wf(),
    ensures
        r == covers(*fig, col as int, row as int),
{
    match fig {
        Figures::Rectangle(a, d) => hit_rectangle(a, d, col, row),
        Figures::Circle(c, radius) => hit_circle(c, *radius, col, row),
        Figures::Line(a, b) => hit_line(a, b, col, row),
        Figures::Triangle(p1, p2, p3) => hit_triangle(p1, p2, p3, col, row),
    }
}

impl Canvas {
    /// Number of columns.
    pub closed spec fn cols(&self) -> nat {
        self.width as nat
    }

    /// Number of rows.
    pub closed spec fn rows(&self) -> nat {
        self.height as nat
    }

    /// The pixels, row by row.
    pub closed spec fn cells(&self) -> Seq<u32> {
        self.pixels@
    }

    /// The buffer holds one pixel for each column of each row.
    pub open spec fn wf(&self) -> bool {
        self.cells().len() == self.cols() * self.rows()
    }

    /// A `width` by `height` canvas with every pixel in `color`.
    pub fn new(width: usize, height: usize, color: u32) -> (r: Self)
        requires
            width * height <= usize::MAX,
        ensures
            r.wf(),
            r.cols() == width,
            r.rows() == height,
            r.cells() == Seq::new((width * height) as nat, |i: int| color),
    {
        let n = width * height;
        let mut pixels: Vec<u32> = Vec::with_capacity(n);
        let mut i: usize = 0;
        while i < n
            invariant
                i <= n,
                pixels@ == Seq::new(i as nat, |j: int| color),
            decreases n - i,
        {
            pixels.push(color);
            i += 1;
            assert(pixels@ =~= Seq::new(i as nat, |j: int| color));
        }
        Self { width, height, pixels }
    }

    pub fn width(&self) -> (r: usize)
        ensures
            r == self.cols(),
    {
        self.width
    }

    pub fn height(&self) -> (r: usize)
        ensures
            r == self.rows(),
    {
        self.height
    }

    /// `(width, height)`.
    pub fn dims(&self) -> (r: (usize, usize))
        ensures
            r == (self.cols() as usize, self.rows() as usize),
    {
        (self.width, self.height)
    }

    /// The pixels, row by row.
    pub fn pixels(&self) -> (r: &Vec<u32>)
        ensures
            r@ == self.cells(),
    {
        &self.pixels
    }

    /// Sets every pixel to `color`.
    pub fn fill(&mut self, color: u32)
        requires
            old(self).wf(),
        ensures
            final(self).wf(),
            final(self).cols() == old(self).cols(),
            final(self).rows() == old(self).rows(),
            final(self).cells() == Seq::new(old(self).cells().len(), |i: int| color),
    {
        let n = self.pixels.len();
        let mut i: usize = 0;
        while i < n
            invariant
                i <= n,
                self.pixels@.len() == n,
                self.width == old(self).width,
                self.height == old(self).height,
                n == old(self).pixels@.len(),
                forall|j: int| 0 <= j < i ==> self.pixels@[j] == color,
            decreases n - i,
        {
            self.pixels.set(i, color);
            i += 1;
        }
        assert(self.pixels@ =~= Seq::new(n as nat, |i: int| color));
    }

    /// Position in the buffer of pixel `p`; `None` when it is off the canvas.
    pub fn index(&self, p: &Point) -> (r: Option<usize>)
        requires
            self.wf(),
        ensures
            r == if p.x < self.cols() && p.y < self.rows() {
                Some((p.y * self.cols() + p.x) as usize)
            } else {
                None::<usize>
            },
    {
        if p.x() >= self.width() || p.y() >= self.height() {
            return None;
        }
        let n = self.pixels.len();
        proof {
            assert(p.y * self.width + p.x < self.width * self.height) by (nonlinear_arith)
                requires
                    p.x < self.width,
                    p.y < self.height,
            ;
            assert(n == self.width * self.height);
        }
        Some(p.x() + p.y() * self.width)
    }

    /// Colors every pixel that `fig` covers with `color`; pixels off the
    /// canvas are never touched.
    pub fn draw(&mut self, fig: Figures, color: u32)
        requires
            old(self).wf(),
        ensures
            final(self).wf(),
            final(self).cols() == old(self).cols(),
            final(self).rows() == old(self).rows(),
            final(self).cells() == painted(old(self).cells(), old(self).cols() as int, fig, color),
    {
        let shape = fig.sort_points();
        let n = self.pixels.len();
        let w = self.width;
        let ghost before = self.pixels@;
        let mut i: usize = 0;
        while i < n
            invariant
                i <= n,
                n == before.len(),
                n == w * self.height,
                w == self.width,
                self.width == old(self).width,
                self.height == old(self).height,
                before == old(self).pixels@,
                shape == canonical(fig),
                shape.wf(),
                self.pixels@.len() == n,
                forall|j: int| 0 <= j < i ==> self.pixels@[j] == painted(before, w as int, fig, color)[j],
                forall|j: int| i <= j < n ==> self.pixels@[j] == before[j],
            decreases n - i,
        {
            assert(w > 0) by (nonlinear_arith)
                requires
                    i < n,
                    n == w * self.height,
            ;
            let row = i / w;
            let col = i % w;
            let inside = hit(&shape, col, row);
            proof {
                lemma_canonical_covers(fig, col as int, row as int);
            }
            if inside {
                self.pixels.set(i, color);
            }
            i += 1;
        }
        assert(self.pixels@ =~= painted(before, w as int, fig, color));
    }
}

impl Default for Canvas {
    /// A `WIDTH` by `HEIGHT` canvas in `BACKGROUND_COLOR`.
    fn default() -> (r: Self)
        ensures
            r.wf(),
            r.cols() == WIDTH,
            r.rows() == HEIGHT,
            r.cells() == Seq::new((WIDTH * HEIGHT) as nat, |i: int| BACKGROUND_COLOR),
    {
        Self::new(WIDTH, HEIGHT, BACKGROUND_COLOR)
    }
}

} // verus!
