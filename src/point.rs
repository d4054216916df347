use vstd::arithmetic::div_mod::{lemma_div_by_multiple, lemma_div_is_ordered, lemma_div_pos_is_pos};
use vstd::arithmetic::mul::lemma_mul_inequality;
use vstd::prelude::*;

verus! {

/// A pixel coordinate: column `x`, row `y`.
#[derive(Debug, Clone, Copy, PartialEq, Eq, Structural)]
pub struct Point {
    pub x: usize,
    pub y: usize,
}

/// `|v|` as a natural number.
pub open spec fn magnitude(v: int) -> nat {
    if v < 0 {
        (-v) as nat
    } else {
        v as nat
    }
}

/// Integer division rounding toward zero, as a cast of the exact quotient
/// to an integer does. Slopes are taken exactly on integers: a step along a
/// line is the exact rational value truncated toward zero, never a quotient
/// rounded on the way, so results never fall one short at exact integers.
pub open spec fn trunc_div(n: int, d: int) -> int {
    let q = (magnitude(n) / magnitude(d)) as int;
    if (n < 0) == (d < 0) {
        q
    } else {
        -q
    }
}

/// `base + trunc((n1 - n0) * (f1 - f0) / (d1 - d0))`: a step along a slope,
/// measured from an anchor coordinate.
pub open spec fn slope_step(base: int, n1: int, n0: int, f1: int, f0: int, d1: int, d0: int) -> int {
    base + trunc_div((n1 - n0) * (f1 - f0), d1 - d0)
}

/// Total order on points: by row, then by column.
pub open spec fn ordered(a: Point, b: Point) -> bool {
    a.y < b.y || (a.y == b.y && a.x <= b.x)
}

/// The pair `(a, b)` put in `ordered` order; `a` comes first only when it
/// strictly precedes `b`.
pub open spec fn sort_spec(a: Point, b: Point) -> (Point, Point) {
    if a.y < b.y || (a.y == b.y && a.x < b.x) {
        (a, b)
    } else {
        (b, a)
    }
}

/// Sorting a sorted pair gives the same pair back.
pub proof fn lemma_sort_idempotent(a: Point, b: Point)
    ensures
        sort_spec(sort_spec(a, b).0, sort_spec(a, b).1) == sort_spec(a, b),
{
}

/// Column of the line through `a` and `b` at row `y`, measured from `b`
/// (meaningful when `a.y != b.y`).
pub open spec fn lerp_x_of(a: Point, b: Point, y: int) -> int {
    slope_step(b.x as int, y, b.y as int, a.x as int, b.x as int, a.y as int, b.y as int)
}

/// Row of the line through `a` and `b` at column `x`, measured from `b`
/// (meaningful when `a.x != b.x`).
pub open spec fn lerp_y_of(a: Point, b: Point, x: int) -> int {
    slope_step(b.y as int, x, b.x as int, a.y as int, b.y as int, a.x as int, b.x as int)
}

proof fn lemma_product_bound(a: int, b: int, m: int)
    requires
        0 <= a <= m,
        0 <= b <= m,
    ensures
        0 <= a * b <= m * m,
{
    assert(0 <= a * b <= m * m) by (nonlinear_arith)
        requires
            0 <= a <= m,
            0 <= b <= m,
    ;
}

/// `|u * v| == |u| * |v|`, and the product is negative exactly when the
/// factors are non-zero with opposite signs.
pub proof fn lemma_product_sign(u: int, v: int)
    ensures
        magnitude(u * v) == magnitude(u) * magnitude(v),
        u * v < 0 <==> ((u < 0 && v > 0) || (u > 0 && v < 0)),
{
    if u >= 0 && v >= 0 {
        assert(u * v >= 0) by (nonlinear_arith)
            requires
                u >= 0,
                v >= 0,
        ;
    } else if u < 0 && v < 0 {
        assert(u * v > 0 && u * v == (-u) * (-v)) by (nonlinear_arith)
            requires
                u < 0,
                v < 0,
        ;
    } else if u < 0 {
        assert(u * v <= 0 && (v > 0 ==> u * v < 0) && -(u * v) == (-u) * v) by (nonlinear_arith)
            requires
                u < 0,
                v >= 0,
        ;
    } else {
        assert(u * v <= 0 && (u > 0 ==> u * v < 0) && -(u * v) == u * (-v)) by (nonlinear_arith)
            requires
                u >= 0,
                v < 0,
        ;
    }
}

/// Between the rows of its two anchors, the interpolated column lies between
/// their columns.
pub proof fn lemma_lerp_x_between(a: Point, b: Point, y: int)
    requires
        a.y != b.y,
        (a.y <= y <= b.y) || (b.y <= y <= a.y),
    ensures
        (a.x <= lerp_x_of(a, b, y) <= b.x) || (b.x <= lerp_x_of(a, b, y) <= a.x),
{
    let n = y - b.y;
    let f = a.x - b.x;
    let d = a.y - b.y;
    lemma_product_sign(n, f);
    let nn = magnitude(n) as int;
    let ff = magnitude(f) as int;
    let dd = magnitude(d) as int;
    lemma_mul_inequality(nn, dd, ff);
    lemma_div_is_ordered(nn * ff, dd * ff, dd);
    assert(dd * ff == ff * dd) by (nonlinear_arith);
    lemma_div_by_multiple(ff, dd);
    lemma_product_bound(nn, ff, nn + ff);
    lemma_div_pos_is_pos(nn * ff, dd);
    assert(0 <= trunc_div(n * f, d) <= f || f <= trunc_div(n * f, d) <= 0);
}

/// Computes `slope_step` exactly, without overflow.
fn step_along(base: usize, n1: usize, n0: usize, f1: usize, f0: usize, d1: usize, d0: usize) -> (r: usize)
    requires
        d1 != d0,
        0 <= slope_step(base as int, n1 as int, n0 as int, f1 as int, f0 as int, d1 as int, d0 as int)
            <= usize::MAX,
    ensures
        r == slope_step(base as int, n1 as int, n0 as int, f1 as int, f0 as int, d1 as int, d0 as int),
{
    let (n, n_neg) = if n1 >= n0 {
        (n1 - n0, false)
    } else {
        (n0 - n1, true)
    };
    let (f, f_neg) = if f1 >= f0 {
        (f1 - f0, false)
    } else {
        (f0 - f1, true)
    };
    let (d, d_neg) = if d1 >= d0 {
        (d1 - d0, false)
    } else {
        (d0 - d1, true)
    };
    proof {
        lemma_product_bound(n as int, f as int, usize::MAX as int);
        assert(usize::MAX as int * usize::MAX as int <= u128::MAX) by (nonlinear_arith)
            requires
                usize::MAX <= u64::MAX,
        ;
        lemma_product_sign(n1 - n0, f1 - f0);
    }
    let prod: u128 = n as u128 * f as u128;
    let q: u128 = prod / d as u128;
    proof {
        lemma_product_bound(n as int, f as int, usize::MAX as int);
        assert(q <= prod) by (nonlinear_arith)
            requires
                q as int == prod as int / (d as int),
                d >= 1,
                prod >= 0,
        ;
        assert(n == 0 || f == 0 ==> n * f == 0) by (nonlinear_arith);
    }
    if (n_neg != f_neg) != d_neg && q > 0 {
        (base as u128 - q) as usize
    } else {
        (base as u128 + q) as usize
    }
}

impl Point {
    pub fn new(x: usize, y: usize) -> (r: Self)
        ensures
            r.x == x,
            r.y == y,
    {
        Point { x, y }
    }

    pub fn x(&self) -> (r: usize)
        ensures
            r == self.x,
    {
        self.x
    }

    pub fn y(&self) -> (r: usize)
        ensures
            r == self.y,
    {
        self.y
    }

    /// Orders the two points by row, ties broken by column.
    pub fn sort(self, p: Self) -> (r: (Point, Point))
        ensures
            r == sort_spec(self, p),
            ordered(r.0, r.1),
    {
        if self.y < p.y {
            (self, p)
        } else if self.y > p.y {
            (p, self)
        } else if self.x < p.x {
            (self, p)
        } else {
            (p, self)
        }
    }

    /// Row at column `x` of the line through `self` and `p`, truncated
    /// toward zero relative to `p`; `None` for a vertical pair.
    pub fn lerp_y(&self, p: &Self, x: usize) -> (r: Option<usize>)
        requires
            self.x != p.x ==> 0 <= lerp_y_of(*self, *p, x as int) <= usize::MAX,
        ensures
            self.x == p.x ==> r is None,
            self.x != p.x ==> r == Some(lerp_y_of(*self, *p, x as int) as usize),
    {
        if self.x == p.x {
            None
        } else {
            Some(step_along(p.y, x, p.x, self.y, p.y, self.x, p.x))
        }
    }

    /// Column at row `y` of the line through `self` and `p`, truncated
    /// toward zero relative to `p`; `None` for a horizontal pair.
    pub fn lerp_x(&self, p: &Self, y: usize) -> (r: Option<usize>)
        requires
            self.y != p.y ==> 0 <= lerp_x_of(*self, *p, y as int) <= usize::MAX,
        ensures
            self.y == p.y ==> r is None,
            self.y != p.y ==> r == Some(lerp_x_of(*self, *p, y as int) as usize),
    {
        if self.y == p.y {
            None
        } else {
            Some(step_along(p.x, y, p.y, self.x, p.x, self.y, p.y))
        }
    }
}

} // verus!
