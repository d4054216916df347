use vstd::prelude::*;

use crate::dims::Dims;
use crate::point::{ordered, sort_spec, Point};

verus! {

/// The drawable shapes.
#[derive(Debug, Clone, Copy, PartialEq, Eq, Structural)]
pub enum Figures {
    Triangle(Point, Point, Point),
    Rectangle(Point, Dims),
    Circle(Point, usize),
    Line(Point, Point),
}

/// Three points ordered by three pairwise sorts: the first pair, then the
/// larger of it with the third point, then the first pair again.
pub open spec fn sort3_spec(a: Point, b: Point, c: Point) -> (Point, Point, Point) {
    let (a1, b1) = sort_spec(a, b);
    let (b2, c2) = sort_spec(b1, c);
    let (a3, b3) = sort_spec(a1, b2);
    (a3, b3, c2)
}

/// The figure with the points of a line or a triangle put in order.
pub open spec fn canonical(f: Figures) -> Figures {
    match f {
        Figures::Line(a, b) => Figures::Line(sort_spec(a, b).0, sort_spec(a, b).1),
        Figures::Triangle(a, b, c) => {
            let s = sort3_spec(a, b, c);
            Figures::Triangle(s.0, s.1, s.2)
        },
        _ => f,
    }
}

impl Figures {
    /// The points of a line or a triangle are in `ordered` order.
    pub open spec fn wf(self) -> bool {
        match self {
            Figures::Line(a, b) => ordered(a, b),
            Figures::Triangle(a, b, c) => ordered(a, b) && ordered(b, c),
            _ => true,
        }
    }

    pub fn new_rectangle(x: usize, y: usize, width: usize, height: usize) -> (r: Self)
        ensures
            r == Figures::Rectangle(Point { x, y }, Dims { width, height }),
            r.wf(),
    {
        Self::Rectangle(Point::new(x, y), Dims::new(width, height)).sort_points()
    }

    pub fn new_circle(x: usize, y: usize, r: usize) -> (f: Self)
        ensures
            f == Figures::Circle(Point { x, y }, r),
            f.wf(),
    {
        Self::Circle(Point::new(x, y), r).sort_points()
    }

    pub fn new_line(x1: usize, y1: usize, x2: usize, y2: usize) -> (r: Self)
        ensures
            r == canonical(Figures::Line(Point { x: x1, y: y1 }, Point { x: x2, y: y2 })),
            r.wf(),
    {
        Self::Line(Point::new(x1, y1), Point::new(x2, y2)).sort_points()
    }

    pub fn new_triangle(x1: usize, y1: usize, x2: usize, y2: usize, x3: usize, y3: usize) -> (r: Self)
        ensures
            r == canonical(
                Figures::Triangle(Point { x: x1, y: y1 }, Point { x: x2, y: y2 }, Point { x: x3, y: y3 }),
            ),
            r.wf(),
    {
        Self::Triangle(Point::new(x1, y1), Point::new(x2, y2), Point::new(x3, y3)).sort_points()
    }

    pub(crate) fn sort_points(self) -> (r: Self)
        ensures
            r == canonical(self),
            r.wf(),
    {
        match self {
            Self::Line(p1, p2) => {
                let (p1, p2) = p1.sort(p2);
                Self::Line(p1, p2)
            },
            Self::Circle(_, _) => self,
            Self::Rectangle(_, _) => self,
            Self::Triangle(p1, p2, p3) => {
                let (p1, p2) = p1.sort(p2);
                let (p2, p3) = p2.sort(p3);
                let (p1, p2) = p1.sort(p2);
                Self::Triangle(p1, p2, p3)
            },
        }
    }
}

} // verus!
