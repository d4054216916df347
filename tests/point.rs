use imager::dims::Dims;
use imager::figure::Figures;
use imager::point::Point;

#[test]
fn getters_return_coordinates() {
    let p = Point::new(3, 7);
    assert_eq!(p.x(), 3);
    assert_eq!(p.y(), 7);
    let d = Dims::new(4, 9);
    assert_eq!(d.width(), 4);
    assert_eq!(d.height(), 9);
}

#[test]
fn sort_orders_by_row_first() {
    let (lo, hi) = Point::new(9, 1).sort(Point::new(0, 5));
    assert_eq!((lo.x(), lo.y()), (9, 1));
    assert_eq!((hi.x(), hi.y()), (0, 5));
    let (lo, hi) = Point::new(0, 5).sort(Point::new(9, 1));
    assert_eq!((lo.x(), lo.y()), (9, 1));
    assert_eq!((hi.x(), hi.y()), (0, 5));
}

#[test]
fn sort_breaks_row_ties_by_column() {
    let (lo, hi) = Point::new(6, 2).sort(Point::new(3, 2));
    assert_eq!((lo.x(), hi.x()), (3, 6));
    let (lo, hi) = Point::new(3, 2).sort(Point::new(6, 2));
    assert_eq!((lo.x(), hi.x()), (3, 6));
}

#[test]
fn sort_equal_points() {
    let (lo, hi) = Point::new(4, 4).sort(Point::new(4, 4));
    assert_eq!(lo, Point::new(4, 4));
    assert_eq!(hi, Point::new(4, 4));
}

#[test]
fn sort_is_idempotent() {
    let pairs = [((9, 1), (0, 5)), ((0, 5), (9, 1)), ((6, 2), (3, 2)), ((1, 1), (1, 1))];
    for ((ax, ay), (bx, by)) in pairs {
        let first = Point::new(ax, ay).sort(Point::new(bx, by));
        let second = first.0.sort(first.1);
        assert_eq!(first, second);
    }
}

#[test]
fn lerp_x_interpolates_and_truncates_toward_zero() {
    let a = Point::new(0, 0);
    let b = Point::new(2, 4);
    assert_eq!(a.lerp_x(&b, 0), Some(0));
    assert_eq!(a.lerp_x(&b, 1), Some(1));
    assert_eq!(a.lerp_x(&b, 2), Some(1));
    assert_eq!(a.lerp_x(&b, 3), Some(2));
    assert_eq!(a.lerp_x(&b, 4), Some(2));
    // measured from the second point: 2 + trunc(-3 * -2 / -4) = 2 - 1
    let c = Point::new(4, 0);
    assert_eq!(c.lerp_x(&b, 1), Some(3));
    assert_eq!(c.lerp_x(&b, 3), Some(2));
}

#[test]
fn lerp_x_vertical_segment_keeps_column() {
    let a = Point::new(5, 1);
    let b = Point::new(5, 9);
    assert_eq!(a.lerp_x(&b, 4), Some(5));
}

#[test]
fn lerp_x_horizontal_is_none() {
    let a = Point::new(1, 3);
    let b = Point::new(8, 3);
    assert_eq!(a.lerp_x(&b, 3), None);
}

#[test]
fn lerp_y_interpolates() {
    let a = Point::new(0, 0);
    let b = Point::new(4, 2);
    assert_eq!(a.lerp_y(&b, 0), Some(0));
    assert_eq!(a.lerp_y(&b, 1), Some(1));
    assert_eq!(a.lerp_y(&b, 2), Some(1));
    assert_eq!(a.lerp_y(&b, 3), Some(2));
    assert_eq!(a.lerp_y(&b, 4), Some(2));
    let c = Point::new(10, 20);
    let d = Point::new(20, 10);
    assert_eq!(c.lerp_y(&d, 15), Some(15));
}

#[test]
fn lerp_y_vertical_is_none() {
    let a = Point::new(2, 0);
    let b = Point::new(2, 7);
    assert_eq!(a.lerp_y(&b, 2), None);
}

#[test]
fn new_line_orders_points() {
    let f = Figures::new_line(4, 4, 0, 0);
    assert_eq!(f, Figures::Line(Point::new(0, 0), Point::new(4, 4)));
    let f = Figures::new_line(7, 3, 2, 3);
    assert_eq!(f, Figures::Line(Point::new(2, 3), Point::new(7, 3)));
}

#[test]
fn new_triangle_orders_points() {
    let f = Figures::new_triangle(2, 4, 4, 0, 0, 0);
    assert_eq!(f, Figures::Triangle(Point::new(0, 0), Point::new(4, 0), Point::new(2, 4)));
    let f = Figures::new_triangle(0, 9, 5, 5, 1, 1);
    assert_eq!(f, Figures::Triangle(Point::new(1, 1), Point::new(5, 5), Point::new(0, 9)));
}

#[test]
fn new_rectangle_and_circle_keep_input() {
    let f = Figures::new_rectangle(9, 8, 1, 2);
    assert_eq!(f, Figures::Rectangle(Point::new(9, 8), Dims::new(1, 2)));
    let f = Figures::new_circle(3, 4, 0);
    assert_eq!(f, Figures::Circle(Point::new(3, 4), 0));
}
