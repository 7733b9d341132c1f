//! Tests for two-dimensional points and their arithmetic.

use read_fonts::point::Point;

#[test]
fn map() {
    assert_eq!(
        Point::new(42.5, 20.1).map(|v: f64| v as i32),
        Point::new(42, 20)
    );
}

#[test]
fn add() {
    assert_eq!(Point::new(1, 2) + Point::new(3, 4), Point::new(4, 6));
    let mut point = Point::new(1, 2);
    point = point + Point::new(3, 4);
    assert_eq!(point, Point::new(4, 6));
}

#[test]
fn sub() {
    assert_eq!(Point::new(1, 2) - Point::new(3, 4), Point::new(-2, -2));
    let mut point = Point::new(1, 2);
    point = point - Point::new(3, 4);
    assert_eq!(point, Point::new(-2, -2));
}

#[test]
fn mul() {
    assert_eq!(Point::new(1, 2) * Point::new(3, 4), Point::new(3, 8));
    let mut point = Point::new(1, 2);
    point = point * Point::new(3, 4);
    assert_eq!(point, Point::new(3, 8));
    assert_eq!(Point::new(1, 2) * 8, Point::new(8, 16));
}

#[test]
fn div() {
    assert_eq!(Point::new(10, 16) / Point::new(2, 3), Point::new(5, 5));
    let mut point = Point::new(10, 16);
    point = point / Point::new(2, 3);
    assert_eq!(point, Point::new(5, 5));
    assert_eq!(Point::new(10, 16) / 2, Point::new(5, 8));
}

#[test]
fn neg() {
    assert_eq!(-Point::new(1, -2), Point::new(-1, 2));
}

#[test]
fn broadcast_fills_both_coordinates() {
    assert_eq!(Point::broadcast(7), Point::new(7, 7));
}
