use tilemap::{half, isqrt, Line, Point, Polygon, Polyline, Rectangle};

#[test]
fn point_test_eq() {
    let p1 = Point::new(1, 2);
    let p2 = Point::new(233, 666);
    assert_eq!(p1, p1);
    assert_eq!(p2, p2);
    assert_ne!(p1, p2);
}

#[test]
fn test_add() {
    let p1 = Point::new(3, 6);
    let p2 = Point::new(-2, 4);
    let p = p1.add(&p2);
    assert_eq!(1, p.x);
    assert_eq!(10, p.y);
}

#[test]
fn test_sub() {
    let p1 = Point::new(3, 6);
    let p2 = Point::new(-2, 4);
    let p = p1.sub(&p2);
    assert_eq!(5, p.x);
    assert_eq!(2, p.y);
}

#[test]
fn test_mul() {
    let p1 = Point::new(3, 6);
    let p2 = Point::new(-2, 4);
    let p = p1.mul(&p2);
    assert_eq!(-6, p.x);
    assert_eq!(24, p.y);
}

#[test]
fn test_div() {
    let p1 = Point::new(3, 6);
    let p2 = Point::new(-2, 4);
    let p = p1.div(&p2);
    assert_eq!(-1, p.x);
    assert_eq!(1, p.y);
}

#[test]
fn test_valid() {
    let p = Point::new(3, 6);
    assert_eq!(true, p.is_valid());

    let p = Point::uninitialized();
    assert_eq!(false, p.is_valid());

    let q = Point::new(3, 6).add(&Point::uninitialized());
    assert_eq!(false, q.is_valid());

    let q = Point::uninitialized().sub(&Point::new(3, 6));
    assert_eq!(false, q.is_valid());
}

#[test]
fn test_to_tuple() {
    let p = Point::new(1, 2);
    assert_eq!((1, 2), p.to_tuple());

    let p = Point::new(233, 666);
    assert_eq!((233, 666), p.to_tuple());
}

#[test]
fn test_dot() {
    let p1 = Point::new(3, 6);
    let p2 = Point::new(-2, 4);
    assert_eq!(18, p1.dot(&p2))
}

#[test]
fn test_cross() {
    let p1 = Point::new(3, 6);
    let p2 = Point::new(-2, 4);
    assert_eq!(24, p1.cross(&p2))
}

#[test]
fn test_distance() {
    let p1 = Point::new(1, -1);
    let p2 = Point::new(-2, 3);
    assert_eq!(5, p1.distance(&p2))
}

#[test]
fn line_test_eq() {
    let l1 = Line::new(&Point::new(1, 2), &Point::new(3, 4));
    let l2 = Line::new(&Point::new(2, 3), &Point::new(4, 5));
    assert_eq!(l1, l1);
    assert_eq!(l2, l2);
    assert_ne!(l1, l2);
}

#[test]
fn test_length() {
    let l = Line::new(&Point::new(1, 2), &Point::new(4, 6));
    assert_eq!(5, l.length());
}

#[test]
fn line_test_is_intersect() {
    let l1 = Line::new(&Point::new(1, 2), &Point::new(3, 4));
    let l2 = Line::new(&Point::new(1, 3), &Point::new(3, 5));
    let l3 = Line::new(&Point::new(1, 3), &Point::new(3, 2));
    assert_eq!(false, l1.is_intersect(&l2));
    assert_eq!(true, l1.is_intersect(&l3));
    assert_eq!(true, l2.is_intersect(&l3));
}

#[test]
fn test_is_intersect_endpoints() {
    // crossing segments intersect
    let l1 = Line::new(&Point::new(0, 0), &Point::new(4, 4));
    let l2 = Line::new(&Point::new(0, 4), &Point::new(4, 0));
    assert_eq!(true, l1.is_intersect(&l2));

    // a segment intersects itself
    assert_eq!(true, l1.is_intersect(&l1));

    // segments sharing an endpoint intersect
    let l3 = Line::new(&Point::new(4, 4), &Point::new(9, 2));
    assert_eq!(true, l1.is_intersect(&l3));
    assert_eq!(true, l3.is_intersect(&l1));

    // separated segments do not
    let l4 = Line::new(&Point::new(10, 10), &Point::new(12, 10));
    assert_eq!(false, l1.is_intersect(&l4));

    // a segment with an invalid endpoint intersects nothing
    let l5 = Line::uninitialized();
    assert_eq!(false, l5.is_intersect(&l1));
    assert_eq!(false, l1.is_intersect(&l5));
}

#[test]
fn test_is_parallel() {
    let l1 = Line::new(&Point::new(0, 0), &Point::new(1, 1));
    let l2 = Line::new(&Point::new(1, 3), &Point::new(2, 4));
    let l3 = Line::new(&Point::new(1, 3), &Point::new(3, 2));
    assert_eq!(true, l1.is_parallel(&l2));
    assert_eq!(false, l1.is_parallel(&l3));
    assert_eq!(false, l2.is_parallel(&l3));
}

#[test]
fn test_is_orthogonal() {
    let l1 = Line::new(&Point::new(0, 0), &Point::new(0, 1));
    let l2 = Line::new(&Point::new(0, 0), &Point::new(1, 0));
    let l3 = Line::new(&Point::new(0, 0), &Point::new(1, 1));
    assert_eq!(true, l1.is_orthogonal(&l2));
    assert_eq!(false, l1.is_orthogonal(&l3));
    assert_eq!(false, l2.is_orthogonal(&l3));
}

#[test]
fn test_polyline() {
    let mut polyline = Polyline::new();
    polyline.append(&Point::new(0, 0));
    polyline.append(&Point::new(1, 0));
    assert_eq!(polyline.points_count(), 2);
    polyline.append(&Point::new(1, 1));
    polyline.append(&Point::new(0, 1));
    assert_eq!(polyline.points_count(), 4);

    assert_eq!(polyline.point(0), &Point::new(0, 0));
    assert_eq!(polyline.point(1), &Point::new(1, 0));
    assert_eq!(polyline.point(2), &Point::new(1, 1));
    assert_eq!(polyline.point(3), &Point::new(0, 1));

    assert_eq!(polyline.points()[0], Point::new(0, 0));
    assert_eq!(polyline.points()[1], Point::new(1, 0));
    assert_eq!(polyline.points()[2], Point::new(1, 1));
    assert_eq!(polyline.points()[3], Point::new(0, 1));

    assert_eq!(polyline.center(), polyline.point(2));
    polyline.append(&Point::new(0, 1));
    assert_eq!(polyline.center(), polyline.point(3));
}

#[test]
fn test_polygon() {
    let mut polygon = Polygon::new();
    polygon.append(&Point::new(0, 0));
    polygon.append(&Point::new(1, 0));
    assert_eq!(polygon.points_count(), 2);
    polygon.append(&Point::new(1, 1));
    polygon.append(&Point::new(0, 1));
    assert_eq!(polygon.points_count(), 4);

    assert_eq!(polygon.point(0), &Point::new(0, 0));
    assert_eq!(polygon.point(1), &Point::new(1, 0));
    assert_eq!(polygon.point(2), &Point::new(1, 1));
    assert_eq!(polygon.point(3), &Point::new(0, 1));

    assert_eq!(polygon.points()[0], Point::new(0, 0));
    assert_eq!(polygon.points()[1], Point::new(1, 0));
    assert_eq!(polygon.points()[2], Point::new(1, 1));
    assert_eq!(polygon.points()[3], Point::new(0, 1));
}

#[test]
fn test_rectangle() {
    let rect = Rectangle::uninitialized();
    assert_eq!(rect.min.is_valid(), false);
    assert_eq!(rect.max.is_valid(), false);

    let rect = Rectangle::new(&Point::new(0, 0), &Point::new(1, 1));
    assert_eq!(rect.min.is_valid(), true);
    assert_eq!(rect.max.is_valid(), true);
}

#[test]
fn rectangle_test_is_intersect() {
    let rect1 = Rectangle::uninitialized();
    let rect2 = Rectangle::new(&Point::new(0, 0), &Point::new(1000, 1000));
    assert_eq!(rect1.is_intersect(&rect2), false);

    let rect1 = Rectangle::new(&Point::new(500, 500), &Point::new(1500, 1500));
    assert_eq!(rect1.is_intersect(&rect2), true);

    let rect1 = Rectangle::new(&Point::new(1000, 1000), &Point::new(2000, 2000));
    assert_eq!(rect1.is_intersect(&rect2), true);

    let rect1 = Rectangle::new(&Point::new(1500, 1500), &Point::new(2500, 2500));
    assert_eq!(rect1.is_intersect(&rect2), false);
}

#[test]
fn test_is_intersect_symmetry() {
    let a = Rectangle::new(&Point::new(-5, -5), &Point::new(7, 3));
    let b = Rectangle::new(&Point::new(2, 2), &Point::new(9, 9));
    let c = Rectangle::new(&Point::new(100, 100), &Point::new(200, 200));
    assert_eq!(a.is_intersect(&b), b.is_intersect(&a));
    assert_eq!(a.is_intersect(&c), c.is_intersect(&a));
    let s = Rectangle::uninitialized();
    assert_eq!(s.is_intersect(&a), false);
    assert_eq!(a.is_intersect(&s), false);
}

#[test]
fn test_area() {
    let rect = Rectangle::uninitialized();
    assert_eq!(rect.area().is_none(), true);

    let rect = Rectangle::new(&Point::new(-3, -2), &Point::new(11, 13));
    assert_eq!(rect.area().is_none(), false);
    assert_eq!(rect.area(), Some(210));
}

#[test]
fn test_isqrt() {
    assert_eq!(isqrt(0), 0);
    assert_eq!(isqrt(24), 4);
    assert_eq!(isqrt(25), 5);
    assert_eq!(isqrt(26), 5);
    assert_eq!(isqrt(u128::MAX), u64::MAX);
}

#[test]
fn test_half() {
    assert_eq!(half(7), 3);
    assert_eq!(half(-7), -3);
    assert_eq!(half(-8), -4);
    assert_eq!(half(i64::MIN), i64::MIN / 2);
}
