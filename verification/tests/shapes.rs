use mc_utils::shapes::{differences, round_sqrt, Circle, Orientation};
use mc_utils::util::Point3D;

/// The points of a circle by square roots in floating point.
fn by_floats(radius: u32) -> Vec<(i32, i32)> {
    let mut points: Vec<(i32, i32)> = Vec::new();
    let rad = radius as i32;

    let f = |x: i32| (radius.pow(2) as f64 - x.pow(2) as f64).sqrt().round() as i32;

    let mut prev: i32 = 0;
    for i in -rad..=rad {
        let j = f(i);

        let diff = if i < 0 { (f(i + 1) - j).abs() } else { (j - prev).abs() };

        points.extend((0..diff).map(|d| (i, j + d)));
        points.extend((0..(diff - 1)).map(|d| (i, -j - d)));

        prev = j;
    }
    points
}

#[test]
fn simple_circle() {
    let radius = 3;
    let origin = Point3D { x: 0, y: 0, z: 0 };
    let orientation = Orientation::ZX;

    Circle::new(radius, origin, orientation);
}

#[test]
fn circle_of_radius_3() {
    let c = Circle::new(3, Point3D { x: 10, y: 20, z: 30 }, Orientation::XY);
    let expected = [(-3, 0), (-3, 1), (-3, 0), (-2, 2), (2, 2), (3, 0), (3, 1), (3, 0)];
    let points: Vec<Point3D> =
        expected.iter().map(|&(x, y)| Point3D { x, y, z: 30 }).collect();
    assert_eq!(c.points, points);
    assert_eq!(c.radius, 3);
    assert_eq!(c.center, Point3D { x: 10, y: 20, z: 30 });
    assert!(c.orientation == Orientation::XY);
}

#[test]
fn circles_agree_with_floating_point() {
    for radius in 0..200 {
        let flat = by_floats(radius);
        let c = Circle::new(radius, Point3D { x: 1, y: 2, z: 3 }, Orientation::XY);
        let xy: Vec<Point3D> = flat.iter().map(|&(x, y)| Point3D { x, y, z: 3 }).collect();
        assert_eq!(c.points, xy);
        let c = Circle::new(radius, Point3D { x: 1, y: 2, z: 3 }, Orientation::YZ);
        let yz: Vec<Point3D> = flat.iter().map(|&(y, z)| Point3D { x: 1, y, z }).collect();
        assert_eq!(c.points, yz);
        let c = Circle::new(radius, Point3D { x: 1, y: 2, z: 3 }, Orientation::ZX);
        let zx: Vec<Point3D> = flat.iter().map(|&(z, x)| Point3D { x, y: 2, z }).collect();
        assert_eq!(c.points, zx);
    }
}

#[test]
fn circle_without_radius_has_no_point() {
    let c = Circle::new(0, Point3D { x: 0, y: 0, z: 0 }, Orientation::YZ);
    assert!(c.points.is_empty());
}

#[test]
fn square_roots_round_to_the_nearest() {
    for n in 0..20_000u32 {
        assert_eq!(round_sqrt(n), (n as f64).sqrt().round() as u32);
    }
    assert_eq!(round_sqrt(u32::MAX), 65536);
    assert_eq!(round_sqrt(6), 2);
    assert_eq!(round_sqrt(7), 3);
    assert_eq!(round_sqrt(46340 * 46340), 46340);
}

#[test]
fn simple_diff() {
    let items: Vec<i32> = (1..10).collect();
    let vals: Vec<_> = differences(&items);
    assert_eq!(vals, vec![1; 9])
}

#[test]
fn differences_start_from_zero() {
    assert_eq!(differences(&vec![]), vec![]);
    assert_eq!(differences(&vec![5]), vec![5]);
    assert_eq!(differences(&vec![5, 3, 3, 10, -10]), vec![5, -2, 0, 7, -20]);
    assert_eq!(differences(&vec![i32::MIN, -1, i32::MAX - 1]), vec![i32::MIN, i32::MAX, i32::MAX]);
}
