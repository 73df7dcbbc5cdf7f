use mc_utils::convert::{to_col_group, Countable};
use mc_utils::util::point::floor_sqrt;
use mc_utils::util::{BlockPoint, ChunkPoint, FlatPoint, Point2D, Point3D, Repr2D};

#[test]
fn mod_test_space() {
    assert_eq!(vec![0, 0, 0, 0], 0.to_space());
    assert_eq!(vec![0, 0, 0, 63], 63.to_space());
    assert_eq!(vec![0, 0, 1, 0], 64.to_space());
    assert_eq!(vec![0, 0, 1, 36], 100.to_space());
    assert_eq!(vec![0, 0, 15, 40], 1000.to_space());
}

#[test]
fn mod_test_time() {
    assert_eq!(vec![0, 0, 0, 0, 0, 0], 0.to_time());
    assert_eq!(vec![0, 0, 0, 0, 0, 59], 59.to_time());
    assert_eq!(vec![0, 0, 0, 0, 1, 0], 60.to_time());
    assert_eq!(vec![0, 0, 0, 0, 2, 10], 130.to_time());
    assert_eq!(vec![0, 0, 0, 0, 16, 40], 1_000.to_time());
    assert_eq!(vec![0, 0, 11, 13, 46, 40], 1_000_000.to_time());
    assert_eq!(vec![32, 1, 24, 1, 46, 40], 1_000_000_000.to_time());
}

#[test]
fn full_units() {
    assert_eq!(vec![0, 1, 0, 0], 1_728.to_space());
    assert_eq!(vec![1, 0, 0, 0], 93_312.to_space());
    assert_eq!(vec![23014, 0, 19, 63], i32::MAX.to_space());
    assert_eq!(vec![69, 0, 15, 3, 14, 7], i32::MAX.to_time());
}

#[test]
fn negative_amounts_round_toward_zero() {
    assert_eq!(vec![0, 0, -1, -36], (-100).to_space());
    assert_eq!(vec![0, 0, 0, 0, -2, -10], (-130).to_time());
    assert_eq!(vec![-23014, 0, -20, 0], i32::MIN.to_space());
}

#[test]
fn grouping_by_given_steps() {
    assert_eq!(to_col_group(vec![], 17), vec![17]);
    assert_eq!(to_col_group(vec![10], 17), vec![1, 7]);
    assert_eq!(to_col_group(vec![60, 60, 24], 100_000), vec![1, 3, 46, 40]);
    assert_eq!(to_col_group(vec![1, 1], 5), vec![5, 0, 0]);
    assert_eq!(to_col_group(vec![60, 60, 24, 365], 1_000_000_000), vec![31, 259, 1, 46, 40]);
}

#[test]
fn grouped_amount_adds_up() {
    for n in [0, 1, 63, 64, 1727, 1728, 93_311, 93_312, 5_000_000, i32::MAX] {
        let g = n.to_space();
        let total = ((g[0] as i64 * 54 + g[1] as i64) * 27 + g[2] as i64) * 64 + g[3] as i64;
        assert_eq!(total, n as i64);
        assert!(g[1] < 54 && g[2] < 27 && g[3] < 64);
    }
}

#[test]
fn chunk_of_a_block() {
    assert_eq!(ChunkPoint::from(Point3D { x: 0, y: 70, z: 15 }), ChunkPoint { x: 0, z: 0 });
    assert_eq!(ChunkPoint::from(Point3D { x: 16, y: 70, z: 31 }), ChunkPoint { x: 1, z: 1 });
    assert_eq!(ChunkPoint::from(Point3D { x: 100, y: -3, z: 1600 }), ChunkPoint { x: 6, z: 100 });
    // toward zero
    assert_eq!(ChunkPoint::from(Point3D { x: -1, y: 0, z: -15 }), ChunkPoint { x: 0, z: 0 });
    assert_eq!(ChunkPoint::from(Point3D { x: -16, y: 0, z: -17 }), ChunkPoint { x: -1, z: -1 });
    assert_eq!(
        ChunkPoint::from(Point3D { x: i32::MIN, y: 0, z: i32::MAX }),
        ChunkPoint { x: -134217728, z: 134217727 }
    );
}

#[test]
fn block_of_a_chunk() {
    assert_eq!(BlockPoint::from(ChunkPoint { x: 0, z: 0 }), Point3D { x: 0, y: 0, z: 0 });
    assert_eq!(BlockPoint::from(ChunkPoint { x: 3, z: -4 }), Point3D { x: 48, y: 0, z: -64 });
    assert_eq!(
        BlockPoint::from(ChunkPoint { x: 3_750_000, z: -3_750_000 }),
        Point3D { x: 60_000_000, y: 0, z: -60_000_000 }
    );
    let c = ChunkPoint { x: -1234, z: 987 };
    assert_eq!(ChunkPoint::from(BlockPoint::from(c)), c);
    // beyond 32 bits the product wraps around
    assert_eq!(BlockPoint::from(ChunkPoint { x: 1 << 28, z: 0 }).x, 0);
}

#[test]
fn distances_round_down() {
    let o = ChunkPoint { x: 0, z: 0 };
    assert_eq!(o.dist(&o), 0);
    assert_eq!(o.dist(&ChunkPoint { x: 3, z: 4 }), 5);
    assert_eq!(o.dist(&ChunkPoint { x: -3, z: -4 }), 5);
    assert_eq!(o.dist(&ChunkPoint { x: 1, z: 1 }), 1);
    assert_eq!(ChunkPoint { x: -10, z: 7 }.dist(&ChunkPoint { x: 20, z: -33 }), 50);
    assert_eq!(o.dist(&ChunkPoint { x: 46340, z: 0 }), 46340);
    assert_eq!(o.dist(&ChunkPoint { x: 32767, z: 32767 }), 46339);

    let b = Point3D { x: 1, y: 2, z: 3 };
    assert_eq!(b.dist(&Point3D { x: 1, y: 2, z: 3 }), 0);
    assert_eq!(b.dist(&Point3D { x: 2, y: 4, z: 5 }), 3);
    assert_eq!(b.dist(&Point3D { x: 0, y: 0, z: 0 }), 3);
    assert_eq!(b.dist(&Point3D { x: 1, y: 2, z: 103 }), 100);
}

#[test]
fn square_roots_round_down() {
    for n in 0..10_000u32 {
        let r = floor_sqrt(n);
        assert!(r * r <= n && n < (r + 1) * (r + 1));
        assert_eq!(r, (n as f64).sqrt() as u32);
    }
    assert_eq!(floor_sqrt(u32::MAX), 65535);
    assert_eq!(floor_sqrt(i32::MAX as u32), 46340);
    assert_eq!(floor_sqrt(65535 * 65535), 65535);
    assert_eq!(floor_sqrt(65535 * 65535 - 1), 65534);
}

#[test]
fn planes() {
    let p = Point2D(1, 2);
    assert_eq!(p.to_3d(9, Repr2D::XY), Point3D { x: 1, y: 2, z: 9 });
    assert_eq!(p.to_3d(9, Repr2D::YX), Point3D { x: 2, y: 1, z: 9 });
    assert_eq!(p.to_3d(9, Repr2D::XZ), Point3D { x: 1, y: 9, z: 2 });
    assert_eq!(p.to_3d(9, Repr2D::ZX), Point3D { x: 2, y: 9, z: 1 });
    assert_eq!(p.to_3d(9, Repr2D::YZ), Point3D { x: 9, y: 1, z: 2 });
    assert_eq!(p.to_3d(9, Repr2D::ZY), Point3D { x: 9, y: 2, z: 1 });
}

#[test]
fn flat_points() {
    let p = FlatPoint { x: 37, z: -37 };
    assert_eq!(p.to_3d(64), Point3D { x: 37, y: 64, z: -37 });
    assert_eq!(p.as_chunk(), FlatPoint { x: 32, z: -32 });
    assert_eq!(FlatPoint { x: -1, z: 15 }.as_chunk(), FlatPoint { x: 0, z: 0 });
    assert_eq!(FlatPoint { x: -16, z: 16 }.as_chunk(), FlatPoint { x: -16, z: 16 });
    assert_eq!(p.as_coord(), FlatPoint { x: 592, z: -592 });
    assert_eq!(p.minus(FlatPoint { x: 7, z: 3 }), FlatPoint { x: 30, z: -40 });
    assert_eq!(p.dist(FlatPoint { x: 7, z: 3 }), 50);
    assert_eq!(p.to_str(), "(37, -37)");
}

#[test]
fn points_in_space() {
    let p = Point3D { x: 100, y: 70, z: -100 };
    assert_eq!(p.to_2d(), FlatPoint { x: 100, z: -100 });
    assert_eq!(p.as_chunk(), Point3D { x: 96, y: 70, z: -96 });
    assert_eq!(p.as_coord(), Point3D { x: 1600, y: 70, z: -1600 });
    assert_eq!(p.to_str(), "(100, -100)");
}
