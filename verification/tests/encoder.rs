use mvt::GeomEncoder;
use mvt::GeomType;

// Examples from the vector-tile encoding specification:
#[test]
fn test_point() {
    let v = GeomEncoder::new(GeomType::Point)
        .point(25, 17)
        .unwrap()
        .encode()
        .unwrap()
        .into_vec();
    assert_eq!(v, vec!(9, 50, 34));
}

#[test]
fn test_multipoint() {
    let v = GeomEncoder::new(GeomType::Point)
        .point(5, 7)
        .unwrap()
        .point(3, 2)
        .unwrap()
        .encode()
        .unwrap()
        .into_vec();
    assert_eq!(v, vec!(17, 10, 14, 3, 9));
}

#[test]
fn test_linestring() {
    let v = GeomEncoder::new(GeomType::Linestring)
        .point(2, 2)
        .unwrap()
        .point(2, 10)
        .unwrap()
        .point(10, 10)
        .unwrap()
        .encode()
        .unwrap()
        .into_vec();
    assert_eq!(v, vec!(9, 4, 4, 18, 0, 16, 16, 0));
}

#[test]
fn test_multilinestring() {
    let v = GeomEncoder::new(GeomType::Linestring)
        .point(2, 2)
        .unwrap()
        .point(2, 10)
        .unwrap()
        .point(10, 10)
        .unwrap()
        .complete()
        .unwrap()
        .point(1, 1)
        .unwrap()
        .point(3, 5)
        .unwrap()
        .encode()
        .unwrap()
        .into_vec();
    assert_eq!(v, vec!(9, 4, 4, 18, 0, 16, 16, 0, 9, 17, 17, 10, 4, 8));
}

#[test]
fn test_multilinestring_with_redundant_points() {
    let v = GeomEncoder::new(GeomType::Linestring)
        .point(2, 2)
        .unwrap()
        .point(2, 2)
        .unwrap()
        .point(10, 10)
        .unwrap()
        .complete()
        .unwrap()
        .point(10, 10)
        .unwrap()
        .point(13, 15)
        .unwrap()
        .point(10, 10)
        .unwrap()
        .complete()
        .unwrap()
        .point(2, 2)
        .unwrap()
        .point(10, 10)
        .unwrap()
        .encode()
        .unwrap()
        .into_vec();
    assert_eq!(
        v,
        vec!(9, 4, 4, 10, 16, 16, 18, 6, 10, 5, 9, 9, 15, 15, 10, 16, 16)
    );
}

#[test]
fn test_polygon() {
    let v = GeomEncoder::new(GeomType::Polygon)
        .point(3, 6)
        .unwrap()
        .point(8, 12)
        .unwrap()
        .point(20, 34)
        .unwrap()
        .encode()
        .unwrap()
        .into_vec();
    assert_eq!(v, vec!(9, 6, 12, 18, 10, 12, 24, 44, 15));
}

#[test]
fn test_multipolygon() {
    let v = GeomEncoder::new(GeomType::Polygon)
        // positive area => exterior ring
        .point(0, 0)
        .unwrap()
        .point(10, 0)
        .unwrap()
        .point(10, 10)
        .unwrap()
        .point(0, 10)
        .unwrap()
        .complete()
        .unwrap()
        // positive area => exterior ring
        .point(11, 11)
        .unwrap()
        .point(20, 11)
        .unwrap()
        .point(20, 20)
        .unwrap()
        .point(11, 20)
        .unwrap()
        .complete()
        .unwrap()
        // negative area => interior ring
        .point(13, 13)
        .unwrap()
        .point(13, 17)
        .unwrap()
        .point(17, 17)
        .unwrap()
        .point(17, 13)
        .unwrap()
        .encode()
        .unwrap()
        .into_vec();
    assert_eq!(
        v,
        vec!(
            9, 0, 0, 26, 20, 0, 0, 20, 19, 0, 15, 9, 22, 2, 26, 18, 0, 0, 18, 17, 0, 15, 9, 4, 13,
            26, 0, 8, 8, 0, 0, 7, 15
        )
    );
}

// Scenarios beyond the specification examples:
#[test]
fn test_add_point_complete_geom() {
    let mut e = GeomEncoder::new(GeomType::Linestring);
    e.add_point(2, 2).unwrap();
    e.add_point(2, 10).unwrap();
    assert_eq!(e.point_count(), 2);
    e.complete_geom().unwrap();
    assert_eq!(e.point_count(), 0);
    let v = e.encode().unwrap().into_vec();
    assert_eq!(v, vec!(9, 4, 4, 10, 0, 16));
}

#[test]
fn test_clamp_to_bounds() {
    let mut e = GeomEncoder::new(GeomType::Point);
    e.adjust_minmax(0, 0, 100, 100);
    // (250, -17) lies outside the bounds: clamped to (100, 0)
    e.add_point(250, -17).unwrap();
    let v = e.encode().unwrap().into_vec();
    assert_eq!(v, vec!(9, 200, 0));
}

#[test]
fn test_clamp_flipped_corners() {
    // corners given in flipped order derive the same bounds
    let mut e = GeomEncoder::new(GeomType::Point);
    e.adjust_minmax(100, 100, 0, 0);
    e.add_point(250, -17).unwrap();
    let v = e.encode().unwrap().into_vec();
    assert_eq!(v, vec!(9, 200, 0));
}

#[test]
fn test_polygon_collinear_middle_removed() {
    // (5,4) is the middle of the straight monotone run (5,1)..(5,9)
    let v = GeomEncoder::new(GeomType::Polygon)
        .point(5, 1)
        .unwrap()
        .point(5, 4)
        .unwrap()
        .point(5, 9)
        .unwrap()
        .encode()
        .unwrap()
        .into_vec();
    assert_eq!(v, vec!(9, 10, 2, 10, 0, 16, 15));
}

#[test]
fn test_polygon_reversing_run_kept() {
    // (3,0) reverses direction along the shared axis: no point is removed
    let v = GeomEncoder::new(GeomType::Polygon)
        .point(0, 0)
        .unwrap()
        .point(5, 0)
        .unwrap()
        .point(3, 0)
        .unwrap()
        .encode()
        .unwrap()
        .into_vec();
    assert_eq!(v, vec!(9, 0, 0, 18, 10, 0, 3, 0, 15));
}

#[test]
fn test_empty_geometries() {
    let g = GeomEncoder::new(GeomType::Point).encode().unwrap();
    assert!(g.is_empty());
    assert_eq!(g.len(), 0);
    let g = GeomEncoder::new(GeomType::Linestring).encode().unwrap();
    assert!(g.is_empty());
    let g = GeomEncoder::new(GeomType::Polygon).encode().unwrap();
    assert!(g.is_empty());
}

#[test]
fn test_geom_data_accessors() {
    let g = GeomEncoder::new(GeomType::Linestring)
        .point(1, 1)
        .unwrap()
        .point(2, 2)
        .unwrap()
        .encode()
        .unwrap();
    assert_eq!(g.geom_type(), GeomType::Linestring);
    assert!(!g.is_empty());
    assert_eq!(g.len(), 6);
    assert_eq!(g.into_vec(), vec!(9, 2, 2, 10, 2, 2));
}

#[test]
fn test_point_duplicate_dropped() {
    let v = GeomEncoder::new(GeomType::Point)
        .point(5, 5)
        .unwrap()
        .point(5, 5)
        .unwrap()
        .encode()
        .unwrap()
        .into_vec();
    assert_eq!(v, vec!(9, 10, 10));
}

#[test]
fn test_linestring_single_point_parts() {
    // a part of one point contributes a bare move command
    let v = GeomEncoder::new(GeomType::Linestring)
        .point(4, 4)
        .unwrap()
        .complete()
        .unwrap()
        .point(6, 6)
        .unwrap()
        .encode()
        .unwrap()
        .into_vec();
    assert_eq!(v, vec!(9, 8, 8, 9, 4, 4));
}

#[test]
fn test_polygon_single_point_part() {
    // a degenerate ring of one point gains no close-path word
    let v = GeomEncoder::new(GeomType::Polygon)
        .point(1, 2)
        .unwrap()
        .encode()
        .unwrap()
        .into_vec();
    assert_eq!(v, vec!(9, 2, 4));
}

#[test]
fn test_saturating_delta() {
    // deltas between extreme clamp values saturate instead of overflowing
    let v = GeomEncoder::new(GeomType::Linestring)
        .point(i32::MIN, 0)
        .unwrap()
        .point(i32::MAX, 0)
        .unwrap()
        .encode()
        .unwrap()
        .into_vec();
    // second delta-x saturates to i32::MAX, zigzag(i32::MAX) = u32::MAX - 1
    assert_eq!(v[4], u32::MAX - 1);
}
