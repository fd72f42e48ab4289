use hexgrid::coord::HexCoord;
use hexgrid::coord::RelativeHexCoord;
use hexgrid::map::HexMapContext;

#[test]
fn axial_accessors_roundtrip() {
    let c = HexCoord::new_axial(7, 9);
    assert_eq!(c.q(), 7);
    assert_eq!(c.r(), 9);
    assert_eq!(c.to_axial_tuple(), (7, 9));
    let d = RelativeHexCoord::new_axial(-3, 5);
    assert_eq!(d.q(), -3);
    assert_eq!(d.r(), 5);
    assert_eq!(d.to_axial_tuple(), (-3, 5));
}

#[test]
fn cubic_sum_is_zero_absolute() {
    for &(q, r) in &[(0u8, 0u8), (1, 2), (255, 255), (128, 7), (200, 0)] {
        let c = HexCoord::new_axial(q, r);
        assert_eq!(c.x().wrapping_add(c.y()).wrapping_add(c.z()), 0);
        assert_eq!(c.to_cubic_tuple(), (c.x(), c.y(), c.z()));
    }
}

#[test]
fn cubic_sum_is_zero_relative() {
    for &(q, r) in &[(0i8, 0i8), (1, 2), (-128, -128), (127, 127), (-128, 127)] {
        let c = RelativeHexCoord::new_axial(q, r);
        assert_eq!(c.x().wrapping_add(c.y().wrapping_add(c.z())), 0);
        assert_eq!(c.to_cubic_tuple(), (c.x(), c.y(), c.z()));
    }
}

#[test]
fn arithmetic_wraps_componentwise() {
    let c = HexCoord::new_axial(255, 0);
    let one = RelativeHexCoord::new_axial(1, 1);
    assert_eq!(c.add(one), HexCoord::new_axial(0, 1));
    assert_eq!(HexCoord::new_axial(0, 0).sub_offset(one), HexCoord::new_axial(255, 255));
    let d = HexCoord::new_axial(0, 0).sub(HexCoord::new_axial(255, 255));
    assert_eq!(d, RelativeHexCoord::new_axial(1, 1));
    let a = RelativeHexCoord::new_axial(127, -128);
    assert_eq!(a.add(RelativeHexCoord::new_axial(1, -1)), RelativeHexCoord::new_axial(-128, 127));
    assert_eq!(a.sub(RelativeHexCoord::new_axial(-1, 1)), RelativeHexCoord::new_axial(-128, 127));
    assert_eq!(RelativeHexCoord::new_axial(-128, 3).neg(), RelativeHexCoord::new_axial(-128, -3));
    assert_eq!(RelativeHexCoord::new_axial(64, -2).scale(4), RelativeHexCoord::new_axial(0, -8));
    assert_eq!(RelativeHexCoord::new_axial(3, -2).scale(-3), RelativeHexCoord::new_axial(-9, 6));
}

#[test]
fn rotation_unit_directions() {
    let east = RelativeHexCoord::new_axial(1, 0);
    let cw_cycle = [
        (1i8, 0i8),
        (0, 1),
        (-1, 1),
        (-1, 0),
        (0, -1),
        (1, -1),
    ];
    let mut cur = east;
    for &(q, r) in &cw_cycle {
        assert_eq!(cur, RelativeHexCoord::new_axial(q, r));
        cur = cur.cw();
    }
    assert_eq!(cur, east);
    assert_eq!(east.ccw(), RelativeHexCoord::new_axial(1, -1));
}

#[test]
fn six_rotations_are_identity() {
    for &(q, r) in &[(0i8, 0i8), (5, -7), (-128, 127), (127, -128), (-1, -1)] {
        let c = RelativeHexCoord::new_axial(q, r);
        assert_eq!(c.cw().cw().cw().cw().cw().cw(), c);
        assert_eq!(c.ccw().ccw().ccw().ccw().ccw().ccw(), c);
    }
}

#[test]
fn three_rotations_negate() {
    for &(q, r) in &[(0i8, 0i8), (5, -7), (-128, 127), (2, 3)] {
        let c = RelativeHexCoord::new_axial(q, r);
        assert_eq!(c.cw().cw().cw(), c.neg());
        assert_eq!(c.cw().cw().cw(), c.ccw().ccw().ccw());
    }
}

#[test]
fn relative_distance_is_chebyshev() {
    let origin = RelativeHexCoord::new_axial(0, 0);
    assert_eq!(RelativeHexCoord::new_axial(3, -1).distance_to(origin), 3);
    assert_eq!(RelativeHexCoord::new_axial(0, 0).distance_to(origin), 0);
    assert_eq!(RelativeHexCoord::new_axial(-2, -2).distance_to(origin), 4);
    assert_eq!(RelativeHexCoord::new_axial(2, -1).distance_to(RelativeHexCoord::new_axial(-1, 1)), 3);
}

#[test]
fn distance_at_signed_extreme() {
    // cubic of (-128, 0) is (-128, -128 after wrap, 0): norm 128.
    let origin = RelativeHexCoord::new_axial(0, 0);
    assert_eq!(RelativeHexCoord::new_axial(-128, 0).distance_to(origin), 128);
    assert_eq!(RelativeHexCoord::new_axial(0, -128).distance_to(origin), 128);
}

#[test]
fn absolute_distance_wraps() {
    let ctx = HexMapContext { width: 255, height: 255, wrap_x: false };
    let a = HexCoord::new_axial(0, 0);
    let b = HexCoord::new_axial(255, 255);
    assert_eq!(a.distance_to(&b, &ctx), 2);
    assert_eq!(b.distance_to(&a, &ctx), 2);
    let c = HexCoord::new_axial(10, 10);
    let d = HexCoord::new_axial(13, 9);
    assert_eq!(c.distance_to(&d, &ctx), 3);
    assert_eq!(c.distance_to(&c, &ctx), 0);
}

#[test]
fn relative_position_carries_to_target() {
    let ctx = HexMapContext { width: 10, height: 10, wrap_x: false };
    let a = HexCoord::new_axial(2, 3);
    let b = HexCoord::new_axial(4, 4);
    let d = a.relative_position(b, &ctx);
    assert_eq!(d, RelativeHexCoord::new_axial(2, 1));
    assert_eq!(a.add(d), b);
    let e = b.relative_position(a, &ctx);
    assert_eq!(e, RelativeHexCoord::new_axial(-2, -1));
    assert_eq!(b.add(e), a);
}
