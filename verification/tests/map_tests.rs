use hexgrid::coord::HexCoord;
use hexgrid::coord::RelativeHexCoord;
use hexgrid::map::HexMapContext;

#[test]
fn wrap_repairs_out_of_range_q() {
    // width=4, height=4, wrap_x=true: (q=5, r=2) is technically valid and
    // revalidates to (0, 2) since 5 mod 5 == 0; its index is 0 + 2*4 == 8.
    let ctx = HexMapContext { width: 4, height: 4, wrap_x: true };
    let c = HexCoord::new_axial(5, 2);
    assert!(c.is_technically_valid(&ctx));
    assert!(!c.is_fully_valid(&ctx));
    assert_eq!(c.revalidate(&ctx), Some(HexCoord::new_axial(0, 2)));
    assert_eq!(c.idx(&ctx), Some(8));
}

#[test]
fn no_wrap_rejects_out_of_range_q() {
    // width=4, height=4, wrap_x=false: (q=5, r=2) is unrecoverable.
    let ctx = HexMapContext { width: 4, height: 4, wrap_x: false };
    let c = HexCoord::new_axial(5, 2);
    assert!(!c.is_fully_valid(&ctx));
    assert!(!c.is_technically_valid(&ctx));
    assert_eq!(c.revalidate(&ctx), None);
    assert_eq!(c.idx(&ctx), None);
}

#[test]
fn fully_valid_coordinates_pass_through() {
    let ctx = HexMapContext { width: 4, height: 4, wrap_x: true };
    let c = HexCoord::new_axial(3, 4);
    assert!(c.is_fully_valid(&ctx));
    assert_eq!(c.revalidate(&ctx), Some(c));
    assert_eq!(c.idx(&ctx), Some(3 + 4 * 4));
}

#[test]
fn wrapping_idx_never_fails_on_q() {
    for width in [0u8, 1, 4, 17, 255] {
        let ctx = HexMapContext { width, height: 255, wrap_x: true };
        for q in [0u8, 1, 5, 128, 255] {
            for r in [0u8, 100, 255] {
                let c = HexCoord::new_axial(q, r);
                assert!(c.idx(&ctx).is_some());
            }
        }
    }
}

#[test]
fn out_of_range_r_always_fails() {
    let ctx = HexMapContext { width: 255, height: 4, wrap_x: true };
    let c = HexCoord::new_axial(0, 5);
    assert!(!c.is_technically_valid(&ctx));
    assert_eq!(c.revalidate(&ctx), None);
    assert_eq!(c.idx(&ctx), None);
}

#[test]
fn offset_by_rejects_r_out_of_range() {
    let ctx = HexMapContext { width: 10, height: 10, wrap_x: true };
    let c = HexCoord::new_axial(5, 0);
    assert_eq!(c.offset_by(&RelativeHexCoord::new_axial(0, -1), &ctx), None);
    assert_eq!(c.offset_by(&RelativeHexCoord::new_axial(0, 11), &ctx), None);
    assert_eq!(
        c.offset_by(&RelativeHexCoord::new_axial(0, 10), &ctx),
        Some(HexCoord::new_axial(5, 10))
    );
}

#[test]
fn offset_by_wraps_q_when_enabled() {
    let ctx = HexMapContext { width: 10, height: 10, wrap_x: true };
    let c = HexCoord::new_axial(5, 5);
    assert_eq!(
        c.offset_by(&RelativeHexCoord::new_axial(7, 0), &ctx),
        Some(HexCoord::new_axial(1, 5))
    );
    assert_eq!(
        c.offset_by(&RelativeHexCoord::new_axial(-7, 0), &ctx),
        Some(HexCoord::new_axial(9, 5))
    );
}

#[test]
fn offset_by_rejects_q_without_wrap() {
    let ctx = HexMapContext { width: 10, height: 10, wrap_x: false };
    let c = HexCoord::new_axial(5, 5);
    assert_eq!(c.offset_by(&RelativeHexCoord::new_axial(6, 0), &ctx), None);
    assert_eq!(c.offset_by(&RelativeHexCoord::new_axial(-6, 0), &ctx), None);
    assert_eq!(
        c.offset_by(&RelativeHexCoord::new_axial(5, 0), &ctx),
        Some(HexCoord::new_axial(10, 5))
    );
    assert_eq!(
        c.offset_by(&RelativeHexCoord::new_axial(-5, -5), &ctx),
        Some(HexCoord::new_axial(0, 0))
    );
}
