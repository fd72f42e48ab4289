use hexgrid::capability::Coord;
use hexgrid::coord::HexCoord;
use hexgrid::coord::RelativeHexCoord;
use hexgrid::map::HexMapContext;

// Map-level code that only knows the capability contract.
fn index_via<T: Coord>(c: &T, ctx: &T::MapContext) -> Option<usize> {
    c.idx(ctx)
}

fn distance_via<T: Coord>(a: &T, b: &T, ctx: &T::MapContext) -> u8 {
    a.distance_to(b, ctx)
}

#[test]
fn capability_dispatch_matches_inherent_behaviour() {
    let ctx = HexMapContext { width: 4, height: 4, wrap_x: true };
    let c = HexCoord::new_axial(5, 2);
    assert_eq!(index_via(&c, &ctx), Some(8));
    assert_eq!(index_via(&c, &ctx), c.idx(&ctx));
    let a = HexCoord::new_axial(1, 1);
    let b = HexCoord::new_axial(3, 0);
    assert_eq!(distance_via(&a, &b, &ctx), 2);
    assert_eq!(distance_via(&a, &b, &ctx), a.distance_to(&b, &ctx));
}

#[test]
fn capability_offsets_and_repair() {
    let ctx = HexMapContext { width: 4, height: 4, wrap_x: false };
    let c = HexCoord::new_axial(5, 2);
    assert!(!Coord::is_fully_valid(&c, &ctx));
    assert_eq!(Coord::revalidate(&c, &ctx), None);
    let a = HexCoord::new_axial(2, 2);
    assert_eq!(
        Coord::offset_by(&a, &RelativeHexCoord::new_axial(1, -1), &ctx),
        Some(HexCoord::new_axial(3, 1))
    );
    assert_eq!(
        Coord::relative_position(&a, HexCoord::new_axial(4, 3), &ctx),
        RelativeHexCoord::new_axial(2, 1)
    );
}

#[test]
fn capability_iterators_walk_neighborhoods() {
    let ctx = HexMapContext { width: 10, height: 10, wrap_x: false };
    let center = HexCoord::new_axial(5, 5);
    let mut ring = Coord::iter_neighbors_ring(&center, 1, &ctx);
    let mut n = 0usize;
    while let Some(c) = ring.next() {
        assert_eq!(c.distance_to(&center, &ctx), 1);
        n += 1;
    }
    assert_eq!(n, 6);
    let mut disk = Coord::iter_neighbors_full(&center, 1, &ctx);
    let mut m = 0usize;
    while let Some(_c) = disk.next() {
        m += 1;
    }
    assert_eq!(m, 7);
}
