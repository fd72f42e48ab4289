use hexgrid::coord::HexCoord;
use hexgrid::tile::HexMap;
use hexgrid::tile::Tile;

#[test]
fn tile_membership_is_unique() {
    let mut t = Tile::new();
    assert!(!t.contains(7));
    assert!(t.add(7));
    assert!(t.contains(7));
    assert!(!t.add(7));
    assert!(t.contains(7));
    assert!(t.add(9));
    assert!(t.contains(9));
    assert!(t.remove(7));
    assert!(!t.contains(7));
    assert!(!t.remove(7));
    assert!(t.contains(9));
}

#[test]
fn map_get_tile_follows_indexing() {
    let map = HexMap::new(4, 4, true);
    // (5, 2) wraps to (0, 2): index 8, inside the 16-tile store.
    assert!(map.get_tile(HexCoord::new_axial(5, 2)).is_some());
    // (4, 3) is fully valid but indexes 4 + 3*4 == 16, beyond the store.
    assert!(map.get_tile(HexCoord::new_axial(4, 3)).is_none());
    // r out of range: no index at all.
    assert!(map.get_tile(HexCoord::new_axial(0, 5)).is_none());
}

#[test]
fn map_occupants_land_on_wrapped_tile() {
    let mut map = HexMap::new(4, 4, true);
    assert_eq!(map.add_occupant(HexCoord::new_axial(5, 2), 42), Some(true));
    assert_eq!(map.add_occupant(HexCoord::new_axial(5, 2), 42), Some(false));
    // (0, 2) is the repaired address of (5, 2): same tile.
    let t = map.get_tile(HexCoord::new_axial(0, 2)).unwrap();
    assert!(t.contains(42));
    assert!(!t.contains(41));
    assert_eq!(map.remove_occupant(HexCoord::new_axial(0, 2), 42), Some(true));
    assert_eq!(map.remove_occupant(HexCoord::new_axial(0, 2), 42), Some(false));
    let t2 = map.get_tile(HexCoord::new_axial(5, 2)).unwrap();
    assert!(!t2.contains(42));
}

#[test]
fn map_rejects_unaddressable_coordinates() {
    let mut map = HexMap::new(4, 4, false);
    assert_eq!(map.add_occupant(HexCoord::new_axial(5, 2), 1), None);
    assert_eq!(map.remove_occupant(HexCoord::new_axial(0, 5), 1), None);
}
