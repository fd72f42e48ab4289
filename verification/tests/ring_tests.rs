use std::collections::HashSet;

use hexgrid::coord::HexCoord;
use hexgrid::coord::RelativeHexCoord;
use hexgrid::map::HexMapContext;
use hexgrid::ring::HexCoordIteratorFull;
use hexgrid::ring::HexCoordIteratorRing;
use hexgrid::ring::RelativeHexCoordIteratorFull;
use hexgrid::ring::RelativeHexCoordIteratorRing;

fn collect_ring(distance: u8) -> Vec<RelativeHexCoord> {
    let mut out = Vec::new();
    let mut it = RelativeHexCoordIteratorRing::new(distance);
    while let Some(c) = it.next() {
        out.push(c);
    }
    out
}

fn collect_full(distance: u8) -> Vec<RelativeHexCoord> {
    let mut out = Vec::new();
    let mut it = RelativeHexCoordIteratorFull::new(distance);
    while let Some(c) = it.next() {
        out.push(c);
    }
    out
}

#[test]
fn coord_orientation_ring_iterator_small_count() {
    {
        let mut iter = RelativeHexCoordIteratorRing::new(0);
        assert_eq!(iter.next(), Some(RelativeHexCoord::new_axial(0, 0)));
        assert_eq!(iter.next(), None);
    }
    {
        let mut coords: HashSet<RelativeHexCoord> = HashSet::new();
        let mut iter = RelativeHexCoordIteratorRing::new(1);
        while let Some(c) = iter.next() {
            coords.insert(c);
        }
        assert!(coords.contains(&RelativeHexCoord::new_axial(1, 0)));
        assert!(coords.contains(&RelativeHexCoord::new_axial(0, 1)));
        assert!(coords.contains(&RelativeHexCoord::new_axial(-1, 1)));
        assert!(coords.contains(&RelativeHexCoord::new_axial(-1, 0)));
        assert!(coords.contains(&RelativeHexCoord::new_axial(0, -1)));
        assert!(coords.contains(&RelativeHexCoord::new_axial(1, -1)));
        assert_eq!(coords.len(), 6);
    }
}

#[test]
fn coord_orientation_neighbor_iterator_small_count() {
    let mut iter = RelativeHexCoordIteratorFull::new(0);
    assert_eq!(iter.next(), Some(RelativeHexCoord::new_axial(0, 0)));
    assert_eq!(iter.next(), None);
}

#[test]
fn ring_counts_and_distances() {
    let origin = RelativeHexCoord::new_axial(0, 0);
    for d in 0u8..=6 {
        let items = collect_ring(d);
        let expected = if d == 0 { 1 } else { 6 * d as usize };
        assert_eq!(items.len(), expected);
        let distinct: HashSet<RelativeHexCoord> = items.iter().copied().collect();
        assert_eq!(distinct.len(), expected);
        for c in &items {
            assert_eq!(c.distance_to(origin), d);
        }
    }
}

#[test]
fn ring_one_walks_sides_clockwise() {
    let walk = collect_ring(1);
    let expected = vec![
        RelativeHexCoord::new_axial(1, 0),
        RelativeHexCoord::new_axial(0, 1),
        RelativeHexCoord::new_axial(-1, 1),
        RelativeHexCoord::new_axial(-1, 0),
        RelativeHexCoord::new_axial(0, -1),
        RelativeHexCoord::new_axial(1, -1),
    ];
    assert_eq!(walk, expected);
}

#[test]
fn exhausted_iterators_stay_exhausted() {
    let mut ring = RelativeHexCoordIteratorRing::new(1);
    for _ in 0..6 {
        assert!(ring.next().is_some());
    }
    assert_eq!(ring.next(), None);
    assert_eq!(ring.next(), None);
    let mut full = RelativeHexCoordIteratorFull::new(1);
    for _ in 0..7 {
        assert!(full.next().is_some());
    }
    assert_eq!(full.next(), None);
    assert_eq!(full.next(), None);
}

#[test]
fn ring_is_restartable() {
    assert_eq!(collect_ring(5), collect_ring(5));
    assert_eq!(collect_full(4), collect_full(4));
}

#[test]
fn full_counts_and_order() {
    let origin = RelativeHexCoord::new_axial(0, 0);
    for d in 0u8..=6 {
        let items = collect_full(d);
        let n = d as usize;
        assert_eq!(items.len(), 3 * (n * n + n) + 1);
        let distinct: HashSet<RelativeHexCoord> = items.iter().copied().collect();
        assert_eq!(distinct.len(), items.len());
        // increasing-distance order, distance zero first
        let mut last = 0u8;
        for c in &items {
            let dist = c.distance_to(origin);
            assert!(dist >= last);
            assert!(dist <= d);
            last = dist;
        }
        assert_eq!(items[0], origin);
    }
}

#[test]
fn full_iterator_prefix_is_rings() {
    let mut expected: Vec<RelativeHexCoord> = Vec::new();
    for d in 0u8..=3 {
        expected.extend(collect_ring(d));
    }
    assert_eq!(collect_full(3), expected);
}

#[test]
fn relative_iterator_constructors_match() {
    let mut a = RelativeHexCoord::iter_neighbors_ring(2);
    let mut b = RelativeHexCoordIteratorRing::new(2);
    loop {
        let x = a.next();
        let y = b.next();
        assert_eq!(x, y);
        if x.is_none() {
            break;
        }
    }
    let mut c = RelativeHexCoord::iter_neighbors(2);
    let mut d = RelativeHexCoordIteratorFull::new(2);
    loop {
        let x = c.next();
        let y = d.next();
        assert_eq!(x, y);
        if x.is_none() {
            break;
        }
    }
}

#[test]
fn absolute_ring_distances_match_radius() {
    let ctx = HexMapContext { width: 255, height: 255, wrap_x: false };
    let center = HexCoord::new_axial(10, 10);
    for d in 0u8..=4 {
        let mut it = center.iter_neighbors_ring(d, &ctx);
        let mut count = 0usize;
        while let Some(c) = it.next() {
            assert_eq!(c.distance_to(&center, &ctx), d);
            count += 1;
        }
        assert_eq!(count, if d == 0 { 1 } else { 6 * d as usize });
    }
}

#[test]
fn absolute_ring_wraps_at_edges() {
    let ctx = HexMapContext { width: 255, height: 255, wrap_x: false };
    let center = HexCoord::new_axial(0, 0);
    let mut it = HexCoordIteratorRing::new(center, 1);
    let mut seen: Vec<HexCoord> = Vec::new();
    while let Some(c) = it.next() {
        seen.push(c);
    }
    assert_eq!(seen.len(), 6);
    assert!(seen.contains(&HexCoord::new_axial(1, 0)));
    assert!(seen.contains(&HexCoord::new_axial(255, 1)));
    assert!(seen.contains(&HexCoord::new_axial(0, 255)));
    for c in &seen {
        assert_eq!(c.distance_to(&center, &ctx), 1);
    }
}

#[test]
fn absolute_full_matches_relative_translation() {
    let ctx = HexMapContext { width: 20, height: 20, wrap_x: true };
    let center = HexCoord::new_axial(3, 4);
    let mut it = center.iter_neighbors_full(2, &ctx);
    let mut abs: Vec<HexCoord> = Vec::new();
    while let Some(c) = it.next() {
        abs.push(c);
    }
    let rel = collect_full(2);
    assert_eq!(abs.len(), rel.len());
    for (a, o) in abs.iter().zip(rel.iter()) {
        assert_eq!(*a, center.add(*o));
    }
    let mut it2 = HexCoordIteratorFull::new(center, 2);
    let mut again: Vec<HexCoord> = Vec::new();
    while let Some(c) = it2.next() {
        again.push(c);
    }
    assert_eq!(abs, again);
}
