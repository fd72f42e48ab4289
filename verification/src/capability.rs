//! The generic coordinate capability: the topology-agnostic contract a
//! coordinate type must satisfy so that map-level code can index, measure
//! and traverse a grid without knowing which topology is in use.
//!
//! Each implementing topology supplies the specification functions that
//! give its own meaning to validity, repair, indexing, distance and
//! neighbourhood walks; the executable methods are then bound to those
//! meanings by their contracts.  Continuous pixel-space conversion also
//! belongs to this boundary but rests on floating point, so it stays with
//! the unverified callers.

use vstd::prelude::*;
use crate::coord::{hex_dist, spec_abs_sub, HexCoord, RelativeHexCoord};
use crate::map::HexMapContext;
use crate::ring::{HexCoordIteratorFull, HexCoordIteratorRing};

verus! {

/// The capability contract of a grid topology's coordinate type.
pub trait Coord: Sized + Copy {
    type MapContext: Copy;

    type RelativeCoord: Copy;

    type NeighborIteratorFull;

    type NeighborIteratorRing;

    /// The coordinate is usable against `ctx`, possibly after repair.
    spec fn tech_valid(self, ctx: Self::MapContext) -> bool;

    /// The coordinate is in range against `ctx` with no repair needed.
    spec fn fully_valid(self, ctx: Self::MapContext) -> bool;

    /// The repaired form of the coordinate, if it is recoverable.
    spec fn repaired(self, ctx: Self::MapContext) -> Option<Self>;

    /// The dense storage index of the repaired coordinate, if any.
    spec fn index_of(self, ctx: Self::MapContext) -> Option<int>;

    /// The step distance between two coordinates.
    spec fn dist_to(self, other: Self, ctx: Self::MapContext) -> int;

    /// The displacement that carries `self` to `other`.
    spec fn rel_between(self, other: Self) -> Self::RelativeCoord;

    /// The result of translating by `offset`, if it stays addressable.
    spec fn offset_result(self, offset: Self::RelativeCoord, ctx: Self::MapContext) -> Option<
        Self,
    >;

    /// The topology supports neighbourhood walks of this radius.
    spec fn radius_ok(size: u8) -> bool;

    /// A freshly started filled-disk walk of radius `size` around `self`.
    spec fn full_iter_fresh(self, size: u8, it: Self::NeighborIteratorFull) -> bool;

    /// A freshly started exact-ring walk of radius `size` around `self`.
    spec fn ring_iter_fresh(self, size: u8, it: Self::NeighborIteratorRing) -> bool;

    /// The displacement from `self` to `other`.
    fn relative_position(&self, other: Self, map_context: &Self::MapContext) -> (d:
        Self::RelativeCoord)
        ensures
            d == self.rel_between(other),
    ;

    /// The step distance to `other`.
    fn distance_to(&self, other: &Self, map_context: &Self::MapContext) -> (d: u8)
        ensures
            d as int == self.dist_to(*other, *map_context),
    ;

    /// Translate by `offset`, rejecting a result the context cannot
    /// address.
    fn offset_by(&self, offset: &Self::RelativeCoord, map_context: &Self::MapContext) -> (res:
        Option<Self>)
        ensures
            res == self.offset_result(*offset, *map_context),
    ;

    fn is_technically_valid(&self, map_context: &Self::MapContext) -> (b: bool)
        ensures
            b == self.tech_valid(*map_context),
    ;

    fn is_fully_valid(&self, map_context: &Self::MapContext) -> (b: bool)
        ensures
            b == self.fully_valid(*map_context),
    ;

    /// Attempt to convert a technically valid coordinate into a fully
    /// valid one.
    fn revalidate(&self, map_context: &Self::MapContext) -> (res: Option<Self>)
        ensures
            res == self.repaired(*map_context),
            res is Some <==> self.tech_valid(*map_context),
    ;

    /// Convert the coordinate into a dense storage index.
    fn idx(&self, map_context: &Self::MapContext) -> (res: Option<usize>)
        ensures
            res matches Some(i) ==> self.index_of(*map_context) == Some(i as int),
            res is Some <==> self.tech_valid(*map_context),
    ;

    /// Walk the filled disk of radius `size` around `self`.
    fn iter_neighbors_full(&self, size: u8, map_context: &Self::MapContext) -> (it:
        Self::NeighborIteratorFull)
        requires
            Self::radius_ok(size),
        ensures
            self.full_iter_fresh(size, it),
    ;

    /// Walk the cells at exactly distance `size` around `self`.
    fn iter_neighbors_ring(&self, size: u8, map_context: &Self::MapContext) -> (it:
        Self::NeighborIteratorRing)
        requires
            Self::radius_ok(size),
        ensures
            self.ring_iter_fresh(size, it),
    ;
}

impl Coord for HexCoord {
    type MapContext = HexMapContext;

    type RelativeCoord = RelativeHexCoord;

    type NeighborIteratorFull = HexCoordIteratorFull;

    type NeighborIteratorRing = HexCoordIteratorRing;

    open spec fn tech_valid(self, ctx: HexMapContext) -> bool {
        self.spec_technically_valid(ctx)
    }

    open spec fn fully_valid(self, ctx: HexMapContext) -> bool {
        self.spec_fully_valid(ctx)
    }

    open spec fn repaired(self, ctx: HexMapContext) -> Option<HexCoord> {
        self.spec_revalidate(ctx)
    }

    open spec fn index_of(self, ctx: HexMapContext) -> Option<int> {
        self.spec_idx(ctx)
    }

    open spec fn dist_to(self, other: HexCoord, ctx: HexMapContext) -> int {
        hex_dist(self, other)
    }

    open spec fn rel_between(self, other: HexCoord) -> RelativeHexCoord {
        spec_abs_sub(other, self)
    }

    open spec fn offset_result(self, offset: RelativeHexCoord, ctx: HexMapContext) -> Option<
        HexCoord,
    > {
        self.spec_offset_by(offset, ctx)
    }

    open spec fn radius_ok(size: u8) -> bool {
        size <= 127
    }

    open spec fn full_iter_fresh(self, size: u8, it: HexCoordIteratorFull) -> bool {
        &&& it.wf()
        &&& it.center_spec() == self
        &&& it.dist() == size
        &&& it.emitted() == 0
    }

    open spec fn ring_iter_fresh(self, size: u8, it: HexCoordIteratorRing) -> bool {
        &&& it.wf()
        &&& it.center_spec() == self
        &&& it.dist() == size
        &&& it.emitted() == 0
    }

    fn relative_position(&self, other: HexCoord, map_context: &HexMapContext) -> (d:
        RelativeHexCoord) {
        HexCoord::relative_position(self, other, map_context)
    }

    fn distance_to(&self, other: &HexCoord, map_context: &HexMapContext) -> (d: u8) {
        HexCoord::distance_to(self, other, map_context)
    }

    fn offset_by(&self, offset: &RelativeHexCoord, map_context: &HexMapContext) -> (res: Option<
        HexCoord,
    >) {
        HexCoord::offset_by(self, offset, map_context)
    }

    fn is_technically_valid(&self, map_context: &HexMapContext) -> (b: bool) {
        HexCoord::is_technically_valid(self, map_context)
    }

    fn is_fully_valid(&self, map_context: &HexMapContext) -> (b: bool) {
        HexCoord::is_fully_valid(self, map_context)
    }

    fn revalidate(&self, map_context: &HexMapContext) -> (res: Option<HexCoord>) {
        HexCoord::revalidate(self, map_context)
    }

    fn idx(&self, map_context: &HexMapContext) -> (res: Option<usize>) {
        HexCoord::idx(self, map_context)
    }

    fn iter_neighbors_full(&self, size: u8, map_context: &HexMapContext) -> (it:
        HexCoordIteratorFull) {
        HexCoord::iter_neighbors_full(self, size, map_context)
    }

    fn iter_neighbors_ring(&self, size: u8, map_context: &HexMapContext) -> (it:
        HexCoordIteratorRing) {
        HexCoord::iter_neighbors_ring(self, size, map_context)
    }
}

} // verus!
