//! Per-cell occupant storage.
//!
//! A [`Tile`] holds the set of occupant identifiers standing on one grid
//! cell.  Identifiers are opaque handles owned by the surrounding entity
//! system: the tile neither creates nor destroys them, only stores them,
//! with unique membership and no ordering guarantee.  A [`HexMap`] owns one
//! tile per cell of a bounded map, in a dense array addressed through the
//! coordinate's index function.

use vstd::prelude::*;
use crate::coord::HexCoord;
use crate::map::HexMapContext;

verus! {

/// The set of occupant identifiers on one grid cell.
pub struct Tile {
    occupants: Vec<u64>,
}

impl View for Tile {
    type V = Set<u64>;

    closed spec fn view(&self) -> Set<u64> {
        self.occupants@.to_set()
    }
}

impl Tile {
    /// No identifier is stored twice.
    pub closed spec fn wf(self) -> bool {
        forall|i: int, j: int|
            0 <= i < j < self.occupants@.len() ==> self.occupants@[i] != self.occupants@[j]
    }

    /// An empty tile.
    pub fn new() -> (t: Tile)
        ensures
            t.wf(),
            t@ == Set::<u64>::empty(),
    {
        let t = Tile { occupants: Vec::new() };
        proof {
            assert(t.occupants@.to_set() =~= Set::<u64>::empty());
        }
        t
    }

    /// Whether `id` occupies this tile.
    pub fn contains(&self, id: u64) -> (found: bool)
        ensures
            found == self@.contains(id),
    {
        let n = self.occupants.len();
        let mut i: usize = 0;
        while i < n
            invariant
                i <= n,
                n == self.occupants@.len(),
                forall|k: int| 0 <= k < i ==> self.occupants@[k] != id,
            decreases n - i,
        {
            if self.occupants[i] == id {
                proof {
                    assert(self.occupants@[i as int] == id);
                    assert(self.occupants@.contains(id));
                }
                return true;
            }
            i = i + 1;
        }
        proof {
            assert(!self.occupants@.contains(id));
        }
        false
    }

    /// Add `id` to the tile; report whether it was newly added.
    pub fn add(&mut self, id: u64) -> (added: bool)
        requires
            old(self).wf(),
        ensures
            final(self).wf(),
            final(self)@ == old(self)@.insert(id),
            added == !old(self)@.contains(id),
    {
        if self.contains(id) {
            proof {
                assert(self@ =~= self@.insert(id));
            }
            false
        } else {
            self.occupants.push(id);
            proof {
                let os = old(self).occupants@;
                let ns = self.occupants@;
                assert forall|x: u64| ns.contains(x) <==> os.contains(x) || x == id by {
                    if ns.contains(x) {
                        let w = choose|w: int| 0 <= w < ns.len() && ns[w] == x;
                        if w < os.len() {
                            assert(os[w] == x);
                            assert(os.contains(x));
                        }
                    }
                    if os.contains(x) {
                        let w = choose|w: int| 0 <= w < os.len() && os[w] == x;
                        assert(ns[w] == x);
                        assert(ns.contains(x));
                    }
                    if x == id {
                        assert(ns[os.len() as int] == x);
                        assert(ns.contains(x));
                    }
                }
                assert(ns.to_set() =~= os.to_set().insert(id));
            }
            true
        }
    }

    /// Remove `id` from the tile; report whether it was present.
    pub fn remove(&mut self, id: u64) -> (removed: bool)
        requires
            old(self).wf(),
        ensures
            final(self).wf(),
            final(self)@ == old(self)@.remove(id),
            removed == old(self)@.contains(id),
    {
        let n = self.occupants.len();
        let mut i: usize = 0;
        while i < n
            invariant
                i <= n,
                n == self.occupants@.len(),
                *self == *old(self),
                old(self).wf(),
                forall|k: int| 0 <= k < i ==> self.occupants@[k] != id,
            decreases n - i,
        {
            if self.occupants[i] == id {
                self.occupants.remove(i);
                proof {
                    let os = old(self).occupants@;
                    let ns = self.occupants@;
                    assert(os[i as int] == id);
                    assert(os.contains(id));
                    assert forall|x: u64| ns.contains(x) <==> os.contains(x) && x != id by {
                        if ns.contains(x) {
                            let w = choose|w: int| 0 <= w < ns.len() && ns[w] == x;
                            if w < i {
                                assert(os[w] == x);
                            } else {
                                assert(os[w + 1] == x);
                            }
                            assert(os.contains(x));
                        }
                        if os.contains(x) && x != id {
                            let w = choose|w: int| 0 <= w < os.len() && os[w] == x;
                            if w < i {
                                assert(ns[w] == x);
                            } else {
                                assert(os[w] != id);
                                assert(ns[w - 1] == x);
                            }
                            assert(ns.contains(x));
                        }
                    }
                    assert(ns.to_set() =~= os.to_set().remove(id));
                    assert forall|a: int, b: int|
                        0 <= a < b < ns.len() implies ns[a] != ns[b] by {
                        if b < i {
                        } else if a < i {
                            assert(ns[b] == os[b + 1]);
                        } else {
                            assert(ns[a] == os[a + 1]);
                            assert(ns[b] == os[b + 1]);
                        }
                    }
                }
                return true;
            }
            i = i + 1;
        }
        proof {
            assert(!self.occupants@.contains(id));
            assert(self@ =~= self@.remove(id));
        }
        false
    }
}

/// A bounded hexagonal map: its context and one tile per cell, stored
/// densely and addressed through the coordinate's index function.
pub struct HexMap {
    context: HexMapContext,
    tiles: Vec<Tile>,
}

impl HexMap {
    /// The map parameters the storage was built against.
    pub closed spec fn ctx(self) -> HexMapContext {
        self.context
    }

    /// Number of cells the storage holds.
    pub closed spec fn spec_len(self) -> int {
        self.tiles@.len() as int
    }

    /// The tile stored at dense index `i`.
    pub closed spec fn spec_tile(self, i: int) -> Tile {
        self.tiles@[i]
    }

    /// The storage holds exactly `width * height` well-formed tiles.
    pub closed spec fn wf(self) -> bool {
        &&& self.tiles@.len() == self.context.width as int * self.context.height as int
        &&& forall|i: int| 0 <= i < self.tiles@.len() ==> (#[trigger] self.tiles@[i]).wf()
    }

    /// Build a map of empty tiles from its parameters.
    pub fn new(width: u8, height: u8, wrap_x: bool) -> (m: HexMap)
        ensures
            m.wf(),
            m.ctx() == (HexMapContext { width, height, wrap_x }),
            forall|i: int| 0 <= i < m.spec_len() ==> (#[trigger] m.spec_tile(i))@ == Set::<
                u64,
            >::empty(),
    {
        proof {
            assert(0 <= width as int * height as int <= 65025) by (nonlinear_arith)
                requires
                    0 <= width as int <= 255,
                    0 <= height as int <= 255,
            ;
        }
        let n: usize = width as usize * height as usize;
        let mut tiles: Vec<Tile> = Vec::new();
        while tiles.len() < n
            invariant
                tiles@.len() <= n,
                forall|k: int|
                    0 <= k < tiles@.len() ==> (#[trigger] tiles@[k]).wf() && tiles@[k]@
                        == Set::<u64>::empty(),
            decreases n - tiles@.len(),
        {
            tiles.push(Tile::new());
        }
        HexMap { context: HexMapContext { width, height, wrap_x }, tiles }
    }

    /// Shared access to the tile a coordinate addresses, or nothing when
    /// the coordinate yields no index into the storage.
    pub fn get_tile(&self, coord: HexCoord) -> (t: Option<&Tile>)
        requires
            self.wf(),
        ensures
            ({
                match coord.spec_idx(self.ctx()) {
                    Some(i) => {
                        if i < self.spec_len() {
                            t matches Some(tl) && *tl == self.spec_tile(i)
                        } else {
                            t is None
                        }
                    },
                    None => t is None,
                }
            }),
    {
        match coord.idx(&self.context) {
            Some(i) => {
                if i < self.tiles.len() {
                    Some(&self.tiles[i])
                } else {
                    None
                }
            },
            None => None,
        }
    }

    /// Add an occupant to the tile a coordinate addresses.  Returns whether
    /// the identifier was newly added, or nothing when the coordinate
    /// yields no index into the storage.
    pub fn add_occupant(&mut self, coord: HexCoord, id: u64) -> (res: Option<bool>)
        requires
            old(self).wf(),
        ensures
            final(self).wf(),
            final(self).ctx() == old(self).ctx(),
            final(self).spec_len() == old(self).spec_len(),
            ({
                match coord.spec_idx(old(self).ctx()) {
                    Some(i) => {
                        if i < old(self).spec_len() {
                            &&& res matches Some(b) && b == !old(self).spec_tile(i)@.contains(id)
                            &&& final(self).spec_tile(i)@ == old(self).spec_tile(i)@.insert(id)
                            &&& forall|k: int|
                                0 <= k < old(self).spec_len() && k != i ==> final(self).spec_tile(k) == old(self).spec_tile(k)
                        } else {
                            res is None && *final(self) == *old(self)
                        }
                    },
                    None => res is None && *final(self) == *old(self),
                }
            }),
    {
        match coord.idx(&self.context) {
            Some(i) => {
                if i < self.tiles.len() {
                    let tile = &mut self.tiles[i];
                    let b = tile.add(id);
                    Some(b)
                } else {
                    None
                }
            },
            None => None,
        }
    }

    /// Remove an occupant from the tile a coordinate addresses.  Returns
    /// whether the identifier was present, or nothing when the coordinate
    /// yields no index into the storage.
    pub fn remove_occupant(&mut self, coord: HexCoord, id: u64) -> (res: Option<bool>)
        requires
            old(self).wf(),
        ensures
            final(self).wf(),
            final(self).ctx() == old(self).ctx(),
            final(self).spec_len() == old(self).spec_len(),
            ({
                match coord.spec_idx(old(self).ctx()) {
                    Some(i) => {
                        if i < old(self).spec_len() {
                            &&& res matches Some(b) && b == old(self).spec_tile(i)@.contains(id)
                            &&& final(self).spec_tile(i)@ == old(self).spec_tile(i)@.remove(id)
                            &&& forall|k: int|
                                0 <= k < old(self).spec_len() && k != i ==> final(self).spec_tile(k) == old(self).spec_tile(k)
                        } else {
                            res is None && *final(self) == *old(self)
                        }
                    },
                    None => res is None && *final(self) == *old(self),
                }
            }),
    {
        match coord.idx(&self.context) {
            Some(i) => {
                if i < self.tiles.len() {
                    let tile = &mut self.tiles[i];
                    let b = tile.remove(id);
                    Some(b)
                } else {
                    None
                }
            },
            None => None,
        }
    }
}

} // verus!
