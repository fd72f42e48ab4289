//! Ring and filled-disk enumeration.
//!
//! The ring walk emits exactly the displacements at a fixed hex step
//! distance `d` from the origin, ordered along the six straight sides of the
//! hexagonal ring: side `s` starts at the corner `d * unit_dir(s)` and walks
//! `d` steps along the perpendicular direction `unit_dir(s + 2)`.  Distance
//! zero emits the origin alone.  The filled disk concatenates the rings of
//! distance `0, 1, ..., d`.

use vstd::prelude::*;
use vstd::arithmetic::div_mod::{
    lemma_fundamental_div_mod, lemma_fundamental_div_mod_converse, lemma_mod_bound,
};
use vstd::arithmetic::mul::lemma_mul_basics;
use crate::coord::{
    cheb, congruent, hex_dist, lemma_congruent_add, lemma_wrap_signed_congruent,
    lemma_wrap_signed_small, lemma_wrap_unsigned_bounds, lemma_wrap_unsigned_residue,
    rel_dist, spec_abs_add, spec_ccw, spec_cw, spec_rel_neg, wrap_signed, HexCoord,
    RelativeHexCoord,
};
use crate::map::HexMapContext;

verus! {

/// The zero displacement.
pub open spec fn rel_origin() -> RelativeHexCoord {
    RelativeHexCoord { q: 0, r: 0 }
}

/// The six axial unit directions, clockwise from `(1, 0)`.
pub open spec fn unit_dir(s: int) -> (int, int) {
    if s == 0 {
        (1, 0)
    } else if s == 1 {
        (0, 1)
    } else if s == 2 {
        (-1, 1)
    } else if s == 3 {
        (-1, 0)
    } else if s == 4 {
        (0, -1)
    } else {
        (1, -1)
    }
}

/// Step `j` on side `s` of the ring at distance `d`: the side's corner
/// `d * unit_dir(s)` advanced `j` steps along the perpendicular
/// `unit_dir((s + 2) % 6)`.
pub open spec fn ring_pt(d: int, s: int, j: int) -> (int, int) {
    let u = unit_dir(s);
    let w = unit_dir(
        if s < 4 {
            s + 2
        } else {
            s - 4
        },
    );
    (u.0 * d + w.0 * j, u.1 * d + w.1 * j)
}

/// Number of cells at ring distance `d`.
pub open spec fn ring_len(d: int) -> int {
    if d <= 0 {
        1
    } else {
        6 * d
    }
}

/// The `k`-th element of the ring walk at distance `d`, as an integer pair.
pub open spec fn ring_elem(d: int, k: int) -> (int, int) {
    if d <= 0 {
        (0, 0)
    } else {
        ring_pt(d, k / d, k % d)
    }
}

/// An integer pair as a displacement.
pub open spec fn rel_of(p: (int, int)) -> RelativeHexCoord {
    RelativeHexCoord { q: p.0 as i8, r: p.1 as i8 }
}

/// The ring walk at distance `d`, in emission order.
pub open spec fn ring_seq(d: int) -> Seq<RelativeHexCoord> {
    Seq::new(ring_len(d) as nat, |k: int| rel_of(ring_elem(d, k)))
}

/// Evaluate a ring point to its closed form on each side.
proof fn lemma_ring_pt_eval(d: int, s: int, j: int)
    requires
        1 <= d,
        0 <= s < 6,
        0 <= j < d,
    ensures
        s == 0 ==> ring_pt(d, s, j) == (d - j, j),
        s == 1 ==> ring_pt(d, s, j) == (-j, d),
        s == 2 ==> ring_pt(d, s, j) == (-d, d - j),
        s == 3 ==> ring_pt(d, s, j) == (j - d, -j),
        s == 4 ==> ring_pt(d, s, j) == (j, -d),
        s == 5 ==> ring_pt(d, s, j) == (d, j - d),
{
    if s == 0 {
        assert(ring_pt(d, s, j) == (1 * d + (-1) * j, 0 * d + 1 * j));
    } else if s == 1 {
        assert(ring_pt(d, s, j) == (0 * d + (-1) * j, 1 * d + 0 * j));
    } else if s == 2 {
        assert(ring_pt(d, s, j) == ((-1) * d + 0 * j, 1 * d + (-1) * j));
    } else if s == 3 {
        assert(ring_pt(d, s, j) == ((-1) * d + 1 * j, 0 * d + (-1) * j));
    } else if s == 4 {
        assert(ring_pt(d, s, j) == (0 * d + 1 * j, (-1) * d + 0 * j));
    } else {
        assert(ring_pt(d, s, j) == (1 * d + 0 * j, (-1) * d + 1 * j));
    }
}

/// Ring points lie strictly within the signed eight-bit range.
proof fn lemma_ring_pt_bounds(d: int, s: int, j: int)
    requires
        1 <= d <= 127,
        0 <= s < 6,
        0 <= j < d,
    ensures
        -127 <= ring_pt(d, s, j).0 <= 127,
        -127 <= ring_pt(d, s, j).1 <= 127,
{
    lemma_ring_pt_eval(d, s, j);
}

/// Each ring point lies at hex step distance exactly `d` from the origin.
proof fn lemma_ring_pt_dist(d: int, s: int, j: int)
    requires
        1 <= d <= 127,
        0 <= s < 6,
        0 <= j < d,
    ensures
        cheb(ring_pt(d, s, j).0, ring_pt(d, s, j).1) == d,
{
    lemma_ring_pt_eval(d, s, j);
    let p = ring_pt(d, s, j);
    if s == 0 {
        assert(-p.0 - p.1 == -d);
    } else if s == 1 {
        assert(-p.0 - p.1 == j - d);
    } else if s == 2 {
        assert(-p.0 - p.1 == j);
    } else if s == 3 {
        assert(-p.0 - p.1 == d);
    } else if s == 4 {
        assert(-p.0 - p.1 == d - j);
    } else {
        assert(-p.0 - p.1 == -j);
    }
    lemma_wrap_signed_small(-p.0 - p.1);
}

/// Distinct side/step pairs give distinct ring points.
proof fn lemma_ring_pt_injective(d: int, s1: int, j1: int, s2: int, j2: int)
    requires
        1 <= d <= 127,
        0 <= s1 < 6,
        0 <= j1 < d,
        0 <= s2 < 6,
        0 <= j2 < d,
        ring_pt(d, s1, j1) == ring_pt(d, s2, j2),
    ensures
        s1 == s2,
        j1 == j2,
{
    lemma_ring_pt_eval(d, s1, j1);
    lemma_ring_pt_eval(d, s2, j2);
}

/// Decompose a ring index into its side and step.
proof fn lemma_ring_index_decompose(d: int, k: int)
    requires
        1 <= d,
        0 <= k < 6 * d,
    ensures
        0 <= k / d < 6,
        0 <= k % d < d,
        k == (k / d) * d + (k % d),
{
    lemma_fundamental_div_mod(k, d);
    lemma_mod_bound(k, d);
    assert(k == (k / d) * d + (k % d)) by (nonlinear_arith)
        requires
            k == d * (k / d) + k % d,
    ;
    assert(0 <= k / d < 6) by (nonlinear_arith)
        requires
            1 <= d,
            0 <= k < 6 * d,
            k == d * (k / d) + k % d,
            0 <= k % d < d,
    ;
}

/// The ring walk at distance zero consists of exactly the origin.
pub proof fn lemma_ring_walk_zero()
    ensures
        ring_seq(0).len() == 1,
        ring_seq(0)[0] == rel_origin(),
{
}

/// The ring walk at distance `d > 0` consists of exactly `6 * d` pairwise
/// distinct displacements, each at hex step distance exactly `d` from the
/// origin.
pub proof fn lemma_ring_walk_properties(d: int)
    requires
        1 <= d <= 127,
    ensures
        ring_seq(d).len() == 6 * d,
        forall|k1: int, k2: int|
            0 <= k1 < k2 < 6 * d ==> ring_seq(d)[k1] != ring_seq(d)[k2],
        forall|k: int| 0 <= k < 6 * d ==> rel_dist(#[trigger] ring_seq(d)[k], rel_origin()) == d,
{
    assert forall|k: int| 0 <= k < 6 * d implies rel_dist(
        #[trigger] ring_seq(d)[k],
        rel_origin(),
    ) == d by {
        lemma_ring_index_decompose(d, k);
        let s = k / d;
        let j = k % d;
        lemma_ring_pt_bounds(d, s, j);
        lemma_ring_pt_dist(d, s, j);
        let e = ring_seq(d)[k];
        lemma_wrap_signed_small(e.q as int);
        lemma_wrap_signed_small(e.r as int);
    }
    assert forall|k1: int, k2: int| 0 <= k1 < k2 < 6 * d implies ring_seq(d)[k1] != ring_seq(
        d,
    )[k2] by {
        lemma_ring_index_decompose(d, k1);
        lemma_ring_index_decompose(d, k2);
        let s1 = k1 / d;
        let j1 = k1 % d;
        let s2 = k2 / d;
        let j2 = k2 % d;
        lemma_ring_pt_bounds(d, s1, j1);
        lemma_ring_pt_bounds(d, s2, j2);
        if ring_seq(d)[k1] == ring_seq(d)[k2] {
            assert(ring_pt(d, s1, j1) == ring_pt(d, s2, j2));
            lemma_ring_pt_injective(d, s1, j1, s2, j2);
        }
    }
}

/// A lazy, restartable walk of the displacements at a fixed ring distance.
///
/// The state holds the unit vector of the current side, how many sides have
/// been completed, and the step taken along the current side.
pub struct RelativeHexCoordIteratorRing {
    side: RelativeHexCoord,
    side_count: u8,
    distance: u8,
    offset: u8,
}

impl RelativeHexCoordIteratorRing {
    /// Index of the current side, folding the finished state onto side 0.
    pub closed spec fn side_idx(self) -> int {
        if self.side_count == 6 {
            0
        } else {
            self.side_count as int
        }
    }

    /// The iterator state is a consistent point of the walk.
    pub closed spec fn wf(self) -> bool {
        self.distance <= 127 && if self.distance == 0 {
            &&& 5 <= self.side_count <= 6
            &&& self.offset == 0
            &&& self.side == rel_origin()
        } else {
            &&& self.side_count <= 6
            &&& self.offset < self.distance
            &&& (self.side_count == 6 ==> self.offset == 0)
            &&& (self.side.q as int, self.side.r as int) == unit_dir(self.side_idx())
        }
    }

    /// The ring distance this iterator walks.
    pub closed spec fn dist(self) -> int {
        self.distance as int
    }

    /// How many elements have been emitted so far.
    pub closed spec fn emitted(self) -> int {
        if self.distance == 0 {
            self.side_count - 5
        } else {
            self.side_count * self.distance + self.offset
        }
    }

    /// A well-formed state has emitted at most the whole ring.
    pub proof fn lemma_emitted_bounds(self)
        requires
            self.wf(),
        ensures
            0 <= self.emitted() <= ring_len(self.dist()),
    {
        if self.distance > 0 {
            let s = self.side_count as int;
            let d = self.distance as int;
            if s == 6 {
                assert(s * d == 6 * d);
            } else {
                assert(s * d <= 5 * d) by (nonlinear_arith)
                    requires
                        s <= 5,
                        d >= 0,
                ;
                assert(s * d >= 0) by (nonlinear_arith)
                    requires
                        s >= 0,
                        d >= 0,
                ;
            }
        }
    }

    /// Start a walk of the displacements at ring distance `distance`.
    pub fn new(distance: u8) -> (it: RelativeHexCoordIteratorRing)
        requires
            distance <= 127,
        ensures
            it.wf(),
            it.dist() == distance,
            it.emitted() == 0,
    {
        if distance == 0 {
            RelativeHexCoordIteratorRing {
                side_count: 5,
                side: RelativeHexCoord { q: 0, r: 0 },
                distance: 0,
                offset: 0,
            }
        } else {
            RelativeHexCoordIteratorRing {
                side_count: 0,
                side: RelativeHexCoord { q: 1, r: 0 },
                distance,
                offset: 0,
            }
        }
    }

    /// Emit the next displacement of the walk, or nothing once all
    /// `ring_len` elements have been produced.
    #[verifier::rlimit(60)]
    pub fn next(&mut self) -> (res: Option<RelativeHexCoord>)
        requires
            old(self).wf(),
        ensures
            final(self).wf(),
            final(self).dist() == old(self).dist(),
            old(self).emitted() < ring_len(old(self).dist()) ==> res == Some(
                ring_seq(old(self).dist())[old(self).emitted()],
            ),
            old(self).emitted() < ring_len(old(self).dist()) ==> final(self).emitted() == old(self).emitted() + 1,
            old(self).emitted() >= ring_len(old(self).dist()) ==> res is None && *final(self)
                == *old(self),
    {
        if self.side_count > 5 {
            proof {
                if self.distance > 0 {
                    assert(self.emitted() == 6 * self.distance) by (nonlinear_arith)
                        requires
                            self.emitted() == self.side_count as int * self.distance as int
                                + self.offset as int,
                            self.side_count == 6,
                            self.offset == 0,
                    ;
                }
            }
            return None;
        }
        let side_vec = self.side.scale(self.distance as i8);
        let offset_vec = self.side.neg().ccw().scale(self.offset as i8);
        let result = side_vec.add(offset_vec);
        let ghost pre = *self;
        self.offset = self.offset + 1;
        if self.offset >= self.distance {
            self.offset = 0;
            self.side = self.side.cw();
            self.side_count = self.side_count + 1;
        }
        proof {
            let d = pre.distance as int;
            let s = pre.side_count as int;
            let j = pre.offset as int;
            if d == 0 {
                lemma_wrap_signed_small(0);
                lemma_mul_basics((pre.distance as i8) as int);
                lemma_mul_basics((pre.offset as i8) as int);
                assert(result == rel_origin());
                assert(ring_seq(0)[0] == rel_origin());
            } else {
                let u = unit_dir(s);
                let w = unit_dir(
                    if s < 4 {
                        s + 2
                    } else {
                        s - 4
                    },
                );
                lemma_cw_unit_dir(s);
                lemma_perp_unit_dir(s);
                assert(-1 <= u.0 <= 1 && -1 <= u.1 <= 1);
                assert(-1 <= w.0 <= 1 && -1 <= w.1 <= 1);
                assert(-127 <= u.0 * d <= 127) by (nonlinear_arith)
                    requires
                        -1 <= u.0 <= 1,
                        1 <= d <= 127,
                ;
                assert(-127 <= u.1 * d <= 127) by (nonlinear_arith)
                    requires
                        -1 <= u.1 <= 1,
                        1 <= d <= 127,
                ;
                assert(-127 <= w.0 * j <= 127) by (nonlinear_arith)
                    requires
                        -1 <= w.0 <= 1,
                        0 <= j <= 127,
                ;
                assert(-127 <= w.1 * j <= 127) by (nonlinear_arith)
                    requires
                        -1 <= w.1 <= 1,
                        0 <= j <= 127,
                ;
                lemma_wrap_signed_small(u.0 * d);
                lemma_wrap_signed_small(u.1 * d);
                lemma_wrap_signed_small(w.0 * j);
                lemma_wrap_signed_small(w.1 * j);
                assert(side_vec.q as int == u.0 * d);
                assert(side_vec.r as int == u.1 * d);
                assert(offset_vec.q as int == w.0 * j);
                assert(offset_vec.r as int == w.1 * j);
                lemma_ring_pt_bounds(d, s, j);
                lemma_wrap_signed_small(u.0 * d + w.0 * j);
                lemma_wrap_signed_small(u.1 * d + w.1 * j);
                assert(result.q as int == ring_pt(d, s, j).0);
                assert(result.r as int == ring_pt(d, s, j).1);
                let k = s * d + j;
                lemma_fundamental_div_mod_converse(k, d, s, j);
                assert(ring_elem(d, k) == ring_pt(d, s, j));
                assert(0 <= k < 6 * d) by (nonlinear_arith)
                    requires
                        1 <= d,
                        0 <= s <= 5,
                        0 <= j < d,
                        k == s * d + j,
                ;
                assert(pre.emitted() == k);
                assert(result == ring_seq(d)[k]);
                if pre.offset + 1 >= pre.distance {
                    assert(final(self).emitted() == (s + 1) * d);
                    assert((s + 1) * d == s * d + d) by (nonlinear_arith);
                    assert(final(self).emitted() == k + 1);
                } else {
                    assert(final(self).emitted() == s * d + j + 1);
                }
            }
        }
        Some(result)
    }
}

/// Number of cells in the filled disk of radius `d`, zero for a negative
/// radius: the centred hexagonal number `3 * (d * d + d) + 1`.
pub open spec fn disk_len(d: int) -> int {
    if d < 0 {
        0
    } else {
        3 * (d * d + d) + 1
    }
}

/// The filled-disk walk at radius `d`: the rings of distance `0, 1, ..., d`
/// concatenated in increasing-distance order.
pub open spec fn disk_seq(d: int) -> Seq<RelativeHexCoord>
    decreases d,
{
    if d <= 0 {
        ring_seq(0)
    } else {
        disk_seq(d - 1) + ring_seq(d)
    }
}

/// One ring extends the previous disk to the next.
proof fn lemma_disk_len_step(d: int)
    requires
        0 <= d,
    ensures
        disk_len(d - 1) + ring_len(d) == disk_len(d),
{
    if d > 0 {
        assert(3 * ((d - 1) * (d - 1) + (d - 1)) + 1 + 6 * d == 3 * (d * d + d) + 1)
            by (nonlinear_arith);
    }
}

/// The filled disk's length is the centred hexagonal number.
pub proof fn lemma_disk_seq_len(d: int)
    requires
        0 <= d,
    ensures
        disk_seq(d).len() == disk_len(d),
    decreases d,
{
    if d > 0 {
        lemma_disk_seq_len(d - 1);
        lemma_disk_len_step(d);
    }
}

/// The disk length grows with the radius.
proof fn lemma_disk_len_mono(a: int, b: int)
    requires
        a <= b,
    ensures
        disk_len(a) <= disk_len(b),
{
    if a < 0 {
        if b >= 0 {
            assert(b * b + b >= 0) by (nonlinear_arith)
                requires
                    b >= 0,
            ;
        }
    } else {
        assert(a * a + a <= b * b + b) by (nonlinear_arith)
            requires
                0 <= a <= b,
        ;
    }
}

/// Position `disk_len(r - 1) + k` of the concatenated disk is element `k`
/// of the ring at distance `r`.
proof fn lemma_disk_index(dd: int, r: int, k: int)
    requires
        0 <= r <= dd,
        0 <= k < ring_len(r),
    ensures
        0 <= disk_len(r - 1) + k < disk_len(dd),
        disk_seq(dd)[disk_len(r - 1) + k] == ring_seq(r)[k],
    decreases dd,
{
    lemma_disk_seq_len(dd);
    lemma_disk_len_step(r);
    lemma_disk_len_mono(r, dd);
    if r == dd {
        if dd > 0 {
            lemma_disk_seq_len(dd - 1);
        }
    } else {
        lemma_disk_index(dd - 1, r, k);
        lemma_disk_seq_len(dd - 1);
    }
}

/// The filled disk at radius `d` consists of exactly `3 * (d * d + d) + 1`
/// pairwise distinct displacements, each within hex step distance `d` of
/// the origin.
pub proof fn lemma_disk_walk_properties(d: int)
    requires
        0 <= d <= 127,
    ensures
        disk_seq(d).len() == 3 * (d * d + d) + 1,
        forall|k1: int, k2: int|
            0 <= k1 < k2 < disk_seq(d).len() ==> disk_seq(d)[k1] != disk_seq(d)[k2],
        forall|k: int|
            0 <= k < disk_seq(d).len() ==> rel_dist(#[trigger] disk_seq(d)[k], rel_origin())
                <= d,
    decreases d,
{
    lemma_disk_seq_len(d);
    if d == 0 {
        lemma_wrap_signed_small(0);
        assert(rel_dist(disk_seq(0)[0], rel_origin()) == 0);
    } else {
        lemma_disk_walk_properties(d - 1);
        lemma_ring_walk_properties(d);
        lemma_disk_seq_len(d - 1);
        let a = disk_seq(d - 1);
        let b = ring_seq(d);
        assert forall|k: int| 0 <= k < disk_seq(d).len() implies rel_dist(
            #[trigger] disk_seq(d)[k],
            rel_origin(),
        ) <= d by {
            if k < a.len() {
                assert(disk_seq(d)[k] == a[k]);
                assert(rel_dist(a[k], rel_origin()) <= d - 1);
            } else {
                assert(disk_seq(d)[k] == b[k - a.len()]);
                assert(rel_dist(b[k - a.len()], rel_origin()) == d);
            }
        }
        assert forall|k1: int, k2: int| 0 <= k1 < k2 < disk_seq(d).len() implies disk_seq(
            d,
        )[k1] != disk_seq(d)[k2] by {
            if k2 < a.len() {
                assert(disk_seq(d)[k1] == a[k1]);
                assert(disk_seq(d)[k2] == a[k2]);
            } else if k1 >= a.len() {
                assert(disk_seq(d)[k1] == b[k1 - a.len()]);
                assert(disk_seq(d)[k2] == b[k2 - a.len()]);
            } else {
                assert(disk_seq(d)[k1] == a[k1]);
                assert(disk_seq(d)[k2] == b[k2 - a.len()]);
                assert(rel_dist(a[k1], rel_origin()) <= d - 1);
                assert(rel_dist(b[k2 - a.len()], rel_origin()) == d);
            }
        }
    }
}

/// A lazy, restartable walk of the filled disk: the ring walks of distance
/// `0, 1, ..., distance` in increasing-distance order.
pub struct RelativeHexCoordIteratorFull {
    ring_iter: RelativeHexCoordIteratorRing,
    distance: u8,
}

impl RelativeHexCoordIteratorFull {
    /// The iterator state is a consistent point of the disk walk.
    pub closed spec fn wf(self) -> bool {
        &&& self.ring_iter.wf()
        &&& self.distance <= 127
        &&& self.ring_iter.dist() <= self.distance as int
    }

    /// The disk radius this iterator walks.
    pub closed spec fn dist(self) -> int {
        self.distance as int
    }

    /// Position in the concatenated disk sequence.
    pub closed spec fn emitted(self) -> int {
        disk_len(self.ring_iter.dist() - 1) + self.ring_iter.emitted()
    }

    /// Start a walk of the filled disk of radius `distance`.
    pub fn new(distance: u8) -> (it: RelativeHexCoordIteratorFull)
        requires
            distance <= 127,
        ensures
            it.wf(),
            it.dist() == distance,
            it.emitted() == 0,
    {
        RelativeHexCoordIteratorFull {
            ring_iter: RelativeHexCoordIteratorRing::new(0),
            distance,
        }
    }

    /// Emit the next displacement of the disk walk, or nothing once all
    /// `disk_len` elements have been produced.
    #[verifier::rlimit(60)]
    pub fn next(&mut self) -> (res: Option<RelativeHexCoord>)
        requires
            old(self).wf(),
        ensures
            final(self).wf(),
            final(self).dist() == old(self).dist(),
            old(self).emitted() < disk_len(old(self).dist()) ==> res == Some(
                disk_seq(old(self).dist())[old(self).emitted()],
            ),
            old(self).emitted() < disk_len(old(self).dist()) ==> final(self).emitted() == old(self).emitted() + 1,
            old(self).emitted() >= disk_len(old(self).dist()) ==> res is None && final(self).emitted() == old(self).emitted(),
    {
        let ghost pre = *self;
        let first = self.ring_iter.next();
        match first {
            Some(coord) => {
                proof {
                    let r = pre.ring_iter.dist();
                    let e = pre.ring_iter.emitted();
                    lemma_disk_index(pre.dist(), r, e);
                    assert(coord == ring_seq(r)[e]);
                    assert(pre.emitted() == disk_len(r - 1) + e);
                    assert(disk_seq(pre.dist())[pre.emitted()] == ring_seq(r)[e]);
                }
                return Some(coord);
            },
            None => {},
        }
        if self.distance <= self.ring_iter.distance {
            proof {
                pre.ring_iter.lemma_emitted_bounds();
                lemma_disk_len_step(pre.ring_iter.dist());
            }
            return None;
        }
        let nd = self.ring_iter.distance + 1;
        self.ring_iter = RelativeHexCoordIteratorRing::new(nd);
        let second = self.ring_iter.next();
        proof {
            let r = pre.ring_iter.dist();
            pre.ring_iter.lemma_emitted_bounds();
            lemma_disk_len_step(r);
            lemma_disk_index(pre.dist(), r + 1, 0);
            assert(pre.emitted() == disk_len(r));
            assert(disk_len((r + 1) - 1) == disk_len(r));
            assert(second == Some(ring_seq(r + 1)[0]));
            assert(disk_seq(pre.dist())[disk_len(r)] == ring_seq(r + 1)[0]);
            assert(final(self).emitted() == disk_len(r) + 1);
        }
        second
    }
}

/// The wrapped difference between a translated position and its center
/// recovers the displacement itself.
proof fn lemma_abs_add_diff(c: HexCoord, o: RelativeHexCoord)
    ensures
        wrap_signed(spec_abs_add(c, o).q as int - c.q as int) == o.q as int,
        wrap_signed(spec_abs_add(c, o).r as int - c.r as int) == o.r as int,
{
    let c2 = spec_abs_add(c, o);
    lemma_wrap_unsigned_bounds(c.q as int + o.q as int);
    lemma_wrap_unsigned_bounds(c.r as int + o.r as int);
    lemma_wrap_unsigned_residue(c.q as int + o.q as int);
    lemma_wrap_unsigned_residue(c.r as int + o.r as int);
    assert(congruent(-(c.q as int), -(c.q as int)));
    assert(congruent(-(c.r as int), -(c.r as int)));
    lemma_congruent_add(
        c2.q as int,
        c.q as int + o.q as int,
        -(c.q as int),
        -(c.q as int),
    );
    lemma_congruent_add(
        c2.r as int,
        c.r as int + o.r as int,
        -(c.r as int),
        -(c.r as int),
    );
    lemma_wrap_signed_congruent(c2.q as int - c.q as int, o.q as int);
    lemma_wrap_signed_congruent(c2.r as int - c.r as int, o.r as int);
    lemma_wrap_signed_small(o.q as int);
    lemma_wrap_signed_small(o.r as int);
}

/// Every element of the absolute ring walk lies at hex step distance
/// exactly `d` from the walk's center, whatever the center.
pub proof fn lemma_abs_ring_dist(center: HexCoord, d: int, k: int)
    requires
        0 <= d <= 127,
        0 <= k < ring_len(d),
    ensures
        hex_dist(spec_abs_add(center, ring_seq(d)[k]), center) == d,
{
    let o = ring_seq(d)[k];
    lemma_abs_add_diff(center, o);
    if d == 0 {
        lemma_wrap_signed_small(0);
        assert(o == rel_origin());
    } else {
        lemma_ring_index_decompose(d, k);
        lemma_ring_pt_bounds(d, k / d, k % d);
        lemma_ring_pt_dist(d, k / d, k % d);
    }
}

/// A lazy walk of the absolute positions at a fixed ring distance around a
/// center, each relative element translated by the center with wraparound
/// and no validity filtering.
pub struct HexCoordIteratorRing {
    center: HexCoord,
    offset: RelativeHexCoordIteratorRing,
}

impl HexCoordIteratorRing {
    pub closed spec fn wf(self) -> bool {
        self.offset.wf()
    }

    /// The fixed center of the walk.
    pub closed spec fn center_spec(self) -> HexCoord {
        self.center
    }

    /// The ring distance this iterator walks.
    pub closed spec fn dist(self) -> int {
        self.offset.dist()
    }

    /// How many elements have been emitted so far.
    pub closed spec fn emitted(self) -> int {
        self.offset.emitted()
    }

    /// Start a walk of the ring at distance `distance` around `center`.
    pub fn new(center: HexCoord, distance: u8) -> (it: HexCoordIteratorRing)
        requires
            distance <= 127,
        ensures
            it.wf(),
            it.center_spec() == center,
            it.dist() == distance,
            it.emitted() == 0,
    {
        HexCoordIteratorRing { center, offset: RelativeHexCoordIteratorRing::new(distance) }
    }

    /// Emit the next absolute position of the walk.  Every emitted position
    /// lies at hex step distance exactly `dist()` from the center.
    pub fn next(&mut self) -> (res: Option<HexCoord>)
        requires
            old(self).wf(),
        ensures
            final(self).wf(),
            final(self).dist() == old(self).dist(),
            final(self).center_spec() == old(self).center_spec(),
            old(self).emitted() < ring_len(old(self).dist()) ==> res == Some(
                spec_abs_add(
                    old(self).center_spec(),
                    ring_seq(old(self).dist())[old(self).emitted()],
                ),
            ),
            old(self).emitted() < ring_len(old(self).dist()) ==> final(self).emitted() == old(self).emitted() + 1,
            res matches Some(c) ==> hex_dist(c, old(self).center_spec()) == old(self).dist(),
            old(self).emitted() >= ring_len(old(self).dist()) ==> res is None && final(self).emitted() == old(self).emitted(),
    {
        let ghost pre = *self;
        let off = self.offset.next();
        match off {
            Some(o) => {
                proof {
                    lemma_abs_ring_dist(pre.center, pre.dist(), pre.emitted());
                }
                Some(self.center.add(o))
            },
            None => None,
        }
    }
}

/// A lazy walk of the absolute positions of the filled disk around a
/// center, each relative element translated by the center with wraparound
/// and no validity filtering.
pub struct HexCoordIteratorFull {
    center: HexCoord,
    offset: RelativeHexCoordIteratorFull,
}

impl HexCoordIteratorFull {
    pub closed spec fn wf(self) -> bool {
        self.offset.wf()
    }

    /// The fixed center of the walk.
    pub closed spec fn center_spec(self) -> HexCoord {
        self.center
    }

    /// The disk radius this iterator walks.
    pub closed spec fn dist(self) -> int {
        self.offset.dist()
    }

    /// How many elements have been emitted so far.
    pub closed spec fn emitted(self) -> int {
        self.offset.emitted()
    }

    /// Start a walk of the filled disk of radius `distance` around
    /// `center`.
    pub fn new(center: HexCoord, distance: u8) -> (it: HexCoordIteratorFull)
        requires
            distance <= 127,
        ensures
            it.wf(),
            it.center_spec() == center,
            it.dist() == distance,
            it.emitted() == 0,
    {
        HexCoordIteratorFull { center, offset: RelativeHexCoordIteratorFull::new(distance) }
    }

    /// Emit the next absolute position of the disk walk.
    pub fn next(&mut self) -> (res: Option<HexCoord>)
        requires
            old(self).wf(),
        ensures
            final(self).wf(),
            final(self).dist() == old(self).dist(),
            final(self).center_spec() == old(self).center_spec(),
            old(self).emitted() < disk_len(old(self).dist()) ==> res == Some(
                spec_abs_add(
                    old(self).center_spec(),
                    disk_seq(old(self).dist())[old(self).emitted()],
                ),
            ),
            old(self).emitted() < disk_len(old(self).dist()) ==> final(self).emitted() == old(self).emitted() + 1,
            old(self).emitted() >= disk_len(old(self).dist()) ==> res is None && final(self).emitted() == old(self).emitted(),
    {
        let off = self.offset.next();
        match off {
            Some(o) => Some(self.center.add(o)),
            None => None,
        }
    }
}

impl RelativeHexCoord {
    /// Walk the displacements at exactly ring distance `distance` from the
    /// origin.
    pub fn iter_neighbors_ring(distance: u8) -> (it: RelativeHexCoordIteratorRing)
        requires
            distance <= 127,
        ensures
            it.wf(),
            it.dist() == distance,
            it.emitted() == 0,
    {
        RelativeHexCoordIteratorRing::new(distance)
    }

    /// Walk the filled disk of radius `distance` around the origin.
    pub fn iter_neighbors(distance: u8) -> (it: RelativeHexCoordIteratorFull)
        requires
            distance <= 127,
        ensures
            it.wf(),
            it.dist() == distance,
            it.emitted() == 0,
    {
        RelativeHexCoordIteratorFull::new(distance)
    }
}

impl HexCoord {
    /// Walk the absolute positions of the filled disk of radius `size`
    /// around `self`.  No validity filtering is applied: out-of-range
    /// results are the caller's to validate against the map context.
    pub fn iter_neighbors_full(
        &self,
        size: u8,
        map_context: &HexMapContext,
    ) -> (it: HexCoordIteratorFull)
        requires
            size <= 127,
        ensures
            it.wf(),
            it.center_spec() == *self,
            it.dist() == size,
            it.emitted() == 0,
    {
        HexCoordIteratorFull::new(*self, size)
    }

    /// Walk the absolute positions at exactly ring distance `size` around
    /// `self`.  No validity filtering is applied: out-of-range results are
    /// the caller's to validate against the map context.
    pub fn iter_neighbors_ring(
        &self,
        size: u8,
        map_context: &HexMapContext,
    ) -> (it: HexCoordIteratorRing)
        requires
            size <= 127,
        ensures
            it.wf(),
            it.center_spec() == *self,
            it.dist() == size,
            it.emitted() == 0,
    {
        HexCoordIteratorRing::new(*self, size)
    }
}

/// Rotating a side's unit direction clockwise yields the next side's unit
/// direction.
proof fn lemma_cw_unit_dir(s: int)
    requires
        0 <= s < 6,
    ensures
        ({
            let u = unit_dir(s);
            let v = unit_dir(
                if s == 5 {
                    0
                } else {
                    s + 1
                },
            );
            spec_cw(RelativeHexCoord { q: u.0 as i8, r: u.1 as i8 }) == (RelativeHexCoord {
                q: v.0 as i8,
                r: v.1 as i8,
            })
        }),
{
    lemma_wrap_signed_small(-1);
    lemma_wrap_signed_small(0);
    lemma_wrap_signed_small(1);
}

/// Negating a side's unit direction and rotating it counter-clockwise
/// yields the unit direction two sides ahead: the perpendicular walked
/// along that side.
proof fn lemma_perp_unit_dir(s: int)
    requires
        0 <= s < 6,
    ensures
        ({
            let u = unit_dir(s);
            let w = unit_dir(
                if s < 4 {
                    s + 2
                } else {
                    s - 4
                },
            );
            spec_ccw(spec_rel_neg(RelativeHexCoord { q: u.0 as i8, r: u.1 as i8 }))
                == (RelativeHexCoord { q: w.0 as i8, r: w.1 as i8 })
        }),
{
    lemma_wrap_signed_small(-2);
    lemma_wrap_signed_small(-1);
    lemma_wrap_signed_small(0);
    lemma_wrap_signed_small(1);
    lemma_wrap_signed_small(2);
}

} // verus!
