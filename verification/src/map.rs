//! Map context, validity, wrap repair and dense indexing.
//!
//! A [`HexMapContext`] gives the inclusive axial bounds of a rectangular map
//! and whether the horizontal axis wraps.  A coordinate is *technically
//! valid* when its r-axis is in range and its q-axis is either in range or
//! repairable by wrapping; it is *fully valid* when both axes are in range
//! with no repair needed.  Revalidation repairs a technically valid
//! coordinate by taking the q-axis modulo `width + 1`; indexing revalidates
//! and then computes `q + r * width`.

use vstd::prelude::*;
use vstd::arithmetic::div_mod::{lemma_mod_bound, lemma_mod_multiples_vanish};
use crate::coord::{
    hex_dist, lemma_congruent_add, lemma_congruent_sym, lemma_unsigned_wrap_of_congruent,
    lemma_wrap_signed_bounds, lemma_wrap_signed_residue, lemma_wrap_signed_small,
    spec_abs_add, spec_abs_sub, HexCoord, RelativeHexCoord,
};

verus! {

/// Bounded-rectangle map parameters: `width` and `height` are the maximum
/// valid axial index on each axis (inclusive), and `wrap_x` makes the map
/// cylindrical by taking the q-axis modulo `width + 1`.
#[derive(Clone, Copy, Default, Debug, Hash, PartialOrd, PartialEq, Ord, Eq, Structural)]
pub struct HexMapContext {
    pub width: u8,
    pub height: u8,
    pub wrap_x: bool,
}

impl HexCoord {
    /// The r-axis is in range, and the q-axis is in range or wrapping will
    /// repair it.
    pub open spec fn spec_technically_valid(self, ctx: HexMapContext) -> bool {
        self.r <= ctx.height && (self.q <= ctx.width || ctx.wrap_x)
    }

    /// Both axes are in range: the coordinate needs no repair.
    pub open spec fn spec_fully_valid(self, ctx: HexMapContext) -> bool {
        self.q <= ctx.width && self.r <= ctx.height
    }

    /// A fully valid coordinate is returned unchanged; a technically valid
    /// one under wrapping has its q-axis reduced modulo `width + 1`; any
    /// other coordinate is unrecoverable.
    pub open spec fn spec_revalidate(self, ctx: HexMapContext) -> Option<HexCoord> {
        if self.spec_fully_valid(ctx) {
            Some(self)
        } else if self.spec_technically_valid(ctx) && ctx.wrap_x {
            Some(
                HexCoord {
                    q: (self.q as int % (ctx.width as int + 1)) as u8,
                    r: self.r,
                },
            )
        } else {
            None
        }
    }

    /// The dense storage index `q + r * width` of the revalidated
    /// coordinate, if revalidation succeeds.
    pub open spec fn spec_idx(self, ctx: HexMapContext) -> Option<int> {
        match self.spec_revalidate(ctx) {
            Some(c) => Some(c.q as int + c.r as int * ctx.width as int),
            None => None,
        }
    }

    /// Translate by `offset`: the result is rejected when its r-axis leaves
    /// `[0, height]`; its q-axis wraps modulo `width + 1` when wrapping is
    /// enabled and is otherwise rejected when it leaves `[0, width]`.
    pub open spec fn spec_offset_by(
        self,
        offset: RelativeHexCoord,
        ctx: HexMapContext,
    ) -> Option<HexCoord> {
        let q2 = self.q as int + offset.q as int;
        let r2 = self.r as int + offset.r as int;
        if r2 < 0 || r2 > ctx.height as int {
            None
        } else if ctx.wrap_x {
            Some(HexCoord { q: (q2 % (ctx.width as int + 1)) as u8, r: r2 as u8 })
        } else if q2 < 0 || q2 > ctx.width as int {
            None
        } else {
            Some(HexCoord { q: q2 as u8, r: r2 as u8 })
        }
    }

    pub fn is_technically_valid(&self, map_context: &HexMapContext) -> (b: bool)
        ensures
            b == self.spec_technically_valid(*map_context),
    {
        self.r <= map_context.height && (self.q <= map_context.width || map_context.wrap_x)
    }

    pub fn is_fully_valid(&self, map_context: &HexMapContext) -> (b: bool)
        ensures
            b == self.spec_fully_valid(*map_context),
    {
        self.q <= map_context.width && self.r <= map_context.height
    }

    /// Attempt to convert a technically valid coordinate into a fully valid
    /// one, wrapping the q-axis where the context allows it.
    pub fn revalidate(&self, map_context: &HexMapContext) -> (res: Option<HexCoord>)
        ensures
            res == self.spec_revalidate(*map_context),
            res is Some <==> self.spec_technically_valid(*map_context),
    {
        if self.is_fully_valid(map_context) {
            Some(*self)
        } else if self.is_technically_valid(map_context) && map_context.wrap_x {
            let w: u16 = map_context.width as u16 + 1;
            let nq: u16 = (self.q as u16) % w;
            proof {
                lemma_mod_bound(self.q as int, map_context.width as int + 1);
            }
            Some(HexCoord { q: nq as u8, r: self.r })
        } else {
            None
        }
    }

    /// Convert a coordinate into a dense storage index, revalidating it
    /// first.  The index exists exactly when the coordinate is technically
    /// valid.
    pub fn idx(&self, map_context: &HexMapContext) -> (res: Option<usize>)
        ensures
            res matches Some(i) ==> self.spec_idx(*map_context) == Some(i as int),
            res is Some <==> self.spec_technically_valid(*map_context),
    {
        match self.revalidate(map_context) {
            Some(v) => {
                proof {
                    assert(0 <= v.r as int * map_context.width as int <= 65025)
                        by (nonlinear_arith)
                        requires
                            0 <= v.r as int <= 255,
                            0 <= map_context.width as int <= 255,
                    ;
                }
                Some(v.q as usize + v.r as usize * map_context.width as usize)
            },
            None => None,
        }
    }

    /// Translate by `offset`, rejecting a result whose r-axis is out of
    /// range and wrapping or rejecting its q-axis as the context directs.
    pub fn offset_by(
        &self,
        offset: &RelativeHexCoord,
        map_context: &HexMapContext,
    ) -> (res: Option<HexCoord>)
        ensures
            res == self.spec_offset_by(*offset, *map_context),
    {
        let q2: i32 = self.q as i32 + offset.q as i32;
        let r2: i32 = self.r as i32 + offset.r as i32;
        if r2 < 0 || r2 > map_context.height as i32 {
            return None;
        }
        if map_context.wrap_x {
            let w: i32 = map_context.width as i32 + 1;
            let s: u32 = (q2 + 256 * w) as u32;
            let m: u32 = s % (w as u32);
            proof {
                lemma_mod_multiples_vanish(256, q2 as int, w as int);
                lemma_mod_bound(q2 as int, w as int);
            }
            Some(HexCoord { q: m as u8, r: r2 as u8 })
        } else if q2 < 0 || q2 > map_context.width as i32 {
            None
        } else {
            Some(HexCoord { q: q2 as u8, r: r2 as u8 })
        }
    }

    /// The hex step distance to another absolute position: the Chebyshev
    /// norm of the cubic triple of their wrapped difference.
    pub fn distance_to(&self, other: &HexCoord, map_context: &HexMapContext) -> (d: u8)
        ensures
            d as int == hex_dist(*self, *other),
    {
        let diff = self.sub(*other);
        let d = diff.distance_to(RelativeHexCoord { q: 0, r: 0 });
        proof {
            lemma_wrap_signed_bounds(self.q as int - other.q as int);
            lemma_wrap_signed_bounds(self.r as int - other.r as int);
            lemma_wrap_signed_small(diff.q as int);
            lemma_wrap_signed_small(diff.r as int);
        }
        d
    }

    /// The displacement that carries `self` to `other` under wraparound:
    /// the natural difference `other - self`.
    pub fn relative_position(
        &self,
        other: HexCoord,
        map_context: &HexMapContext,
    ) -> (d: RelativeHexCoord)
        ensures
            d == spec_abs_sub(other, *self),
            spec_abs_add(*self, d) == other,
    {
        let d = other.sub(*self);
        proof {
            lemma_abs_sub_add_inverse(*self, other);
        }
        d
    }
}

/// Translating a position by the wrapped difference to a target lands on
/// the target: `a + (b - a) == b` under eight-bit wraparound.
pub proof fn lemma_abs_sub_add_inverse(a: HexCoord, b: HexCoord)
    ensures
        spec_abs_add(a, spec_abs_sub(b, a)) == b,
{
    let dq = spec_abs_sub(b, a).q as int;
    let dr = spec_abs_sub(b, a).r as int;
    lemma_wrap_signed_bounds(b.q as int - a.q as int);
    lemma_wrap_signed_bounds(b.r as int - a.r as int);
    lemma_wrap_signed_residue(b.q as int - a.q as int);
    lemma_wrap_signed_residue(b.r as int - a.r as int);
    lemma_congruent_add(a.q as int, a.q as int, dq, b.q as int - a.q as int);
    lemma_congruent_add(a.r as int, a.r as int, dr, b.r as int - a.r as int);
    lemma_congruent_sym(a.q as int + dq, b.q as int);
    lemma_congruent_sym(a.r as int + dr, b.r as int);
    lemma_congruent_sym(b.q as int, a.q as int + dq);
    lemma_congruent_sym(b.r as int, a.r as int + dr);
    lemma_unsigned_wrap_of_congruent(b.q as int, a.q as int + dq);
    lemma_unsigned_wrap_of_congruent(b.r as int, a.r as int + dr);
}

/// With horizontal wrapping enabled, indexing never fails on account of the
/// q-axis: an index exists exactly when the r-axis is in range, whatever the
/// q value.
pub proof fn lemma_idx_wrap_total(c: HexCoord, ctx: HexMapContext)
    requires
        ctx.wrap_x,
    ensures
        c.spec_idx(ctx) is Some <==> c.r <= ctx.height,
{
}

} // verus!
