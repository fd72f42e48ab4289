//! Axial/cubic coordinate algebra for hexagonal grids.
//!
//! An absolute position is an axial pair `(q, r)` of eight-bit unsigned
//! components; a relative displacement is an axial pair of eight-bit signed
//! components.  The derived cubic triple `(x, y, z) = (q, -q-r, r)` satisfies
//! `x + y + z = 0`.  All component arithmetic wraps on overflow of the
//! underlying eight-bit width: wraparound is defined behaviour, never a panic.

use vstd::prelude::*;
use vstd::arithmetic::div_mod::{
    lemma_fundamental_div_mod, lemma_mod_bound, lemma_mod_multiples_vanish, lemma_small_mod,
};

verus! {

/// The representative in `[-128, 127]` of `v`'s residue class mod 256: the
/// value an eight-bit signed component wraps to.
pub open spec fn wrap_signed(v: int) -> int {
    if v % 256 < 128 {
        v % 256
    } else {
        v % 256 - 256
    }
}

/// The representative in `[0, 255]` of `v`'s residue class mod 256: the
/// value an eight-bit unsigned component wraps to.
pub open spec fn wrap_unsigned(v: int) -> int {
    v % 256
}

/// Two integers denote the same eight-bit value.
pub open spec fn congruent(a: int, b: int) -> bool {
    (a - b) % 256 == 0
}

pub proof fn lemma_wrap_signed_bounds(v: int)
    ensures
        -128 <= wrap_signed(v) <= 127,
{
    lemma_mod_bound(v, 256);
}

pub proof fn lemma_wrap_unsigned_bounds(v: int)
    ensures
        0 <= wrap_unsigned(v) <= 255,
{
    lemma_mod_bound(v, 256);
}

/// Wrapping a value already in the signed eight-bit range leaves it unchanged.
pub proof fn lemma_wrap_signed_small(v: int)
    requires
        -128 <= v <= 127,
    ensures
        wrap_signed(v) == v,
{
    if v >= 0 {
        lemma_small_mod(v as nat, 256);
    } else {
        lemma_mod_multiples_vanish(1, v, 256);
        lemma_small_mod((v + 256) as nat, 256);
    }
}

/// Wrapping a value already in the unsigned eight-bit range leaves it
/// unchanged.
pub proof fn lemma_wrap_unsigned_small(v: int)
    requires
        0 <= v <= 255,
    ensures
        wrap_unsigned(v) == v,
{
    lemma_small_mod(v as nat, 256);
}

/// A sum of two multiples of 256 is a multiple of 256.
proof fn lemma_zero_mod_add(x: int, y: int)
    requires
        x % 256 == 0,
        y % 256 == 0,
    ensures
        (x + y) % 256 == 0,
{
    lemma_fundamental_div_mod(x, 256);
    lemma_fundamental_div_mod(y, 256);
    assert(x + y == 256 * (x / 256 + y / 256));
    lemma_mod_multiples_vanish(x / 256 + y / 256, 0, 256);
}

/// Congruence is symmetric.
pub proof fn lemma_congruent_sym(a: int, b: int)
    requires
        congruent(a, b),
    ensures
        congruent(b, a),
{
    lemma_fundamental_div_mod(a - b, 256);
    assert(b - a == 256 * (-((a - b) / 256)));
    lemma_mod_multiples_vanish(-((a - b) / 256), 0, 256);
}

/// Congruence is transitive.
pub proof fn lemma_congruent_trans(a: int, b: int, c: int)
    requires
        congruent(a, b),
        congruent(b, c),
    ensures
        congruent(a, c),
{
    lemma_zero_mod_add(a - b, b - c);
    assert(a - c == (a - b) + (b - c));
}

/// Congruence is preserved by addition.
pub proof fn lemma_congruent_add(a: int, b: int, c: int, d: int)
    requires
        congruent(a, b),
        congruent(c, d),
    ensures
        congruent(a + c, b + d),
{
    lemma_zero_mod_add(a - b, c - d);
    assert((a + c) - (b + d) == (a - b) + (c - d));
}

/// Congruence is preserved by negation.
pub proof fn lemma_congruent_neg(a: int, b: int)
    requires
        congruent(a, b),
    ensures
        congruent(-a, -b),
{
    lemma_congruent_sym(a, b);
    assert((-a) - (-b) == b - a);
}

/// A wrapped value is congruent to the value it wraps.
pub proof fn lemma_wrap_signed_residue(v: int)
    ensures
        congruent(wrap_signed(v), v),
{
    lemma_fundamental_div_mod(v, 256);
    if v % 256 < 128 {
        assert(wrap_signed(v) - v == 256 * (-(v / 256)));
        lemma_mod_multiples_vanish(-(v / 256), 0, 256);
    } else {
        assert(wrap_signed(v) - v == 256 * (-(v / 256) - 1));
        lemma_mod_multiples_vanish(-(v / 256) - 1, 0, 256);
    }
}

/// A wrapped value is congruent to the value it wraps.
pub proof fn lemma_wrap_unsigned_residue(v: int)
    ensures
        congruent(wrap_unsigned(v), v),
{
    lemma_fundamental_div_mod(v, 256);
    assert(wrap_unsigned(v) - v == 256 * (-(v / 256)));
    lemma_mod_multiples_vanish(-(v / 256), 0, 256);
}

/// Congruent values wrap to the same signed representative.
pub proof fn lemma_wrap_signed_congruent(a: int, b: int)
    requires
        congruent(a, b),
    ensures
        wrap_signed(a) == wrap_signed(b),
{
    lemma_fundamental_div_mod(a - b, 256);
    let k = (a - b) / 256;
    assert(a == 256 * k + b);
    lemma_mod_multiples_vanish(k, b, 256);
    assert(a % 256 == b % 256);
}

/// Congruent values wrap to the same unsigned representative.
pub proof fn lemma_wrap_unsigned_congruent(a: int, b: int)
    requires
        congruent(a, b),
    ensures
        wrap_unsigned(a) == wrap_unsigned(b),
{
    lemma_fundamental_div_mod(a - b, 256);
    let k = (a - b) / 256;
    assert(a == 256 * k + b);
    lemma_mod_multiples_vanish(k, b, 256);
}

/// A value congruent to an in-range target is the target's wrap.
pub proof fn lemma_wrap_of_congruent(a: int, b: int)
    requires
        congruent(a, b),
        -128 <= a <= 127,
    ensures
        a == wrap_signed(b),
{
    lemma_wrap_signed_congruent(a, b);
    lemma_wrap_signed_small(a);
}

/// A value congruent to an in-range unsigned target is the target's wrap.
pub proof fn lemma_unsigned_wrap_of_congruent(a: int, b: int)
    requires
        congruent(a, b),
        0 <= a <= 255,
    ensures
        a == wrap_unsigned(b),
{
    lemma_wrap_unsigned_congruent(a, b);
    lemma_wrap_unsigned_small(a);
}

/// Reduce a widened sum or difference to the signed eight-bit range.
fn wrap_to_i8(v: i16) -> (r: i8)
    requires
        -384 <= v <= 383,
    ensures
        r as int == wrap_signed(v as int),
{
    proof {
        if v < -128 {
            lemma_mod_multiples_vanish(1, 0, 256);
            lemma_wrap_of_congruent(v as int + 256, v as int);
        } else if v > 127 {
            lemma_mod_multiples_vanish(-1, 0, 256);
            lemma_wrap_of_congruent(v as int - 256, v as int);
        } else {
            lemma_wrap_signed_small(v as int);
        }
    }
    if v < -128 {
        (v + 256) as i8
    } else if v > 127 {
        (v - 256) as i8
    } else {
        v as i8
    }
}

/// Reduce a widened sum or difference to the unsigned eight-bit range.
fn wrap_to_u8(v: i16) -> (r: u8)
    requires
        -256 <= v <= 511,
    ensures
        r as int == wrap_unsigned(v as int),
{
    proof {
        if v < 0 {
            lemma_mod_multiples_vanish(1, 0, 256);
            lemma_wrap_unsigned_congruent(v as int + 256, v as int);
            lemma_wrap_unsigned_small(v as int + 256);
        } else if v > 255 {
            lemma_mod_multiples_vanish(-1, 0, 256);
            lemma_wrap_unsigned_congruent(v as int - 256, v as int);
            lemma_wrap_unsigned_small(v as int - 256);
        } else {
            lemma_wrap_unsigned_small(v as int);
        }
    }
    if v < 0 {
        (v + 256) as u8
    } else if v > 255 {
        (v - 256) as u8
    } else {
        v as u8
    }
}

/// Reduce an eight-bit product to the signed eight-bit range.
fn wrap_mul_i8(a: i8, k: i8) -> (r: i8)
    ensures
        r as int == wrap_signed(a as int * k as int),
{
    proof {
        assert(-16256 <= a as int * k as int <= 16384) by (nonlinear_arith)
            requires
                -128 <= a as int <= 127,
                -128 <= k as int <= 127,
        ;
    }
    let p: i32 = (a as i32) * (k as i32);
    let s: u16 = (p + 16384) as u16;
    let m: u16 = s % 256;
    proof {
        lemma_mod_multiples_vanish(64, p as int, 256);
        assert(s as int == 256 * 64 + p as int);
        assert(m as int == (p as int) % 256);
        lemma_mod_bound(p as int, 256);
    }
    if m > 127 {
        (m as i16 - 256) as i8
    } else {
        m as i8
    }
}

/// An absolute axial position `(q, r)` on the grid.
#[derive(Clone, Copy, Default, Debug, Hash, PartialOrd, PartialEq, Ord, Eq, Structural)]
pub struct HexCoord {
    pub q: u8,
    pub r: u8,
}

/// A signed axial displacement `(q, r)`: a direction, offset or rotation
/// result.
#[derive(Clone, Copy, Default, Debug, Hash, PartialOrd, PartialEq, Ord, Eq, Structural)]
pub struct RelativeHexCoord {
    pub q: i8,
    pub r: i8,
}

/// Cubic `x` of an absolute position.
pub open spec fn cubic_x(c: HexCoord) -> int {
    c.q as int
}

/// Cubic `y` of an absolute position, derived so that `x + y + z == 0`.
pub open spec fn cubic_y(c: HexCoord) -> int {
    -(c.q as int) - (c.r as int)
}

/// Cubic `z` of an absolute position.
pub open spec fn cubic_z(c: HexCoord) -> int {
    c.r as int
}

/// Cubic `x` of a displacement.
pub open spec fn rel_cubic_x(c: RelativeHexCoord) -> int {
    c.q as int
}

/// Cubic `y` of a displacement, derived with eight-bit wraparound.
pub open spec fn rel_cubic_y(c: RelativeHexCoord) -> int {
    wrap_signed(-(c.q as int) - (c.r as int))
}

/// Cubic `z` of a displacement.
pub open spec fn rel_cubic_z(c: RelativeHexCoord) -> int {
    c.r as int
}

/// Componentwise wrapped translation of an absolute position.
pub open spec fn spec_abs_add(c: HexCoord, o: RelativeHexCoord) -> HexCoord {
    HexCoord {
        q: wrap_unsigned(c.q as int + o.q as int) as u8,
        r: wrap_unsigned(c.r as int + o.r as int) as u8,
    }
}

/// Componentwise wrapped inverse translation of an absolute position.
pub open spec fn spec_abs_sub_offset(c: HexCoord, o: RelativeHexCoord) -> HexCoord {
    HexCoord {
        q: wrap_unsigned(c.q as int - o.q as int) as u8,
        r: wrap_unsigned(c.r as int - o.r as int) as u8,
    }
}

/// Componentwise wrapped difference of two absolute positions.
pub open spec fn spec_abs_sub(a: HexCoord, b: HexCoord) -> RelativeHexCoord {
    RelativeHexCoord {
        q: wrap_signed(a.q as int - b.q as int) as i8,
        r: wrap_signed(a.r as int - b.r as int) as i8,
    }
}

/// Componentwise wrapped sum of two displacements.
pub open spec fn spec_rel_add(a: RelativeHexCoord, b: RelativeHexCoord) -> RelativeHexCoord {
    RelativeHexCoord {
        q: wrap_signed(a.q as int + b.q as int) as i8,
        r: wrap_signed(a.r as int + b.r as int) as i8,
    }
}

/// Componentwise wrapped difference of two displacements.
pub open spec fn spec_rel_sub(a: RelativeHexCoord, b: RelativeHexCoord) -> RelativeHexCoord {
    RelativeHexCoord {
        q: wrap_signed(a.q as int - b.q as int) as i8,
        r: wrap_signed(a.r as int - b.r as int) as i8,
    }
}

/// Componentwise wrapped negation of a displacement.
pub open spec fn spec_rel_neg(a: RelativeHexCoord) -> RelativeHexCoord {
    RelativeHexCoord {
        q: wrap_signed(-(a.q as int)) as i8,
        r: wrap_signed(-(a.r as int)) as i8,
    }
}

/// Componentwise wrapped scaling of a displacement.
pub open spec fn spec_rel_scale(a: RelativeHexCoord, k: int) -> RelativeHexCoord {
    RelativeHexCoord {
        q: wrap_signed(a.q as int * k) as i8,
        r: wrap_signed(a.r as int * k) as i8,
    }
}

/// A 60-degree clockwise rotation about the origin: the cubic triple is
/// cyclically permuted with a sign flip, `(x, y, z) -> (-z, -x, -y)`, which in
/// axial form is `(q, r) -> (-r, q + r)` under eight-bit wraparound.
pub open spec fn spec_cw(c: RelativeHexCoord) -> RelativeHexCoord {
    RelativeHexCoord {
        q: wrap_signed(-(c.r as int)) as i8,
        r: wrap_signed(c.q as int + c.r as int) as i8,
    }
}

/// A 60-degree counter-clockwise rotation about the origin: the inverse of
/// [`spec_cw`], in axial form `(q, r) -> (q + r, -q)` under eight-bit
/// wraparound.
pub open spec fn spec_ccw(c: RelativeHexCoord) -> RelativeHexCoord {
    RelativeHexCoord {
        q: wrap_signed(c.q as int + c.r as int) as i8,
        r: wrap_signed(-(c.q as int)) as i8,
    }
}

/// The absolute value of an integer.
pub open spec fn abs_val(v: int) -> int {
    if v < 0 {
        -v
    } else {
        v
    }
}

/// The maximum of three integers.
pub open spec fn max3(a: int, b: int, c: int) -> int {
    if a >= b && a >= c {
        a
    } else if b >= c {
        b
    } else {
        c
    }
}

/// The hex step distance of the displacement `(dq, dr)` from the origin:
/// the Chebyshev norm of its cubic triple.
pub open spec fn cheb(dq: int, dr: int) -> int {
    max3(abs_val(dq), abs_val(wrap_signed(-dq - dr)), abs_val(dr))
}

/// The hex step distance between two displacements.
pub open spec fn rel_dist(a: RelativeHexCoord, b: RelativeHexCoord) -> int {
    cheb(wrap_signed(a.q as int - b.q as int), wrap_signed(a.r as int - b.r as int))
}

/// The hex step distance between two absolute positions.
pub open spec fn hex_dist(a: HexCoord, b: HexCoord) -> int {
    cheb(wrap_signed(a.q as int - b.q as int), wrap_signed(a.r as int - b.r as int))
}

impl HexCoord {
    pub fn new_axial(q: u8, r: u8) -> (c: HexCoord)
        ensures
            c == (HexCoord { q, r }),
    {
        HexCoord { q, r }
    }

    pub fn q(&self) -> (v: u8)
        ensures
            v == self.q,
    {
        self.q
    }

    pub fn r(&self) -> (v: u8)
        ensures
            v == self.r,
    {
        self.r
    }

    pub fn to_axial_tuple(&self) -> (t: (u8, u8))
        ensures
            t == (self.q, self.r),
    {
        (self.q, self.r)
    }

    pub fn x(&self) -> (v: i16)
        ensures
            v as int == cubic_x(*self),
    {
        self.q as i16
    }

    pub fn y(&self) -> (v: i16)
        ensures
            v as int == cubic_y(*self),
    {
        -(self.q as i16) - (self.r as i16)
    }

    pub fn z(&self) -> (v: i16)
        ensures
            v as int == cubic_z(*self),
    {
        self.r as i16
    }

    pub fn to_cubic_tuple(&self) -> (t: (i16, i16, i16))
        ensures
            t.0 as int == cubic_x(*self),
            t.1 as int == cubic_y(*self),
            t.2 as int == cubic_z(*self),
    {
        (self.x(), self.y(), self.z())
    }

    /// Translate by a displacement, each axis wrapping mod 256.
    pub fn add(self, rhs: RelativeHexCoord) -> (c: HexCoord)
        ensures
            c == spec_abs_add(self, rhs),
    {
        proof {
            lemma_wrap_unsigned_bounds(self.q as int + rhs.q as int);
            lemma_wrap_unsigned_bounds(self.r as int + rhs.r as int);
        }
        HexCoord {
            q: wrap_to_u8(self.q as i16 + rhs.q as i16),
            r: wrap_to_u8(self.r as i16 + rhs.r as i16),
        }
    }

    /// Translate by the inverse of a displacement, each axis wrapping mod 256.
    pub fn sub_offset(self, rhs: RelativeHexCoord) -> (c: HexCoord)
        ensures
            c == spec_abs_sub_offset(self, rhs),
    {
        proof {
            lemma_wrap_unsigned_bounds(self.q as int - rhs.q as int);
            lemma_wrap_unsigned_bounds(self.r as int - rhs.r as int);
        }
        HexCoord {
            q: wrap_to_u8(self.q as i16 - rhs.q as i16),
            r: wrap_to_u8(self.r as i16 - rhs.r as i16),
        }
    }

    /// The displacement from `rhs` to `self`, each axis wrapping mod 256.
    pub fn sub(self, rhs: HexCoord) -> (d: RelativeHexCoord)
        ensures
            d == spec_abs_sub(self, rhs),
    {
        proof {
            lemma_wrap_signed_bounds(self.q as int - rhs.q as int);
            lemma_wrap_signed_bounds(self.r as int - rhs.r as int);
        }
        RelativeHexCoord {
            q: wrap_to_i8(self.q as i16 - rhs.q as i16),
            r: wrap_to_i8(self.r as i16 - rhs.r as i16),
        }
    }
}

impl RelativeHexCoord {
    pub fn new_axial(q: i8, r: i8) -> (c: RelativeHexCoord)
        ensures
            c == (RelativeHexCoord { q, r }),
    {
        RelativeHexCoord { q, r }
    }

    pub fn q(&self) -> (v: i8)
        ensures
            v == self.q,
    {
        self.q
    }

    pub fn r(&self) -> (v: i8)
        ensures
            v == self.r,
    {
        self.r
    }

    pub fn to_axial_tuple(&self) -> (t: (i8, i8))
        ensures
            t == (self.q, self.r),
    {
        (self.q, self.r)
    }

    pub fn x(&self) -> (v: i8)
        ensures
            v as int == rel_cubic_x(*self),
    {
        self.q
    }

    pub fn y(&self) -> (v: i8)
        ensures
            v as int == rel_cubic_y(*self),
    {
        wrap_to_i8(-(self.q as i16) - (self.r as i16))
    }

    pub fn z(&self) -> (v: i8)
        ensures
            v as int == rel_cubic_z(*self),
    {
        self.r
    }

    pub fn to_cubic_tuple(&self) -> (t: (i8, i8, i8))
        ensures
            t.0 as int == rel_cubic_x(*self),
            t.1 as int == rel_cubic_y(*self),
            t.2 as int == rel_cubic_z(*self),
    {
        (self.x(), self.y(), self.z())
    }

    /// Componentwise sum, wrapping mod 256.
    pub fn add(self, rhs: RelativeHexCoord) -> (c: RelativeHexCoord)
        ensures
            c == spec_rel_add(self, rhs),
    {
        proof {
            lemma_wrap_signed_bounds(self.q as int + rhs.q as int);
            lemma_wrap_signed_bounds(self.r as int + rhs.r as int);
        }
        RelativeHexCoord {
            q: wrap_to_i8(self.q as i16 + rhs.q as i16),
            r: wrap_to_i8(self.r as i16 + rhs.r as i16),
        }
    }

    /// Componentwise difference, wrapping mod 256.
    pub fn sub(self, rhs: RelativeHexCoord) -> (c: RelativeHexCoord)
        ensures
            c == spec_rel_sub(self, rhs),
    {
        proof {
            lemma_wrap_signed_bounds(self.q as int - rhs.q as int);
            lemma_wrap_signed_bounds(self.r as int - rhs.r as int);
        }
        RelativeHexCoord {
            q: wrap_to_i8(self.q as i16 - rhs.q as i16),
            r: wrap_to_i8(self.r as i16 - rhs.r as i16),
        }
    }

    /// Componentwise negation, wrapping mod 256.
    pub fn neg(self) -> (c: RelativeHexCoord)
        ensures
            c == spec_rel_neg(self),
    {
        proof {
            lemma_wrap_signed_bounds(-(self.q as int));
            lemma_wrap_signed_bounds(-(self.r as int));
        }
        RelativeHexCoord {
            q: wrap_to_i8(-(self.q as i16)),
            r: wrap_to_i8(-(self.r as i16)),
        }
    }

    /// Componentwise scaling, wrapping mod 256.
    pub fn scale(self, scale: i8) -> (c: RelativeHexCoord)
        ensures
            c == spec_rel_scale(self, scale as int),
    {
        proof {
            lemma_wrap_signed_bounds(self.q as int * scale as int);
            lemma_wrap_signed_bounds(self.r as int * scale as int);
        }
        RelativeHexCoord {
            q: wrap_mul_i8(self.q, scale),
            r: wrap_mul_i8(self.r, scale),
        }
    }

    /// Rotate 60 degrees clockwise about the origin.
    pub fn cw(self) -> (c: RelativeHexCoord)
        ensures
            c == spec_cw(self),
    {
        proof {
            lemma_wrap_signed_bounds(-(self.r as int));
            lemma_wrap_signed_bounds(self.q as int + self.r as int);
        }
        RelativeHexCoord {
            q: wrap_to_i8(-(self.r as i16)),
            r: wrap_to_i8(self.q as i16 + self.r as i16),
        }
    }

    /// Rotate 60 degrees counter-clockwise about the origin.
    pub fn ccw(self) -> (c: RelativeHexCoord)
        ensures
            c == spec_ccw(self),
    {
        proof {
            lemma_wrap_signed_bounds(self.q as int + self.r as int);
            lemma_wrap_signed_bounds(-(self.q as int));
        }
        RelativeHexCoord {
            q: wrap_to_i8(self.q as i16 + self.r as i16),
            r: wrap_to_i8(-(self.q as i16)),
        }
    }

    /// The hex step distance to another displacement.
    pub fn distance_to(self, other: RelativeHexCoord) -> (d: u8)
        ensures
            d as int == rel_dist(self, other),
    {
        proof {
            lemma_wrap_signed_bounds(self.q as int - other.q as int);
            lemma_wrap_signed_bounds(self.r as int - other.r as int);
        }
        let diff = self.sub(other);
        let dx: i16 = diff.q as i16;
        let dz: i16 = diff.r as i16;
        let dy: i16 = wrap_to_i8(-dx - dz) as i16;
        let ax: i16 = if dx < 0 {
            -dx
        } else {
            dx
        };
        let ay: i16 = if dy < 0 {
            -dy
        } else {
            dy
        };
        let az: i16 = if dz < 0 {
            -dz
        } else {
            dz
        };
        let m: i16 = if ax >= ay && ax >= az {
            ax
        } else if ay >= az {
            ay
        } else {
            az
        };
        m as u8
    }
}

/// The cubic triple of an absolute position always sums to zero.
pub proof fn lemma_cubic_sum_zero(c: HexCoord)
    ensures
        cubic_x(c) + cubic_y(c) + cubic_z(c) == 0,
{
}

/// The cubic triple of a displacement sums to zero under eight-bit
/// wraparound.
pub proof fn lemma_rel_cubic_sum_zero(c: RelativeHexCoord)
    ensures
        wrap_signed(rel_cubic_x(c) + wrap_signed(rel_cubic_y(c) + rel_cubic_z(c))) == 0,
{
    let q = c.q as int;
    let r = c.r as int;
    let y = rel_cubic_y(c);
    lemma_wrap_signed_bounds(-q - r);
    lemma_wrap_signed_bounds(y + r);
    lemma_wrap_signed_bounds(q + wrap_signed(y + r));
    lemma_wrap_signed_residue(-q - r);
    assert(congruent(q, q));
    assert(congruent(r, r));
    lemma_congruent_add(y, -q - r, r, r);
    lemma_wrap_signed_residue(y + r);
    lemma_congruent_trans(wrap_signed(y + r), y + r, -q);
    lemma_congruent_add(q, q, wrap_signed(y + r), -q);
    lemma_wrap_signed_residue(q + wrap_signed(y + r));
    lemma_congruent_trans(
        wrap_signed(q + wrap_signed(y + r)),
        q + wrap_signed(y + r),
        0,
    );
    lemma_wrap_signed_congruent(wrap_signed(q + wrap_signed(y + r)), 0);
    lemma_wrap_signed_small(wrap_signed(q + wrap_signed(y + r)));
    lemma_wrap_signed_small(0);
}

/// Helper: rotating clockwise maps a displacement congruent to `(q, r)` to
/// one congruent to `(-r, q + r)`.
proof fn lemma_cw_congruent(a: RelativeHexCoord, q: int, r: int)
    requires
        congruent(a.q as int, q),
        congruent(a.r as int, r),
    ensures
        congruent(spec_cw(a).q as int, -r),
        congruent(spec_cw(a).r as int, q + r),
{
    lemma_wrap_signed_bounds(-(a.r as int));
    lemma_wrap_signed_bounds(a.q as int + a.r as int);
    lemma_wrap_signed_residue(-(a.r as int));
    lemma_congruent_neg(a.r as int, r);
    lemma_congruent_trans(spec_cw(a).q as int, -(a.r as int), -r);
    lemma_wrap_signed_residue(a.q as int + a.r as int);
    lemma_congruent_add(a.q as int, q, a.r as int, r);
    lemma_congruent_trans(spec_cw(a).r as int, a.q as int + a.r as int, q + r);
}

/// Helper: rotating counter-clockwise maps a displacement congruent to
/// `(q, r)` to one congruent to `(q + r, -q)`.
proof fn lemma_ccw_congruent(a: RelativeHexCoord, q: int, r: int)
    requires
        congruent(a.q as int, q),
        congruent(a.r as int, r),
    ensures
        congruent(spec_ccw(a).q as int, q + r),
        congruent(spec_ccw(a).r as int, -q),
{
    lemma_wrap_signed_bounds(a.q as int + a.r as int);
    lemma_wrap_signed_bounds(-(a.q as int));
    lemma_wrap_signed_residue(a.q as int + a.r as int);
    lemma_congruent_add(a.q as int, q, a.r as int, r);
    lemma_congruent_trans(spec_ccw(a).q as int, a.q as int + a.r as int, q + r);
    lemma_wrap_signed_residue(-(a.q as int));
    lemma_congruent_neg(a.q as int, q);
    lemma_congruent_trans(spec_ccw(a).r as int, -(a.q as int), -q);
}

/// Helper: a displacement congruent componentwise to `(q, r)` equals the
/// componentwise wrap of `(q, r)`.
proof fn lemma_rel_from_congruent(a: RelativeHexCoord, q: int, r: int)
    requires
        congruent(a.q as int, q),
        congruent(a.r as int, r),
    ensures
        a.q as int == wrap_signed(q),
        a.r as int == wrap_signed(r),
{
    lemma_wrap_of_congruent(a.q as int, q);
    lemma_wrap_of_congruent(a.r as int, r);
}

/// Three clockwise rotations negate a displacement.
pub proof fn lemma_three_cw_negate(c: RelativeHexCoord)
    ensures
        spec_cw(spec_cw(spec_cw(c))) == spec_rel_neg(c),
{
    let q = c.q as int;
    let r = c.r as int;
    let c1 = spec_cw(c);
    let c2 = spec_cw(c1);
    let c3 = spec_cw(c2);
    lemma_wrap_signed_bounds(-q);
    lemma_wrap_signed_bounds(-r);
    assert(congruent(q, q));
    assert(congruent(r, r));
    lemma_cw_congruent(c, q, r);
    lemma_cw_congruent(c1, -r, q + r);
    assert(congruent(c2.q as int, -(q + r)));
    assert(congruent(c2.r as int, q)) by {
        assert(-r + (q + r) == q);
    }
    lemma_cw_congruent(c2, -(q + r), q);
    assert(congruent(c3.q as int, -q));
    assert(congruent(c3.r as int, -r)) by {
        assert(-(q + r) + q == -r);
    }
    lemma_rel_from_congruent(c3, -q, -r);
}

/// Three counter-clockwise rotations negate a displacement.
pub proof fn lemma_three_ccw_negate(c: RelativeHexCoord)
    ensures
        spec_ccw(spec_ccw(spec_ccw(c))) == spec_rel_neg(c),
{
    let q = c.q as int;
    let r = c.r as int;
    let c1 = spec_ccw(c);
    let c2 = spec_ccw(c1);
    let c3 = spec_ccw(c2);
    lemma_wrap_signed_bounds(-q);
    lemma_wrap_signed_bounds(-r);
    assert(congruent(q, q));
    assert(congruent(r, r));
    lemma_ccw_congruent(c, q, r);
    assert(congruent(c1.q as int, q + r));
    assert(congruent(c1.r as int, -q));
    lemma_ccw_congruent(c1, q + r, -q);
    assert(congruent(c2.q as int, r)) by {
        assert((q + r) + -q == r);
    }
    assert(congruent(c2.r as int, -(q + r)));
    lemma_ccw_congruent(c2, r, -(q + r));
    assert(congruent(c3.q as int, -q)) by {
        assert(r + -(q + r) == -q);
    }
    assert(congruent(c3.r as int, -r));
    lemma_rel_from_congruent(c3, -q, -r);
}

/// Three clockwise rotations equal three counter-clockwise rotations.
pub proof fn lemma_three_cw_three_ccw(c: RelativeHexCoord)
    ensures
        spec_cw(spec_cw(spec_cw(c))) == spec_ccw(spec_ccw(spec_ccw(c))),
{
    lemma_three_cw_negate(c);
    lemma_three_ccw_negate(c);
}

/// Wrapped negation is an involution.
pub proof fn lemma_neg_neg(c: RelativeHexCoord)
    ensures
        spec_rel_neg(spec_rel_neg(c)) == c,
{
    let q = c.q as int;
    let r = c.r as int;
    let n = spec_rel_neg(c);
    lemma_wrap_signed_bounds(-q);
    lemma_wrap_signed_bounds(-r);
    lemma_wrap_signed_bounds(-(n.q as int));
    lemma_wrap_signed_bounds(-(n.r as int));
    lemma_wrap_signed_residue(-q);
    lemma_wrap_signed_residue(-r);
    lemma_congruent_neg(n.q as int, -q);
    lemma_congruent_neg(n.r as int, -r);
    lemma_wrap_signed_residue(-(n.q as int));
    lemma_wrap_signed_residue(-(n.r as int));
    lemma_congruent_trans(spec_rel_neg(n).q as int, -(n.q as int), q);
    lemma_congruent_trans(spec_rel_neg(n).r as int, -(n.r as int), r);
    lemma_rel_from_congruent(spec_rel_neg(n), q, r);
    lemma_wrap_signed_small(q);
    lemma_wrap_signed_small(r);
}

/// Six clockwise rotations return a displacement unchanged.
pub proof fn lemma_six_cw_identity(c: RelativeHexCoord)
    ensures
        spec_cw(spec_cw(spec_cw(spec_cw(spec_cw(spec_cw(c)))))) == c,
{
    lemma_three_cw_negate(c);
    lemma_three_cw_negate(spec_rel_neg(c));
    lemma_neg_neg(c);
}

/// Six counter-clockwise rotations return a displacement unchanged.
pub proof fn lemma_six_ccw_identity(c: RelativeHexCoord)
    ensures
        spec_ccw(spec_ccw(spec_ccw(spec_ccw(spec_ccw(spec_ccw(c)))))) == c,
{
    lemma_three_ccw_negate(c);
    lemma_three_ccw_negate(spec_rel_neg(c));
    lemma_neg_neg(c);
}

} // verus!
