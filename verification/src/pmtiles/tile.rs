//! Tile coordinates and the Hilbert numbering that turns them into tile ids.

use vstd::arithmetic::power2::*;
use vstd::prelude::*;

verus! {

/// Highest zoom addressable by the Hilbert tile-id scheme.
pub const MAX_ZOOM: u8 = 26;

/// Position along the Hilbert curve of order `bits` of the cell `(x, y)` in a
/// `2^bits` by `2^bits` grid.
///
/// The grid is cut into four quadrants, visited lower-left, upper-left,
/// upper-right, lower-right (with `y` naming the axis that is crossed first).
/// The two quadrants at the ends of the walk hold a transposed copy of the
/// smaller curve, the last of them also turned around.
pub open spec fn hilbert(bits: nat, x: nat, y: nat) -> nat
    decreases bits,
{
    if bits == 0 {
        0
    } else {
        let half = pow2((bits - 1) as nat);
        let rest = (bits - 1) as nat;
        if y >= half {
            if x >= half {
                2 * (half * half) + hilbert(rest, (x - half) as nat, (y - half) as nat)
            } else {
                half * half + hilbert(rest, x, (y - half) as nat)
            }
        } else if x >= half {
            3 * (half * half) + hilbert(rest, (half - 1 - y) as nat, (2 * half - 1 - x) as nat)
        } else {
            hilbert(rest, y, x)
        }
    }
}

/// How many tiles exist at all zooms below `z`: `1 + 4 + ... + 4^(z-1)`.
pub open spec fn tiles_below(z: nat) -> nat
    decreases z,
{
    if z == 0 {
        0
    } else {
        tiles_below((z - 1) as nat) + pow2((z - 1) as nat) * pow2((z - 1) as nat)
    }
}

/// The archive-wide id of tile `(z, x, y)`.
pub open spec fn tile_number(z: nat, x: nat, y: nat) -> nat {
    tiles_below(z) + hilbert(z, x, y)
}

/// Whether `(z, x, y)` names a tile: a zoom in range and a cell in its grid.
pub open spec fn addressable(z: nat, x: nat, y: nat) -> bool {
    z <= MAX_ZOOM && x < pow2(z) && y < pow2(z)
}

proof fn lemma_square_quadruples(n: nat)
    requires
        n > 0,
    ensures
        pow2(n) == 2 * pow2((n - 1) as nat),
        pow2(n) * pow2(n) == 4 * (pow2((n - 1) as nat) * pow2((n - 1) as nat)),
        pow2((n - 1) as nat) > 0,
{
    lemma_pow2_unfold(n);
    lemma_pow2_pos((n - 1) as nat);
    let h = pow2((n - 1) as nat);
    assert((2 * h) * (2 * h) == 4 * (h * h)) by (nonlinear_arith);
}

proof fn lemma_hilbert_bound(bits: nat, x: nat, y: nat)
    requires
        x < pow2(bits),
        y < pow2(bits),
    ensures
        hilbert(bits, x, y) < pow2(bits) * pow2(bits),
    decreases bits,
{
    if bits == 0 {
        lemma2_to64();
        assert(pow2(0) * pow2(0) == 1) by (nonlinear_arith)
            requires
                pow2(0) == 1,
        ;
    } else {
        lemma_square_quadruples(bits);
        let half = pow2((bits - 1) as nat);
        let rest = (bits - 1) as nat;
        if y >= half {
            if x >= half {
                lemma_hilbert_bound(rest, (x - half) as nat, (y - half) as nat);
            } else {
                lemma_hilbert_bound(rest, x, (y - half) as nat);
            }
        } else if x >= half {
            lemma_hilbert_bound(rest, (half - 1 - y) as nat, (2 * half - 1 - x) as nat);
        } else {
            lemma_hilbert_bound(rest, y, x);
        }
    }
}

proof fn lemma_hilbert_injective(bits: nat, x1: nat, y1: nat, x2: nat, y2: nat)
    requires
        x1 < pow2(bits),
        y1 < pow2(bits),
        x2 < pow2(bits),
        y2 < pow2(bits),
        hilbert(bits, x1, y1) == hilbert(bits, x2, y2),
    ensures
        x1 == x2,
        y1 == y2,
    decreases bits,
{
    if bits == 0 {
        lemma2_to64();
    } else {
        lemma_square_quadruples(bits);
        let half = pow2((bits - 1) as nat);
        let rest = (bits - 1) as nat;
        let (a1, b1) = inner_cell(half, x1, y1);
        let (a2, b2) = inner_cell(half, x2, y2);
        lemma_hilbert_bound(rest, a1, b1);
        lemma_hilbert_bound(rest, a2, b2);
        lemma_hilbert_injective(rest, a1, b1, a2, b2);
    }
}

/// The cell of the next smaller curve that a cell falls on.
spec fn inner_cell(half: nat, x: nat, y: nat) -> (nat, nat) {
    if y >= half {
        if x >= half {
            ((x - half) as nat, (y - half) as nat)
        } else {
            (x, (y - half) as nat)
        }
    } else if x >= half {
        ((half - 1 - y) as nat, (2 * half - 1 - x) as nat)
    } else {
        (y, x)
    }
}

/// The walk begins in the corner of the grid.
proof fn lemma_hilbert_first(bits: nat, x: nat, y: nat)
    requires
        x < pow2(bits),
        y < pow2(bits),
        hilbert(bits, x, y) == 0,
    ensures
        x == 0,
        y == 0,
    decreases bits,
{
    if bits == 0 {
        lemma2_to64();
    } else {
        lemma_square_quadruples(bits);
        let half = pow2((bits - 1) as nat);
        assert(half * half > 0) by (nonlinear_arith)
            requires
                half > 0,
        ;
        assert(x < half && y < half);
        lemma_hilbert_first((bits - 1) as nat, y, x);
    }
}

/// The walk ends at the far end of the first row.
proof fn lemma_hilbert_last(bits: nat, x: nat, y: nat)
    requires
        x < pow2(bits),
        y < pow2(bits),
        hilbert(bits, x, y) == pow2(bits) * pow2(bits) - 1,
    ensures
        x == pow2(bits) - 1,
        y == 0,
    decreases bits,
{
    if bits == 0 {
        lemma2_to64();
    } else {
        lemma_square_quadruples(bits);
        let half = pow2((bits - 1) as nat);
        let (a, b) = inner_cell(half, x, y);
        lemma_hilbert_bound((bits - 1) as nat, a, b);
        assert(x >= half && y < half);
        lemma_hilbert_last((bits - 1) as nat, a, b);
    }
}

/// Whether two cells have an edge in common.
pub open spec fn share_an_edge(x1: nat, y1: nat, x2: nat, y2: nat) -> bool {
    ||| x1 == x2 && (y1 + 1 == y2 || y2 + 1 == y1)
    ||| y1 == y2 && (x1 + 1 == x2 || x2 + 1 == x1)
}

proof fn lemma_hilbert_neighbours(bits: nat, x1: nat, y1: nat, x2: nat, y2: nat)
    requires
        x1 < pow2(bits),
        y1 < pow2(bits),
        x2 < pow2(bits),
        y2 < pow2(bits),
        hilbert(bits, x1, y1) + 1 == hilbert(bits, x2, y2),
    ensures
        share_an_edge(x1, y1, x2, y2),
    decreases bits,
{
    if bits > 0 {
        lemma_square_quadruples(bits);
        let half = pow2((bits - 1) as nat);
        let rest = (bits - 1) as nat;
        let (a1, b1) = inner_cell(half, x1, y1);
        let (a2, b2) = inner_cell(half, x2, y2);
        lemma_hilbert_bound(rest, a1, b1);
        lemma_hilbert_bound(rest, a2, b2);
        if (x1 >= half) == (x2 >= half) && (y1 >= half) == (y2 >= half) {
            lemma_hilbert_neighbours(rest, a1, b1, a2, b2);
        } else {
            assert(hilbert(rest, a1, b1) == half * half - 1);
            assert(hilbert(rest, a2, b2) == 0);
            lemma_hilbert_last(rest, a1, b1);
            lemma_hilbert_first(rest, a2, b2);
        }
    }
}

proof fn lemma_tiles_below_monotone(a: nat, b: nat)
    requires
        a <= b,
    ensures
        tiles_below(a) <= tiles_below(b),
    decreases b,
{
    if a < b {
        lemma_tiles_below_monotone(a, (b - 1) as nat);
    }
}

proof fn lemma_tiles_below_closed_form(z: nat)
    ensures
        3 * tiles_below(z) + 1 == pow2(z) * pow2(z),
    decreases z,
{
    if z == 0 {
        lemma2_to64();
    } else {
        lemma_square_quadruples(z);
        lemma_tiles_below_closed_form((z - 1) as nat);
    }
}

/// Every tile's id lies in the band of its own zoom: at or above the number of
/// tiles at lower zooms, and below the number of tiles up to and including it.
pub proof fn law_tile_number_in_band(z: nat, x: nat, y: nat)
    requires
        addressable(z, x, y),
    ensures
        tiles_below(z) <= tile_number(z, x, y) < tiles_below(z) + pow2(z) * pow2(z),
        tile_number(z, x, y) < tiles_below(z + 1),
{
    lemma_hilbert_bound(z, x, y);
}

pub proof fn lemma_tile_number_fits(z: nat, x: nat, y: nat)
    requires
        addressable(z, x, y),
    ensures
        tile_number(z, x, y) < 0x40_0000_0000_0000,
{
    law_tile_number_in_band(z, x, y);
    lemma_tiles_below_monotone(z + 1, 27);
    lemma_tiles_below_closed_form(27);
    lemma2_to64();
    assert(pow2(27) * pow2(27) == 0x40_0000_0000_0000) by (nonlinear_arith)
        requires
            pow2(27) == 0x800_0000,
    ;
}

/// No two tiles share an id, whatever their zooms.
pub proof fn law_tile_numbers_distinct(z1: nat, x1: nat, y1: nat, z2: nat, x2: nat, y2: nat)
    requires
        addressable(z1, x1, y1),
        addressable(z2, x2, y2),
        tile_number(z1, x1, y1) == tile_number(z2, x2, y2),
    ensures
        z1 == z2,
        x1 == x2,
        y1 == y2,
{
    law_tile_number_in_band(z1, x1, y1);
    law_tile_number_in_band(z2, x2, y2);
    if z1 < z2 {
        lemma_tiles_below_monotone(z1 + 1, z2);
    } else if z2 < z1 {
        lemma_tiles_below_monotone(z2 + 1, z1);
    } else {
        lemma_hilbert_injective(z1, x1, y1, x2, y2);
    }
}

/// Tiles of one zoom whose ids follow each other lie side by side on the map.
pub proof fn law_consecutive_tiles_share_an_edge(z: nat, x1: nat, y1: nat, x2: nat, y2: nat)
    requires
        addressable(z, x1, y1),
        addressable(z, x2, y2),
        tile_number(z, x1, y1) + 1 == tile_number(z, x2, y2),
    ensures
        share_an_edge(x1, y1, x2, y2),
{
    lemma_hilbert_neighbours(z, x1, y1, x2, y2);
}

/// A tile map coordinate that is known to be addressable: `z` within the
/// Hilbert scheme's range and `x` and `y` inside the `2^z` grid.
#[derive(Debug, Clone, Copy, PartialEq, Eq, Structural)]
pub struct TileCoord {
    z: u8,
    x: u32,
    y: u32,
}

impl TileCoord {
    #[verifier::type_invariant]
    spec fn wf(self) -> bool {
        addressable(self.z as nat, self.x as nat, self.y as nat)
    }

    pub closed spec fn spec_z(self) -> nat {
        self.z as nat
    }

    pub closed spec fn spec_x(self) -> nat {
        self.x as nat
    }

    pub closed spec fn spec_y(self) -> nat {
        self.y as nat
    }

    /// `None` exactly when the coordinate cannot name a tile: past the highest
    /// zoom, or a column or row outside the grid.
    pub fn new(z: u8, x: u32, y: u32) -> (coord: Option<Self>)
        ensures
            coord is Some <==> addressable(z as nat, x as nat, y as nat),
            coord matches Some(c) ==> c.spec_z() == z && c.spec_x() == x && c.spec_y() == y,
    {
        if z > MAX_ZOOM {
            return None;
        }
        let side: u64 = side_of(z);
        if x as u64 >= side || y as u64 >= side {
            return None;
        }
        Some(Self { z, x, y })
    }

    pub fn z(self) -> (z: u8)
        ensures
            z == self.spec_z(),
    {
        self.z
    }

    pub fn x(self) -> (x: u32)
        ensures
            x == self.spec_x(),
    {
        self.x
    }

    pub fn y(self) -> (y: u32)
        ensures
            y == self.spec_y(),
    {
        self.y
    }

    /// The tile id: the count of all tiles below this zoom, plus the
    /// Hilbert-curve index of the cell within it.
    pub fn tile_id(self) -> (id: u64)
        ensures
            id == tile_number(self.spec_z(), self.spec_x(), self.spec_y()),
    {
        proof {
            use_type_invariant(self);
        }
        let ghost z = self.z as nat;
        let side: u64 = side_of(self.z);
        proof {
            lemma2_to64();
            if self.z < 26 {
                lemma_pow2_strictly_increases(z, 26);
            }
            assert(side * side <= 0x10_0000_0000_0000) by (nonlinear_arith)
                requires
                    0 <= side <= 0x400_0000,
            ;
            lemma_tiles_below_closed_form(z);
            lemma_hilbert_bound(z, self.x as nat, self.y as nat);
        }
        let base: u64 = (side * side - 1) / 3;
        let mut tx: u64 = self.x as u64;
        let mut ty: u64 = self.y as u64;
        let mut d: u64 = 0;
        let mut s: u64 = side / 2;
        let ghost mut k: nat = z;
        proof {
            if z > 0 {
                lemma_pow2_unfold(z);
            }
        }
        while s > 0
            invariant
                k == 0 ==> s == 0,
                k > 0 ==> s == pow2((k - 1) as nat),
                k <= 26,
                tx < pow2(k),
                ty < pow2(k),
                d + hilbert(k, tx as nat, ty as nat) == hilbert(z, self.x as nat, self.y as nat),
                hilbert(z, self.x as nat, self.y as nat) < 0x10_0000_0000_0000,
            decreases s,
        {
            proof {
                lemma_square_quadruples(k);
                lemma2_to64();
                if k - 1 < 25 {
                    lemma_pow2_strictly_increases((k - 1) as nat, 25);
                }
                assert(s * s <= 0x4_0000_0000_0000) by (nonlinear_arith)
                    requires
                        0 <= s <= 0x200_0000,
                ;
                if k > 1 {
                    lemma_pow2_unfold((k - 1) as nat);
                }
                k = (k - 1) as nat;
            }
            let square: u64 = s * s;
            if ty >= s {
                ty = ty - s;
                if tx >= s {
                    tx = tx - s;
                    d = d + 2 * square;
                } else {
                    d = d + square;
                }
            } else {
                let (px, py) = (tx, ty);
                if px >= s {
                    d = d + 3 * square;
                    tx = s - 1 - py;
                    ty = 2 * s - 1 - px;
                } else {
                    tx = py;
                    ty = px;
                }
            }
            s = s / 2;
        }
        proof {
            if k > 0 {
                lemma_pow2_pos((k - 1) as nat);
            }
        }
        base + d
    }
}

/// How many tiles one row of zoom `z` has.
fn side_of(z: u8) -> (side: u64)
    requires
        z <= MAX_ZOOM,
    ensures
        side == pow2(z as nat),
{
    let mut side: u64 = 1;
    let mut i: u8 = 0;
    proof {
        lemma2_to64();
    }
    while i < z
        invariant
            i <= z <= 26,
            side == pow2(i as nat),
        decreases z - i,
    {
        proof {
            lemma2_to64();
            lemma_pow2_unfold((i + 1) as nat);
            lemma_pow2_strictly_increases(i as nat, 26);
        }
        side = 2 * side;
        i = i + 1;
    }
    side
}

/// Within a level the tiles of the first quarter are those of the upper left,
/// those of the second lie below them, those of the third beside these, and the
/// last quarter is that of the upper right: the curve starts at the upper left
/// and ends at the upper right.
pub proof fn law_quarters_follow_each_other(z: nat, x: nat, y: nat)
    requires
        addressable(z + 1, x, y),
    ensures
        ({
            let half = pow2(z);
            let quarter = half * half;
            let place = tile_number(z + 1, x, y) - tiles_below(z + 1);
            &&& x < half && y < half ==> 0 <= place < quarter
            &&& x < half && y >= half ==> quarter <= place < 2 * quarter
            &&& x >= half && y >= half ==> 2 * quarter <= place < 3 * quarter
            &&& x >= half && y < half ==> 3 * quarter <= place < 4 * quarter
        }),
{
    let half = pow2(z);
    lemma_square_quadruples(z + 1);
    let (ix, iy) = inner_cell(half, x, y);
    assert(half * half >= 0) by (nonlinear_arith);
    lemma_hilbert_bound(z, ix, iy);
}

} // verus!
