//! The jittered sites of the integer lattice.
//!
//! Every lattice cell holds one site. Where in its cell the site lies, and
//! whether it is open, are hashes of the cell's coordinate and the seed, so a
//! site is computed afresh whenever it is looked at. A query looks at the
//! nine sites of the 3 by 3 block of cells around the cell it falls into.

use crate::hash::khash;
use crate::hash::khash2i;
use crate::hash::khash2i_injective_in_seed;
use crate::hash::khash_injective;
use crate::hash::spec_khash;
use crate::hash::spec_khash2i;
use crate::salt::odd_salt_injective;
use crate::salt::JITTER_Y_SALT;
use vstd::prelude::*;

verus! {

/// Number of sites that a query looks at.
pub const SITES: usize = 9;

/// One site in `OPEN_ONE_IN` is open, on average.
pub const OPEN_ONE_IN: u32 = 6;

/// The site of one lattice cell.
///
/// The site lies at `(x + jitter_x / D, y + jitter_y / D)` with
/// `D = 4294967295`: the two jitters are the numerators of its offset into
/// the cell.
#[derive(Clone, Copy, Debug, PartialEq, Eq, Structural)]
pub struct Site {
    pub x: i32,
    pub y: i32,
    pub hash: u32,
    pub jitter_x: u32,
    pub jitter_y: u32,
    pub open: bool,
}

/// The four lattice values between which a noise sample interpolates: the
/// numerators, over 4294967295, of the values at the corners of a cell.
#[derive(Clone, Copy, Debug, PartialEq, Eq, Structural)]
pub struct CornerValues {
    pub v00: u32,
    pub v10: u32,
    pub v01: u32,
    pub v11: u32,
}

/// The site of the cell `(x, y)` under a seed.
pub open spec fn spec_site(x: i32, y: i32, seed: u32) -> Site {
    let hash = spec_khash2i(x, y, seed);
    Site {
        x,
        y,
        hash,
        jitter_x: spec_khash(hash),
        jitter_y: spec_khash(hash.wrapping_mul(JITTER_Y_SALT)),
        open: spec_khash(hash) % OPEN_ONE_IN == 0,
    }
}

/// Horizontal offset of the `k`-th cell of a block from its centre.
pub open spec fn offset_x(k: int) -> int {
    k / 3 - 1
}

/// Vertical offset of the `k`-th cell of a block from its centre.
pub open spec fn offset_y(k: int) -> int {
    k % 3 - 1
}

/// The nine sites around the cell `(cx, cy)`, column by column: the offsets
/// run through (-1,-1), (-1,0), (-1,1), (0,-1), (0,0), (0,1), (1,-1), (1,0),
/// (1,1).
pub open spec fn spec_site_block(cx: i32, cy: i32, seed: u32) -> Seq<Site> {
    Seq::new(
        SITES as nat,
        |k: int| spec_site((cx + offset_x(k)) as i32, (cy + offset_y(k)) as i32, seed),
    )
}

/// The value of the lattice point `(x, y)` under a seed, as a numerator.
pub open spec fn spec_lattice_value(x: i32, y: i32, seed: u32) -> u32 {
    spec_khash(spec_khash2i(x, y, seed))
}

/// Whether a cell has all eight neighbours among the lattice coordinates.
pub open spec fn has_neighbours(cx: i32, cy: i32) -> bool {
    i32::MIN < cx < i32::MAX && i32::MIN < cy < i32::MAX
}

/// The site of a cell moves whenever the seed changes: under two different
/// seeds its hash and both of its jitters differ.
pub proof fn site_depends_on_seed(x: i32, y: i32, seed1: u32, seed2: u32)
    requires
        seed1 != seed2,
    ensures
        spec_site(x, y, seed1).hash != spec_site(x, y, seed2).hash,
        spec_site(x, y, seed1).jitter_x != spec_site(x, y, seed2).jitter_x,
        spec_site(x, y, seed1).jitter_y != spec_site(x, y, seed2).jitter_y,
{
    let h1 = spec_khash2i(x, y, seed1);
    let h2 = spec_khash2i(x, y, seed2);
    if h1 == h2 {
        khash2i_injective_in_seed(x, y, seed1, seed2);
    }
    if spec_khash(h1) == spec_khash(h2) {
        khash_injective(h1, h2);
    }
    if spec_khash(h1.wrapping_mul(JITTER_Y_SALT)) == spec_khash(h2.wrapping_mul(JITTER_Y_SALT)) {
        khash_injective(h1.wrapping_mul(JITTER_Y_SALT), h2.wrapping_mul(JITTER_Y_SALT));
        odd_salt_injective(h1, h2, JITTER_Y_SALT);
    }
}

/// The site of one lattice cell.
pub fn site(x: i32, y: i32, seed: u32) -> (s: Site)
    ensures
        s == spec_site(x, y, seed),
{
    let hash = khash2i(x, y, seed);
    let jitter_x = khash(hash);
    Site {
        x,
        y,
        hash,
        jitter_x,
        jitter_y: khash(hash.wrapping_mul(JITTER_Y_SALT)),
        open: jitter_x % OPEN_ONE_IN == 0,
    }
}

/// The nine sites around the cell `(cx, cy)`, in the order of
/// `spec_site_block`.
pub fn site_block(cx: i32, cy: i32, seed: u32) -> (sites: [Site; 9])
    requires
        has_neighbours(cx, cy),
    ensures
        sites@ == spec_site_block(cx, cy, seed),
{
    let mut sites = [site(cx, cy, seed); 9];
    let mut k: usize = 0;
    while k < SITES
        invariant
            k <= SITES,
            has_neighbours(cx, cy),
            forall|i: int|
                0 <= i < k ==> sites@[i] == spec_site(
                    (cx + offset_x(i)) as i32,
                    (cy + offset_y(i)) as i32,
                    seed,
                ),
        decreases SITES - k,
    {
        let dx: i32 = (k / 3) as i32 - 1;
        let dy: i32 = (k % 3) as i32 - 1;
        sites[k] = site(cx + dx, cy + dy, seed);
        k += 1;
    }
    sites
}

/// The lattice values at the corners of the cell `(x0, y0)`.
pub fn corner_values(x0: i32, y0: i32, seed: u32) -> (c: CornerValues)
    requires
        x0 < i32::MAX,
        y0 < i32::MAX,
    ensures
        c.v00 == spec_lattice_value(x0, y0, seed),
        c.v10 == spec_lattice_value((x0 + 1) as i32, y0, seed),
        c.v01 == spec_lattice_value(x0, (y0 + 1) as i32, seed),
        c.v11 == spec_lattice_value((x0 + 1) as i32, (y0 + 1) as i32, seed),
{
    let x1 = x0 + 1;
    let y1 = y0 + 1;
    CornerValues {
        v00: khash(khash2i(x0, y0, seed)),
        v10: khash(khash2i(x1, y0, seed)),
        v01: khash(khash2i(x0, y1, seed)),
        v11: khash(khash2i(x1, y1, seed)),
    }
}

} // verus!
