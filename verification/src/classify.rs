//! The rule that gives a pixel its terrain.
//!
//! What is measured at a pixel arrives as a `PixelSample`: where the warped
//! pixel lies on the lattice, its distance to each of the nine sites around
//! the cell that it falls into, how far apart those distances are, and the
//! noise levels that the rule looks at. The rule itself only compares: it
//! finds the nearest site, asks whether that site is open, counts the seams
//! that the pixel lies on, and lets the first of six cases that applies name
//! the terrain.

use crate::binary32::Binary32;
use crate::lattice::has_neighbours;
use crate::lattice::site_block;
use crate::lattice::spec_site_block;
use crate::ranking::nearest_site;
use crate::ranking::spec_nearest;
use vstd::prelude::*;

verus! {

/// Bit pattern of 0.05: a pixel nearer than this to an open site is a portal.
pub const PORTAL_RADIUS_BITS: u32 = 0x3D4C_CCCD;

/// Bit pattern of 0.2: ridge noise below this level is a ridge wall.
pub const RIDGE_LEVEL_BITS: u32 = 0x3E4C_CCCD;

/// Bit pattern of 0.8: the high-frequency mask of a boulder lies above it.
pub const BOULDER_FINE_LEVEL_BITS: u32 = 0x3F4C_CCCD;

/// Bit pattern of 0.6: the low-frequency mask of a boulder lies above it.
pub const BOULDER_COARSE_LEVEL_BITS: u32 = 0x3F19_999A;

/// What a pixel shows, named after the case of the rule that decided it.
#[derive(Clone, Copy, Debug, PartialEq, Eq, Structural)]
pub enum Terrain {
    /// Close to an open site. Drawn red.
    Portal,
    /// Low ridge noise. Drawn white.
    RidgeWall,
    /// An obstacle in an open cell. Drawn black.
    Boulder,
    /// The floor of an open cell. Drawn white.
    OpenFloor,
    /// A seam between a closed cell and one of its neighbours. Drawn white.
    WallSeam,
    /// The inside of a closed cell. Drawn black.
    Void,
}

/// What was measured at one pixel.
///
/// `(x, y)` is where the warped pixel lies on the lattice, `distance[i]` the
/// distance from there to the `i`-th site of the block around the cell that
/// it falls into, and `gap[i][j]`, for `i < j`, the absolute difference of
/// `distance[i]` and `distance[j]`. The rest of `gap` is not looked at.
#[derive(Clone, Copy, Debug)]
pub struct PixelSample {
    pub x: Binary32,
    pub y: Binary32,
    pub distance: [Binary32; 9],
    pub gap: [[Binary32; 9]; 9],
    pub thickness: Binary32,
    pub ridge: Binary32,
    pub boulder_fine: Binary32,
    pub boulder_coarse: Binary32,
}

impl Terrain {
    /// The colour of a terrain: red, green and blue, each 0 or 1.
    pub open spec fn spec_rgb(self) -> (u8, u8, u8) {
        match self {
            Terrain::Portal => (1, 0, 0),
            Terrain::RidgeWall | Terrain::OpenFloor | Terrain::WallSeam => (1, 1, 1),
            Terrain::Boulder | Terrain::Void => (0, 0, 0),
        }
    }

    /// The colour of a terrain: red, green and blue, each 0 or 1.
    pub fn rgb(self) -> (c: (u8, u8, u8))
        ensures
            c == self.spec_rgb(),
    {
        match self {
            Terrain::Portal => (1, 0, 0),
            Terrain::RidgeWall | Terrain::OpenFloor | Terrain::WallSeam => (1, 1, 1),
            Terrain::Boulder | Terrain::Void => (0, 0, 0),
        }
    }

    /// The colour of a terrain with its opacity, which is always 1.
    pub fn rgba(self) -> (c: (u8, u8, u8, u8))
        ensures
            (c.0, c.1, c.2) == self.spec_rgb(),
            c.3 == 1,
    {
        let (r, g, b) = self.rgb();
        (r, g, b, 1)
    }
}

impl PixelSample {
    /// Horizontal coordinate of the cell that the pixel falls into.
    pub open spec fn cell_x(&self) -> i32 {
        self.x.spec_floor_cell()
    }

    /// Vertical coordinate of the cell that the pixel falls into.
    pub open spec fn cell_y(&self) -> i32 {
        self.y.spec_floor_cell()
    }

    /// Whether the pixel's cell has a full block of cells around it.
    pub open spec fn wf(&self) -> bool {
        has_neighbours(self.cell_x(), self.cell_y())
    }

    /// The cell that the pixel falls into.
    pub fn cell(&self) -> (c: (i32, i32))
        ensures
            c == (self.cell_x(), self.cell_y()),
    {
        (self.x.floor_cell(), self.y.floor_cell())
    }

    /// Whether the pixel's cell has a full block of cells around it.
    pub fn is_well_formed(&self) -> (r: bool)
        ensures
            r == self.wf(),
    {
        let (cx, cy) = self.cell();
        i32::MIN < cx && cx < i32::MAX && i32::MIN < cy && cy < i32::MAX
    }
}

/// Whether the pair of sites `i < j` marks a seam for a pixel whose nearest
/// site is `n`: one of the two is `n`, and their distances are less than the
/// thickness apart.
pub open spec fn seam_pair(
    gap: [[Binary32; 9]; 9],
    thickness: Binary32,
    n: int,
    i: int,
    j: int,
) -> bool {
    i < j && (i == n || j == n) && gap@[i]@[j].spec_lt(thickness)
}

/// The number of seam pairs among the first `cells` entries of the 9 by 9
/// table of gaps, taken row by row.
pub open spec fn seam_hits_upto(
    gap: [[Binary32; 9]; 9],
    thickness: Binary32,
    n: int,
    cells: nat,
) -> nat
    decreases cells,
{
    if cells == 0 {
        0
    } else {
        let c = (cells - 1) as nat;
        seam_hits_upto(gap, thickness, n, c) + if seam_pair(
            gap,
            thickness,
            n,
            c as int / 9,
            c as int % 9,
        ) {
            1nat
        } else {
            0nat
        }
    }
}

/// The number of pairs of sites that mark a seam.
pub open spec fn spec_seam_hits(gap: [[Binary32; 9]; 9], thickness: Binary32, n: int) -> nat {
    seam_hits_upto(gap, thickness, n, 81)
}

/// Whether a sample lies on a seam: some pair of its sites marks one.
pub open spec fn on_seam(s: PixelSample) -> bool {
    spec_seam_hits(s.gap, s.thickness, spec_nearest(s.distance@)) > 0
}

/// The rule: the first case that applies names the terrain.
///
/// `close` says that the nearest site is within the portal radius, `open`
/// that it is open, `ridge_low` that the ridge noise is below its level,
/// `boulder` that both boulder masks are above theirs, and `seam` that the
/// pixel lies on at least one seam.
pub open spec fn spec_decide(close: bool, open: bool, ridge_low: bool, boulder: bool, seam: bool)
    -> Terrain {
    if close && open {
        Terrain::Portal
    } else if ridge_low {
        Terrain::RidgeWall
    } else if open && boulder {
        Terrain::Boulder
    } else if open {
        Terrain::OpenFloor
    } else if seam {
        Terrain::WallSeam
    } else {
        Terrain::Void
    }
}

/// Whether the nearest site of a sample is within the portal radius.
pub open spec fn nearest_is_close(s: PixelSample) -> bool {
    s.distance@[spec_nearest(s.distance@)].spec_lt(Binary32 { bits: PORTAL_RADIUS_BITS })
}

/// Whether the nearest site of a sample is open under a seed.
pub open spec fn nearest_is_open(s: PixelSample, seed: u32) -> bool {
    spec_site_block(s.cell_x(), s.cell_y(), seed)[spec_nearest(s.distance@)].open
}

/// Whether the ridge noise of a sample is below the ridge level.
pub open spec fn ridge_is_low(s: PixelSample) -> bool {
    s.ridge.spec_lt(Binary32 { bits: RIDGE_LEVEL_BITS })
}

/// Whether both boulder masks of a sample are above their levels.
pub open spec fn boulder_masks_set(s: PixelSample) -> bool {
    s.boulder_fine.spec_gt(Binary32 { bits: BOULDER_FINE_LEVEL_BITS })
        && s.boulder_coarse.spec_gt(Binary32 { bits: BOULDER_COARSE_LEVEL_BITS })
}

/// The terrain of a sample under a seed.
pub open spec fn spec_classify(s: PixelSample, seed: u32) -> Terrain {
    spec_decide(
        nearest_is_close(s),
        nearest_is_open(s, seed),
        ridge_is_low(s),
        boulder_masks_set(s),
        on_seam(s),
    )
}

proof fn lemma_hits_upto_positive(
    gap: [[Binary32; 9]; 9],
    thickness: Binary32,
    n: int,
    cells: nat,
)
    ensures
        seam_hits_upto(gap, thickness, n, cells) > 0 <==> exists|c: int|
            0 <= c < cells && #[trigger] seam_pair(gap, thickness, n, c / 9, c % 9),
    decreases cells,
{
    if cells > 0 {
        lemma_hits_upto_positive(gap, thickness, n, (cells - 1) as nat);
        let last = cells - 1;
        if seam_hits_upto(gap, thickness, n, cells) > 0 && !seam_pair(
            gap,
            thickness,
            n,
            last / 9,
            last % 9,
        ) {
            let c = choose|c: int|
                0 <= c < cells - 1 && #[trigger] seam_pair(gap, thickness, n, c / 9, c % 9);
            assert(seam_pair(gap, thickness, n, c / 9, c % 9));
        }
    }
}

/// The count of seam pairs is positive exactly if some pair of sites marks a
/// seam.
pub proof fn seam_hits_positive(gap: [[Binary32; 9]; 9], thickness: Binary32, n: int)
    ensures
        spec_seam_hits(gap, thickness, n) > 0 <==> exists|i: int, j: int|
            0 <= i < 9 && 0 <= j < 9 && #[trigger] seam_pair(gap, thickness, n, i, j),
{
    lemma_hits_upto_positive(gap, thickness, n, 81);
    if spec_seam_hits(gap, thickness, n) > 0 {
        let c = choose|c: int|
            0 <= c < 81 && #[trigger] seam_pair(gap, thickness, n, c / 9, c % 9);
        assert(seam_pair(gap, thickness, n, c / 9, c % 9));
    }
    if exists|i: int, j: int|
        0 <= i < 9 && 0 <= j < 9 && #[trigger] seam_pair(gap, thickness, n, i, j) {
        let (i, j) = choose|i: int, j: int|
            0 <= i < 9 && 0 <= j < 9 && #[trigger] seam_pair(gap, thickness, n, i, j);
        let c = i * 9 + j;
        assert(c / 9 == i && c % 9 == j);
        assert(seam_pair(gap, thickness, n, c / 9, c % 9));
    }
}

/// A pixel within the portal radius of an open nearest site is a portal, and
/// is drawn red.
pub proof fn portal_rule(s: PixelSample, seed: u32)
    requires
        nearest_is_close(s),
        nearest_is_open(s, seed),
    ensures
        spec_classify(s, seed) == Terrain::Portal,
        spec_classify(s, seed).spec_rgb() == (1u8, 0u8, 0u8),
{
}

/// Where the portal case does not apply, no pixel is drawn red, and a
/// pixel whose ridge noise is below the ridge level is drawn white.
pub proof fn ridge_rule(s: PixelSample, seed: u32)
    requires
        !(nearest_is_close(s) && nearest_is_open(s, seed)),
    ensures
        spec_classify(s, seed).spec_rgb() != (1u8, 0u8, 0u8),
        ridge_is_low(s) ==> spec_classify(s, seed) == Terrain::RidgeWall,
        ridge_is_low(s) ==> spec_classify(s, seed).spec_rgb() == (1u8, 1u8, 1u8),
{
}

/// The rule, on what was found out about a pixel.
pub fn decide(close: bool, open: bool, ridge_low: bool, boulder: bool, seam: bool) -> (t: Terrain)
    ensures
        t == spec_decide(close, open, ridge_low, boulder, seam),
{
    if close && open {
        Terrain::Portal
    } else if ridge_low {
        Terrain::RidgeWall
    } else if open && boulder {
        Terrain::Boulder
    } else if open {
        Terrain::OpenFloor
    } else if seam {
        Terrain::WallSeam
    } else {
        Terrain::Void
    }
}

/// Counts the pairs of sites that mark a seam for a pixel whose nearest site
/// is `nearest`: `gap[i][j]`, for `i < j`, is how far apart the distances to
/// the sites `i` and `j` are.
pub fn seam_hits(gap: &[[Binary32; 9]; 9], thickness: Binary32, nearest: usize) -> (hits: u32)
    ensures
        hits == spec_seam_hits(*gap, thickness, nearest as int),
{
    let mut hits: u32 = 0;
    let mut i: usize = 0;
    while i < 9
        invariant
            i <= 9,
            hits <= i * 9,
            hits == seam_hits_upto(*gap, thickness, nearest as int, (i * 9) as nat),
        decreases 9 - i,
    {
        let mut j: usize = 0;
        while j < 9
            invariant
                i < 9,
                j <= 9,
                hits <= i * 9 + j,
                hits == seam_hits_upto(*gap, thickness, nearest as int, (i * 9 + j) as nat),
            decreases 9 - j,
        {
            proof {
                let c = (i * 9 + j) as int;
                assert(c / 9 == i && c % 9 == j);
            }
            if i < j && (i == nearest || j == nearest) && gap[i][j].lt(thickness) {
                hits += 1;
            }
            j += 1;
        }
        i += 1;
    }
    hits
}

/// The terrain of a sample under a seed.
pub fn classify(s: &PixelSample, seed: u32) -> (t: Terrain)
    requires
        s.wf(),
    ensures
        t == spec_classify(*s, seed),
{
    let n = nearest_site(&s.distance);
    let (cx, cy) = s.cell();
    let sites = site_block(cx, cy, seed);
    let open = sites[n].open;
    let close = s.distance[n].lt(Binary32::from_bits(PORTAL_RADIUS_BITS));
    let ridge_low = s.ridge.lt(Binary32::from_bits(RIDGE_LEVEL_BITS));
    let boulder = s.boulder_fine.gt(Binary32::from_bits(BOULDER_FINE_LEVEL_BITS))
        && s.boulder_coarse.gt(Binary32::from_bits(BOULDER_COARSE_LEVEL_BITS));
    let seam = seam_hits(&s.gap, s.thickness, n) > 0;
    decide(close, open, ridge_low, boulder, seam)
}

} // verus!
