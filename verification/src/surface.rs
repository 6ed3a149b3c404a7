//! The terrain surface: a seed, a size, and whether the picture is stale.
//!
//! A surface is stale until a picture has been made for its seed, and turns
//! stale again whenever the seed changes. Making the picture is one step:
//! the samples of all pixels go in, the whole buffer comes out, and the
//! surface is clean. A clean surface asks for no picture and makes none.

use crate::classify::classify;
use crate::classify::spec_classify;
use crate::classify::PixelSample;
use crate::classify::Terrain;
use vstd::prelude::*;

verus! {

/// Width of the default surface, in pixels.
pub const DEFAULT_WIDTH: usize = 800;

/// Height of the default surface, in pixels.
pub const DEFAULT_HEIGHT: usize = 800;

/// Seed of a new surface.
pub const DEFAULT_SEED: u32 = 69;

/// The texture slot that the picture is published to and drawn from.
pub const TEXTURE_SLOT: u32 = 0;

/// Why a surface could not be made, or a picture not be regenerated.
#[derive(Clone, Copy, Debug, PartialEq, Eq, Structural)]
pub enum TerrainError {
    /// The width or the height is zero.
    EmptySurface,
    /// The number of pixels does not fit the machine's word.
    TooManyPixels,
    /// There is not one sample for each pixel.
    SampleCount,
    /// A sample's cell lacks a full block of cells around it.
    MalformedSample,
}

/// What the caller of `frame` does next.
#[derive(Clone, Copy, Debug, PartialEq, Eq, Structural)]
pub enum FrameAction {
    /// The picture is up to date: draw it.
    Draw,
    /// The picture is stale: sample every pixel under the surface's seed,
    /// regenerate, publish the buffer, then draw.
    RegenerateThenDraw,
}

/// What a surface is, as plain values.
pub struct SurfaceState {
    pub width: nat,
    pub height: nat,
    pub seed: u32,
    pub stale: bool,
}

/// What a buffer holds, as plain values: pixel `(i, j)`, in column `i` and
/// row `j`, stands at `i * height + j`.
pub struct BufferState {
    pub width: nat,
    pub height: nat,
    pub cells: Seq<Terrain>,
}

/// The surface.
#[derive(Debug)]
pub struct WizradTerrain {
    w: usize,
    h: usize,
    seed: u32,
    stale: bool,
}

/// A picture: one terrain for each pixel of a surface.
#[derive(Debug)]
pub struct PixelBuffer {
    w: usize,
    h: usize,
    cells: Vec<Terrain>,
}

/// The picture of a column-by-column list of samples under a seed: each
/// pixel gets the terrain of its own sample.
pub open spec fn spec_render(samples: Seq<PixelSample>, seed: u32) -> Seq<Terrain> {
    Seq::new(samples.len(), |k: int| spec_classify(samples[k], seed))
}

/// Whether every sample of a list is well formed.
pub open spec fn all_well_formed(samples: Seq<PixelSample>) -> bool {
    forall|k: int| 0 <= k < samples.len() ==> (#[trigger] samples[k]).wf()
}

/// The seed after `seed`: one more, and zero after the largest.
pub open spec fn next_seed(seed: u32) -> u32 {
    if seed == u32::MAX {
        0
    } else {
        (seed + 1) as u32
    }
}

impl SurfaceState {
    /// Number of pixels.
    pub open spec fn pixel_count(self) -> nat {
        self.width * self.height
    }

    /// The surface after one tick: a request moves it to the next seed and
    /// makes it stale.
    pub open spec fn after_frame(self, regenerate_requested: bool) -> SurfaceState {
        if regenerate_requested {
            SurfaceState { seed: next_seed(self.seed), stale: true, ..self }
        } else {
            self
        }
    }

    /// What a tick that leaves the surface in this state asks for.
    pub open spec fn action(self) -> FrameAction {
        if self.stale {
            FrameAction::RegenerateThenDraw
        } else {
            FrameAction::Draw
        }
    }

    /// The picture that the samples make on this surface.
    pub open spec fn picture(self, samples: Seq<PixelSample>) -> BufferState {
        BufferState {
            width: self.width,
            height: self.height,
            cells: spec_render(samples, self.seed),
        }
    }

    /// What regenerating from the samples gives: nothing on a clean
    /// surface; on a stale one the picture, if there is one well-formed
    /// sample for each pixel.
    pub open spec fn regenerated(self, samples: Seq<PixelSample>) -> Result<
        Option<BufferState>,
        TerrainError,
    > {
        if !self.stale {
            Ok(None)
        } else if samples.len() != self.pixel_count() {
            Err(TerrainError::SampleCount)
        } else if !all_well_formed(samples) {
            Err(TerrainError::MalformedSample)
        } else {
            Ok(Some(self.picture(samples)))
        }
    }

    /// The surface after regenerating from the samples: clean if a picture
    /// was made, else unchanged.
    pub open spec fn after_regenerate(self, samples: Seq<PixelSample>) -> SurfaceState {
        if self.regenerated(samples) is Ok {
            SurfaceState { stale: false, ..self }
        } else {
            self
        }
    }
}

/// Two stale surfaces of one size under one seed make the same picture of
/// the same samples, or refuse them for the same reason.
pub proof fn regeneration_is_deterministic(
    a: SurfaceState,
    b: SurfaceState,
    samples: Seq<PixelSample>,
)
    requires
        a.width == b.width,
        a.height == b.height,
        a.seed == b.seed,
        a.stale,
        b.stale,
    ensures
        a.regenerated(samples) == b.regenerated(samples),
        a.after_regenerate(samples) == b.after_regenerate(samples),
{
}

/// Regenerating a second time, with no request between, makes nothing and
/// changes nothing, whatever samples it is given.
pub proof fn second_regeneration_is_idle(
    surface: SurfaceState,
    first: Seq<PixelSample>,
    second: Seq<PixelSample>,
)
    requires
        surface.regenerated(first) is Ok,
    ensures
        surface.after_regenerate(first).regenerated(second) == Ok::<
            Option<BufferState>,
            TerrainError,
        >(None),
        surface.after_regenerate(first).after_regenerate(second) == surface.after_regenerate(first),
        surface.after_regenerate(first).after_frame(false).action() == FrameAction::Draw,
{
}

/// A pixel's terrain depends on its own sample and the seed only: two lists
/// of samples that agree at a pixel make pictures that agree there.
pub proof fn pixels_are_independent(
    surface: SurfaceState,
    a: Seq<PixelSample>,
    b: Seq<PixelSample>,
    k: int,
)
    requires
        0 <= k < a.len(),
        k < b.len(),
        a[k] == b[k],
    ensures
        surface.picture(a).cells[k] == surface.picture(b).cells[k],
        surface.picture(a).cells[k] == spec_classify(a[k], surface.seed),
{
}

impl View for WizradTerrain {
    type V = SurfaceState;

    closed spec fn view(&self) -> SurfaceState {
        SurfaceState {
            width: self.w as nat,
            height: self.h as nat,
            seed: self.seed,
            stale: self.stale,
        }
    }
}

impl View for PixelBuffer {
    type V = BufferState;

    closed spec fn view(&self) -> BufferState {
        BufferState { width: self.w as nat, height: self.h as nat, cells: self.cells@ }
    }
}

impl PixelBuffer {
    #[verifier::type_invariant]
    spec fn inv(&self) -> bool {
        &&& self.w > 0
        &&& self.h > 0
        &&& self.w * self.h <= usize::MAX
        &&& self.cells@.len() == self.w * self.h
    }

    /// Width in pixels.
    pub fn width(&self) -> (w: usize)
        ensures
            w == self@.width,
            w > 0,
    {
        proof {
            use_type_invariant(self);
        }
        self.w
    }

    /// Height in pixels.
    pub fn height(&self) -> (h: usize)
        ensures
            h == self@.height,
            h > 0,
    {
        proof {
            use_type_invariant(self);
        }
        self.h
    }

    /// Number of pixels.
    pub fn len(&self) -> (n: usize)
        ensures
            n == self@.cells.len(),
            n == self@.width * self@.height,
    {
        proof {
            use_type_invariant(self);
        }
        self.cells.len()
    }

    /// The terrain of the pixel in column `i` and row `j`, or nothing if the
    /// buffer has no such pixel.
    pub fn get(&self, i: usize, j: usize) -> (t: Option<Terrain>)
        ensures
            t == if i < self@.width && j < self@.height {
                Some(self@.cells[i * self@.height + j])
            } else {
                None
            },
    {
        proof {
            use_type_invariant(self);
        }
        if i < self.w && j < self.h {
            proof {
                lemma_cell_in_range(i as int, j as int, self.w as int, self.h as int);
            }
            Some(self.cells[i * self.h + j])
        } else {
            None
        }
    }
}

proof fn lemma_cell_in_range(i: int, j: int, w: int, h: int)
    requires
        0 <= i < w,
        0 <= j < h,
    ensures
        0 <= i * h + j < w * h,
        i * h >= 0,
{
    assert(i * h + j < w * h) by (nonlinear_arith)
        requires
            0 <= i < w,
            0 <= j < h,
    {
        assert((i + 1) * h <= w * h);
        assert((i + 1) * h == i * h + h);
    }
    assert(i * h >= 0) by (nonlinear_arith)
        requires
            0 <= i,
            0 <= h,
    ;
}

impl WizradTerrain {
    #[verifier::type_invariant]
    spec fn inv(&self) -> bool {
        &&& self.w > 0
        &&& self.h > 0
        &&& self.w * self.h <= usize::MAX
    }

    /// A stale surface of `w` by `h` pixels under the default seed. A surface
    /// without pixels is refused, and so is one with more pixels than the
    /// machine can count.
    pub fn new(w: usize, h: usize) -> (r: Result<WizradTerrain, TerrainError>)
        ensures
            match r {
                Ok(s) => w > 0 && h > 0 && w * h <= usize::MAX && s@ == (SurfaceState {
                    width: w as nat,
                    height: h as nat,
                    seed: DEFAULT_SEED,
                    stale: true,
                }),
                Err(TerrainError::EmptySurface) => w == 0 || h == 0,
                Err(TerrainError::TooManyPixels) => w > 0 && h > 0 && w * h > usize::MAX,
                Err(_) => false,
            },
    {
        if w == 0 || h == 0 {
            return Err(TerrainError::EmptySurface);
        }
        match w.checked_mul(h) {
            Some(_) => Ok(WizradTerrain { w, h, seed: DEFAULT_SEED, stale: true }),
            None => Err(TerrainError::TooManyPixels),
        }
    }

    /// Width in pixels.
    pub fn width(&self) -> (w: usize)
        ensures
            w == self@.width,
            w > 0,
    {
        proof {
            use_type_invariant(self);
        }
        self.w
    }

    /// Height in pixels.
    pub fn height(&self) -> (h: usize)
        ensures
            h == self@.height,
            h > 0,
    {
        proof {
            use_type_invariant(self);
        }
        self.h
    }

    /// Number of pixels, which is the number of samples that `regenerate`
    /// takes.
    pub fn pixel_count(&self) -> (n: usize)
        ensures
            n == self@.width * self@.height,
    {
        proof {
            use_type_invariant(self);
        }
        self.w * self.h
    }

    /// The seed.
    pub fn seed(&self) -> (seed: u32)
        ensures
            seed == self@.seed,
    {
        self.seed
    }

    /// Whether no picture has been made for the seed yet.
    pub fn is_stale(&self) -> (stale: bool)
        ensures
            stale == self@.stale,
    {
        self.stale
    }

    /// Where the sample of the pixel in column `i` and row `j` stands in the
    /// list that `regenerate` takes, or nothing if the surface has no such
    /// pixel.
    pub fn sample_index(&self, i: usize, j: usize) -> (k: Option<usize>)
        ensures
            k == if i < self@.width && j < self@.height {
                Some((i * self@.height + j) as usize)
            } else {
                None
            },
            k matches Some(v) ==> v < self@.width * self@.height,
    {
        proof {
            use_type_invariant(self);
        }
        if i < self.w && j < self.h {
            proof {
                lemma_cell_in_range(i as int, j as int, self.w as int, self.h as int);
            }
            Some(i * self.h + j)
        } else {
            None
        }
    }

    /// One tick. A request to regenerate moves the surface to the next seed
    /// and makes it stale; the answer says whether the picture has to be
    /// made anew before it is drawn.
    pub fn frame(&mut self, regenerate_requested: bool) -> (action: FrameAction)
        ensures
            final(self)@ == old(self)@.after_frame(regenerate_requested),
            action == final(self)@.action(),
    {
        proof {
            use_type_invariant(&*self);
        }
        if regenerate_requested {
            self.seed = self.seed.wrapping_add(1);
            self.stale = true;
        }
        if self.stale {
            FrameAction::RegenerateThenDraw
        } else {
            FrameAction::Draw
        }
    }

    /// Makes the picture of a stale surface from the samples of its pixels,
    /// listed column by column, and leaves the surface clean. On a clean
    /// surface nothing is made and nothing changes. Samples that do not fit
    /// the surface are refused, and the surface stays stale.
    pub fn regenerate(&mut self, samples: &Vec<PixelSample>) -> (r: Result<
        Option<PixelBuffer>,
        TerrainError,
    >)
        ensures
            final(self)@ == old(self)@.after_regenerate(samples@),
            match r {
                Ok(Some(buffer)) => old(self)@.regenerated(samples@) == Ok::<
                    Option<BufferState>,
                    TerrainError,
                >(Some(buffer@)),
                Ok(None) => old(self)@.regenerated(samples@) == Ok::<
                    Option<BufferState>,
                    TerrainError,
                >(None),
                Err(e) => old(self)@.regenerated(samples@) == Err::<
                    Option<BufferState>,
                    TerrainError,
                >(e),
            },
    {
        proof {
            use_type_invariant(&*self);
        }
        if !self.stale {
            return Ok(None);
        }
        let n = self.w * self.h;
        if samples.len() != n {
            return Err(TerrainError::SampleCount);
        }
        let seed = self.seed;
        let mut cells: Vec<Terrain> = Vec::new();
        let mut k: usize = 0;
        while k < n
            invariant
                *self == *old(self),
                self.stale,
                seed == self.seed,
                k <= n,
                n == samples@.len(),
                n == self.w * self.h,
                cells@.len() == k,
                forall|i: int| 0 <= i < k ==> (#[trigger] samples@[i]).wf(),
                forall|i: int| 0 <= i < k ==> #[trigger] cells@[i] == spec_classify(samples@[i], seed),
            decreases n - k,
        {
            if !samples[k].is_well_formed() {
                assert(!samples@[k as int].wf());
                return Err(TerrainError::MalformedSample);
            }
            cells.push(classify(&samples[k], seed));
            k += 1;
        }
        assert(cells@ =~= spec_render(samples@, seed));
        self.stale = false;
        Ok(Some(PixelBuffer { w: self.w, h: self.h, cells }))
    }
}

impl Default for WizradTerrain {
    /// The default surface: 800 by 800 pixels, stale, under the default seed.
    fn default() -> (s: WizradTerrain)
        ensures
            s@ == (SurfaceState {
                width: DEFAULT_WIDTH as nat,
                height: DEFAULT_HEIGHT as nat,
                seed: DEFAULT_SEED,
                stale: true,
            }),
    {
        assert(DEFAULT_WIDTH * DEFAULT_HEIGHT == 640_000) by (nonlinear_arith)
            requires
                DEFAULT_WIDTH == 800,
                DEFAULT_HEIGHT == 800,
        ;
        WizradTerrain { w: DEFAULT_WIDTH, h: DEFAULT_HEIGHT, seed: DEFAULT_SEED, stale: true }
    }
}

} // verus!
