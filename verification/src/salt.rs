//! The salts that turn one seed into the seeds of the noise layers.
//!
//! Each layer samples its noise under the base seed multiplied, with
//! wrap-around, by a salt of its own. Multiplication by an odd salt is a
//! permutation of the seeds, so such a layer sees a different seed for every
//! base seed.

use vstd::arithmetic::div_mod::lemma_fundamental_div_mod;
use vstd::arithmetic::div_mod::lemma_mod_equivalence;
use vstd::arithmetic::div_mod::lemma_mod_multiples_basic;
use vstd::arithmetic::power2::lemma2_to64;
use vstd::arithmetic::power2::lemma_pow2_pos;
use vstd::arithmetic::power2::lemma_pow2_unfold;
use vstd::arithmetic::power2::pow2;
use vstd::prelude::*;

verus! {

/// Horizontal component of the large-scale warp.
pub const WARP1_X_SALT: u32 = 1057917;

/// Vertical component of the large-scale warp.
pub const WARP1_Y_SALT: u32 = 15735697;

/// Horizontal component of the fine warp.
pub const WARP2_X_SALT: u32 = 1541577;

/// Vertical component of the fine warp.
pub const WARP2_Y_SALT: u32 = 1561317;

/// The ridge noise that carves the walls.
pub const RIDGE_SALT: u32 = 1515177;

/// The high-frequency boulder mask. The only even salt of the table.
pub const BOULDER_FINE_SALT: u32 = 151591714;

/// The low-frequency boulder mask.
pub const BOULDER_COARSE_SALT: u32 = 1571577;

/// Second octave of the fractal noise.
pub const OCTAVE1_SALT: u32 = 1238715;

/// Third octave of the fractal noise.
pub const OCTAVE2_SALT: u32 = 9148167;

/// Fourth octave of the fractal noise.
pub const OCTAVE3_SALT: u32 = 2442347;

/// Vertical jitter of a site, applied to the site's hash.
pub const JITTER_Y_SALT: u32 = 1234125417;

/// Number of octaves of the fractal noise.
pub const OCTAVES: usize = 4;

/// The seeds of all the layers that one pixel samples under a base seed.
#[derive(Clone, Copy, Debug, PartialEq, Eq, Structural)]
pub struct LayerSeeds {
    pub warp1_x: u32,
    pub warp1_y: u32,
    pub warp2_x: u32,
    pub warp2_y: u32,
    pub thickness: u32,
    pub sites: u32,
    pub ridge: u32,
    pub boulder_fine: u32,
    pub boulder_coarse: u32,
}

/// The salt of an octave of the fractal noise. The first octave samples under
/// the seed itself.
pub open spec fn spec_octave_salt(octave: int) -> u32 {
    if octave == 1 {
        OCTAVE1_SALT
    } else if octave == 2 {
        OCTAVE2_SALT
    } else if octave == 3 {
        OCTAVE3_SALT
    } else {
        1
    }
}

/// The layer seeds of a base seed: the thickness noise and the site field use
/// the seed itself, every other layer the seed times its salt.
pub open spec fn spec_layer_seeds(seed: u32) -> LayerSeeds {
    LayerSeeds {
        warp1_x: seed.wrapping_mul(WARP1_X_SALT),
        warp1_y: seed.wrapping_mul(WARP1_Y_SALT),
        warp2_x: seed.wrapping_mul(WARP2_X_SALT),
        warp2_y: seed.wrapping_mul(WARP2_Y_SALT),
        thickness: seed,
        sites: seed,
        ridge: seed.wrapping_mul(RIDGE_SALT),
        boulder_fine: seed.wrapping_mul(BOULDER_FINE_SALT),
        boulder_coarse: seed.wrapping_mul(BOULDER_COARSE_SALT),
    }
}

proof fn lemma_odd_product(m: int, k: int)
    requires
        m % 2 == 1,
        k % 2 == 1,
    ensures
        (m * k) % 2 == 1,
{
    let a = m / 2;
    let c = k / 2;
    assert(m * k == 2 * (2 * a * c + a + c) + 1) by (nonlinear_arith)
        requires
            m == 2 * a + 1,
            k == 2 * c + 1,
    ;
}

proof fn lemma_odd_factor(n: nat, m: int, k: int)
    requires
        k % 2 == 1,
        (m * k) % (pow2(n) as int) == 0,
    ensures
        m % (pow2(n) as int) == 0,
    decreases n,
{
    lemma_pow2_pos(n);
    if n == 0 {
        lemma2_to64();
    } else {
        let half = pow2((n - 1) as nat) as int;
        let full = pow2(n) as int;
        lemma_pow2_pos((n - 1) as nat);
        lemma_pow2_unfold(n);
        let q = (m * k) / full;
        lemma_fundamental_div_mod(m * k, full);
        assert(full * q == 2 * (half * q)) by (nonlinear_arith)
            requires
                full == 2 * half,
        ;
        if m % 2 == 1 {
            lemma_odd_product(m, k);
        }
        let m2 = m / 2;
        assert(m * k == 2 * (m2 * k)) by (nonlinear_arith)
            requires
                m == 2 * m2,
        ;
        lemma_mod_multiples_basic(q, half);
        assert(q * half == half * q) by (nonlinear_arith);
        lemma_odd_factor((n - 1) as nat, m2, k);
        let t = m2 / half;
        lemma_fundamental_div_mod(m2, half);
        assert(m == t * full) by (nonlinear_arith)
            requires
                m == 2 * m2,
                m2 == half * t,
                full == 2 * half,
        ;
        lemma_mod_multiples_basic(t, full);
    }
}

/// An odd salt keeps seeds apart: two seeds with the same salted seed are
/// the same seed.
pub proof fn odd_salt_injective(a: u32, b: u32, salt: u32)
    requires
        salt % 2 == 1,
        a.wrapping_mul(salt) == b.wrapping_mul(salt),
    ensures
        a == b,
{
    lemma2_to64();
    let m: int = 0x1_0000_0000;
    let k = salt as int;
    assert((a as nat * salt as nat) % (0x1_0000_0000 as nat) == (b as nat * salt as nat) % (
    0x1_0000_0000 as nat));
    assert((a as int * k) % m == (b as int * k) % m);
    lemma_mod_equivalence(a as int * k, b as int * k, m);
    assert((a as int - b as int) * k == a as int * k - b as int * k) by (nonlinear_arith);
    assert(pow2(32) as int == m);
    lemma_odd_factor(32, a as int - b as int, k);
}

/// The even salt keeps seeds apart that are less than 2^31 apart: two seeds
/// with the same fine boulder seed are equal or differ by 2^31.
pub proof fn even_salt_folds_top_bit_only(a: u32, b: u32)
    requires
        a.wrapping_mul(BOULDER_FINE_SALT) == b.wrapping_mul(BOULDER_FINE_SALT),
    ensures
        (a - b) % 0x8000_0000 == 0,
{
    lemma2_to64();
    let m: int = 0x1_0000_0000;
    let half: int = 0x8000_0000;
    let k: int = 75795857;
    let d = a as int - b as int;
    assert((a as nat * BOULDER_FINE_SALT as nat) % (0x1_0000_0000 as nat) == (b as nat
        * BOULDER_FINE_SALT as nat) % (0x1_0000_0000 as nat));
    assert((a as int * BOULDER_FINE_SALT as int) % m == (b as int * BOULDER_FINE_SALT as int) % m);
    lemma_mod_equivalence(a as int * BOULDER_FINE_SALT as int, b as int * BOULDER_FINE_SALT as int, m);
    assert(a as int * BOULDER_FINE_SALT as int - b as int * BOULDER_FINE_SALT as int == 2 * (d * k))
        by (nonlinear_arith)
        requires
            d == a as int - b as int,
            BOULDER_FINE_SALT == 2 * k,
    ;
    let q = (2 * (d * k)) / m;
    lemma_fundamental_div_mod(2 * (d * k), m);
    assert(d * k == q * half) by (nonlinear_arith)
        requires
            2 * (d * k) == m * q,
            m == 2 * half,
    ;
    lemma_mod_multiples_basic(q, half);
    assert(pow2(31) as int == half);
    lemma_odd_factor(31, d, k);
}

/// Two different seeds differ in the seed of every layer, but that the fine
/// boulder seeds of two seeds that lie 2^31 apart are the same.
pub proof fn layers_depend_on_seed(a: u32, b: u32)
    requires
        a != b,
    ensures
        spec_layer_seeds(a).warp1_x != spec_layer_seeds(b).warp1_x,
        spec_layer_seeds(a).warp1_y != spec_layer_seeds(b).warp1_y,
        spec_layer_seeds(a).warp2_x != spec_layer_seeds(b).warp2_x,
        spec_layer_seeds(a).warp2_y != spec_layer_seeds(b).warp2_y,
        spec_layer_seeds(a).thickness != spec_layer_seeds(b).thickness,
        spec_layer_seeds(a).sites != spec_layer_seeds(b).sites,
        spec_layer_seeds(a).ridge != spec_layer_seeds(b).ridge,
        spec_layer_seeds(a).boulder_coarse != spec_layer_seeds(b).boulder_coarse,
        (a - b) % 0x8000_0000 != 0 ==> spec_layer_seeds(a).boulder_fine != spec_layer_seeds(
            b,
        ).boulder_fine,
        forall|octave: int|
            0 <= octave < OCTAVES ==> a.wrapping_mul(#[trigger] spec_octave_salt(octave))
                != b.wrapping_mul(spec_octave_salt(octave)),
{
    if a.wrapping_mul(WARP1_X_SALT) == b.wrapping_mul(WARP1_X_SALT) {
        odd_salt_injective(a, b, WARP1_X_SALT);
    }
    if a.wrapping_mul(WARP1_Y_SALT) == b.wrapping_mul(WARP1_Y_SALT) {
        odd_salt_injective(a, b, WARP1_Y_SALT);
    }
    if a.wrapping_mul(WARP2_X_SALT) == b.wrapping_mul(WARP2_X_SALT) {
        odd_salt_injective(a, b, WARP2_X_SALT);
    }
    if a.wrapping_mul(WARP2_Y_SALT) == b.wrapping_mul(WARP2_Y_SALT) {
        odd_salt_injective(a, b, WARP2_Y_SALT);
    }
    if a.wrapping_mul(RIDGE_SALT) == b.wrapping_mul(RIDGE_SALT) {
        odd_salt_injective(a, b, RIDGE_SALT);
    }
    if a.wrapping_mul(BOULDER_COARSE_SALT) == b.wrapping_mul(BOULDER_COARSE_SALT) {
        odd_salt_injective(a, b, BOULDER_COARSE_SALT);
    }
    if a.wrapping_mul(BOULDER_FINE_SALT) == b.wrapping_mul(BOULDER_FINE_SALT) {
        even_salt_folds_top_bit_only(a, b);
    }
    assert forall|octave: int| 0 <= octave < OCTAVES implies a.wrapping_mul(
        #[trigger] spec_octave_salt(octave),
    ) != b.wrapping_mul(spec_octave_salt(octave)) by {
        if a.wrapping_mul(spec_octave_salt(octave)) == b.wrapping_mul(spec_octave_salt(octave)) {
            odd_salt_injective(a, b, spec_octave_salt(octave));
        }
    }
}

/// Every salt of the table but `BOULDER_FINE_SALT` is odd.
pub proof fn table_salts_are_odd()
    ensures
        WARP1_X_SALT % 2 == 1,
        WARP1_Y_SALT % 2 == 1,
        WARP2_X_SALT % 2 == 1,
        WARP2_Y_SALT % 2 == 1,
        RIDGE_SALT % 2 == 1,
        BOULDER_COARSE_SALT % 2 == 1,
        OCTAVE1_SALT % 2 == 1,
        OCTAVE2_SALT % 2 == 1,
        OCTAVE3_SALT % 2 == 1,
        JITTER_Y_SALT % 2 == 1,
        BOULDER_FINE_SALT % 2 == 0,
{
}

/// The seed of a layer: the base seed times the layer's salt, wrapping.
pub fn salted(seed: u32, salt: u32) -> (s: u32)
    ensures
        s == seed.wrapping_mul(salt),
{
    seed.wrapping_mul(salt)
}

/// The seed under which an octave of the fractal noise is sampled.
pub fn octave_seed(seed: u32, octave: usize) -> (s: u32)
    requires
        octave < OCTAVES,
    ensures
        s == seed.wrapping_mul(spec_octave_salt(octave as int)),
        octave == 0 ==> s == seed,
{
    proof {
        assert((seed as nat * 1) % (0x1_0000_0000 as nat) == seed);
    }
    if octave == 1 {
        seed.wrapping_mul(OCTAVE1_SALT)
    } else if octave == 2 {
        seed.wrapping_mul(OCTAVE2_SALT)
    } else if octave == 3 {
        seed.wrapping_mul(OCTAVE3_SALT)
    } else {
        seed
    }
}

/// The seeds of all the layers that one pixel samples.
pub fn layer_seeds(seed: u32) -> (s: LayerSeeds)
    ensures
        s == spec_layer_seeds(seed),
{
    LayerSeeds {
        warp1_x: seed.wrapping_mul(WARP1_X_SALT),
        warp1_y: seed.wrapping_mul(WARP1_Y_SALT),
        warp2_x: seed.wrapping_mul(WARP2_X_SALT),
        warp2_y: seed.wrapping_mul(WARP2_Y_SALT),
        thickness: seed,
        sites: seed,
        ridge: seed.wrapping_mul(RIDGE_SALT),
        boulder_fine: seed.wrapping_mul(BOULDER_FINE_SALT),
        boulder_coarse: seed.wrapping_mul(BOULDER_COARSE_SALT),
    }
}

} // verus!
