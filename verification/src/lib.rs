//! Procedural terrain from one integer seed.
//!
//! A picture of the terrain gives every pixel one of a few kinds of ground:
//! wall, floor, boulder, portal. What kind a pixel gets is decided by a rule
//! over a handful of measurements: how far the pixel is from the jittered
//! sites of a lattice, which of those sites is nearest and whether it is
//! open, and a few levels of noise. The measurements themselves are taken in
//! single precision by whoever draws the picture; everything that is decided
//! from them, and every integer that they are taken from, lives here:
//!
//! - `hash`: the hash of a word and of a lattice coordinate;
//! - `salt`: the seeds of the noise layers;
//! - `lattice`: the sites of the lattice and the corner values of the noise;
//! - `binary32`: comparing single-precision values by their bit patterns;
//! - `ranking`: ranking the sites of a query by distance;
//! - `classify`: the rule that names a pixel's terrain;
//! - `surface`: the surface that owns the seed and makes the picture.

pub mod binary32;
pub mod classify;
pub mod hash;
pub mod lattice;
pub mod ranking;
pub mod salt;
pub mod surface;
