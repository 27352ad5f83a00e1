//! A 64-bit perceptual hash of a raster image.
//!
//! The pipeline reduces a decoded image to greyscale, resamples it to a
//! fixed 32x32 grid with a triangular filter, applies a two-pass
//! separable type-II discrete cosine transform, thresholds the 8x8
//! low-frequency block against its median, and packs the 64 resulting
//! bits into one unsigned integer, most-significant bit first.
//!
//! The frequency coefficients are single-precision numbers, which this
//! crate carries as their IEEE 754 bit patterns: every structural step
//! (scaling, row and column bookkeeping, transposition, block
//! extraction, ordering, thresholding, packing) is verified over those
//! patterns, while the two operations that need floating-point
//! arithmetic itself, the 1D row transform and the mean of the two
//! middle coefficients, are left to the caller, which hands their
//! results back as plain values.

pub mod convert;
pub mod hash;
pub mod median;
pub mod raster;
pub mod transform;
