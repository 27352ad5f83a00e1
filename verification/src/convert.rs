use vstd::prelude::*;
use crate::raster::convert_greyscale;
use crate::raster::scale_image;
use crate::raster::scaled_of;
use crate::raster::Raster;
use crate::raster::ScaledRaster;

verus! {

/// The IEEE 754 single-precision bit pattern of a luminance byte.
///
/// Every value in 0..=255 is exactly representable: for a value with
/// highest set bit e, the biased exponent is 127 + e and the mantissa
/// field holds the remaining bits of the value, left-aligned. Each
/// branch below spells this out with the constants for one value of e,
/// so the whole conversion is plain integer arithmetic.
pub open spec fn sample_bits_of(v: u8) -> u32 {
    if v >= 128 {
        (0x43000000 + (v - 128) * 0x10000) as u32
    } else if v >= 64 {
        (0x42800000 + (v - 64) * 0x20000) as u32
    } else if v >= 32 {
        (0x42000000 + (v - 32) * 0x40000) as u32
    } else if v >= 16 {
        (0x41800000 + (v - 16) * 0x80000) as u32
    } else if v >= 8 {
        (0x41000000 + (v - 8) * 0x100000) as u32
    } else if v >= 4 {
        (0x40800000 + (v - 4) * 0x200000) as u32
    } else if v >= 2 {
        (0x40000000 + (v - 2) * 0x400000) as u32
    } else if v >= 1 {
        0x3F800000
    } else {
        0
    }
}

/// Convert one luminance byte to the bit pattern of its value as an
/// IEEE 754 single-precision number.
pub fn sample_to_bits(v: u8) -> (r: u32)
    ensures
        r == sample_bits_of(v),
{
    let w = v as u32;
    if v >= 128 {
        0x43000000 + (w - 128) * 0x10000
    } else if v >= 64 {
        0x42800000 + (w - 64) * 0x20000
    } else if v >= 32 {
        0x42000000 + (w - 32) * 0x40000
    } else if v >= 16 {
        0x41800000 + (w - 16) * 0x80000
    } else if v >= 8 {
        0x41000000 + (w - 8) * 0x100000
    } else if v >= 4 {
        0x40800000 + (w - 4) * 0x200000
    } else if v >= 2 {
        0x40000000 + (w - 2) * 0x400000
    } else if v >= 1 {
        0x3F800000
    } else {
        0
    }
}

/// The working samples of a scaled raster as single-precision bit
/// patterns, in the same row-major order.
pub open spec fn matrix_of_samples(s: Seq<u8>) -> Seq<u32> {
    Seq::new(s.len(), |k: int| sample_bits_of(s[k]))
}

/// Convert the 1024 working samples to single-precision bit patterns.
pub fn sample_matrix(s: &ScaledRaster) -> (m: Vec<u32>)
    requires
        s.wf(),
    ensures
        m@.len() == 1024,
        m@ == matrix_of_samples(s.data@),
{
    let mut m: Vec<u32> = Vec::new();
    let mut i: usize = 0;
    while i < s.data.len()
        invariant
            i <= s.data@.len(),
            s.data@.len() == 1024,
            m@.len() == i,
            forall|k: int| 0 <= k < i ==> m@[k] == sample_bits_of(s.data@[k]),
        decreases s.data@.len() - i,
    {
        let b = sample_to_bits(s.data[i]);
        m.push(b);
        i = i + 1;
    }
    proof {
        assert(m@ =~= matrix_of_samples(s.data@));
    }
    m
}

/// The front end of the pipeline in one step: greyscale reduction,
/// the fixed 32x32 downscale, and conversion of the working samples
/// to single-precision bit patterns, ready for the frequency
/// transform.
pub fn prepare_samples(r: &Raster) -> (m: Vec<u32>)
    requires
        r.wf(),
    ensures
        m@.len() == 1024,
        m@ == matrix_of_samples(scaled_of(r.width, r.height, r.data@)),
{
    let grey = convert_greyscale(r);
    let scaled = scale_image(&grey);
    sample_matrix(&scaled)
}

/// The conversion preserves order: a brighter sample has a larger
/// bit pattern, and therefore a larger order key, than a darker one.
pub proof fn lemma_sample_bits_monotone(a: u8, b: u8)
    requires
        a < b,
    ensures
        sample_bits_of(a) < sample_bits_of(b),
        crate::median::sort_key(sample_bits_of(a)) < crate::median::sort_key(sample_bits_of(b)),
{
}

} // verus!
