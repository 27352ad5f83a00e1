use vstd::prelude::*;
use vstd::arithmetic::power2::pow2;
use vstd::arithmetic::power2::lemma_pow2_unfold;
use vstd::arithmetic::power2::lemma2_to64;
use crate::median::normalize_zero;
use crate::median::normalize_zero_bits;
use crate::median::sort_key;
use crate::median::key_of;
use crate::convert::matrix_of_samples;
use crate::raster::scaled_of;
use crate::transform::machine_tracks;
use crate::transform::transform_2d;
use crate::transform::Transform2d;

verus! {

/// The value of a sequence of bits read most-significant first:
/// each step doubles the accumulator and adds the next bit.
pub open spec fn pack_bits(s: Seq<bool>) -> nat
    decreases s.len(),
{
    if s.len() == 0 {
        0
    } else {
        pack_bits(s.drop_last()) * 2 + (if s.last() {
            1nat
        } else {
            0nat
        })
    }
}

/// A sequence of n bits packs to a value below 2^n.
pub proof fn lemma_pack_bits_bound(s: Seq<bool>)
    ensures
        pack_bits(s) < pow2(s.len()),
    decreases s.len(),
{
    if s.len() == 0 {
        lemma2_to64();
    } else {
        lemma_pack_bits_bound(s.drop_last());
        lemma_pow2_unfold(s.len() as nat);
    }
}

/// The first bit of the sequence is the most significant bit of the
/// packed value: it is set exactly when the value reaches 2^(n-1).
pub proof fn lemma_pack_bits_msb(s: Seq<bool>)
    requires
        s.len() >= 1,
    ensures
        s[0] <==> pack_bits(s) >= pow2((s.len() - 1) as nat),
    decreases s.len(),
{
    if s.len() == 1 {
        lemma2_to64();
        assert(s.last() == s[0]);
        assert(s.drop_last().len() == 0);
        assert(s.drop_last() =~= Seq::<bool>::empty());
        assert(pack_bits(s.drop_last()) == 0);
        assert(pack_bits(s) == (if s[0] {
            1nat
        } else {
            0nat
        }));
    } else {
        let dl = s.drop_last();
        lemma_pack_bits_msb(dl);
        lemma_pow2_unfold((s.len() - 1) as nat);
        assert(dl[0] == s[0]);
        assert(pack_bits(s) == pack_bits(dl) * 2 + (if s.last() {
            1nat
        } else {
            0nat
        }));
        assert(pow2((s.len() - 1) as nat) == 2 * pow2((s.len() - 2) as nat));
    }
}

/// The last bit of the sequence is the least significant bit of the
/// packed value.
pub proof fn lemma_pack_bits_lsb(s: Seq<bool>)
    requires
        s.len() >= 1,
    ensures
        pack_bits(s) % 2 == (if s[s.len() - 1] {
            1nat
        } else {
            0nat
        }),
{
    let a = pack_bits(s.drop_last());
    assert((a * 2 + 1) % 2 == 1 && (a * 2) % 2 == 0) by (nonlinear_arith);
}

/// Fold 64 ordered booleans into one unsigned 64-bit integer,
/// most-significant bit first.
pub fn vec_to_u64(slice: &[bool]) -> (r: u64)
    requires
        slice@.len() == 64,
    ensures
        r as nat == pack_bits(slice@),
{
    let mut acc: u64 = 0;
    let mut i: usize = 0;
    while i < slice.len()
        invariant
            i <= slice@.len(),
            slice@.len() == 64,
            acc as nat == pack_bits(slice@.take(i as int)),
        decreases slice@.len() - i,
    {
        proof {
            lemma_pack_bits_bound(slice@.take(i as int));
            assert(pow2(i as nat) <= pow2(63)) by {
                if (i as nat) < 63 {
                    vstd::arithmetic::power2::lemma_pow2_strictly_increases(i as nat, 63);
                }
            }
            vstd::arithmetic::power2::lemma2_to64_rest();
            assert(slice@.take(i + 1).drop_last() =~= slice@.take(i as int));
            assert(slice@.take(i + 1).last() == slice@[i as int]);
        }
        acc = acc * 2 + (if slice[i] {
            1
        } else {
            0
        });
        i = i + 1;
    }
    proof {
        assert(slice@.take(slice@.len() as int) =~= slice@);
    }
    acc
}

/// The low-frequency block of a 32x32 coefficient matrix: the 8x8
/// submatrix of rows 0 to 7 and columns 0 to 7, flattened row-major,
/// with the negative-zero pattern identified with zero.
pub open spec fn block_spec(m: Seq<u32>) -> Seq<u32> {
    Seq::new(64, |k: int| normalize_zero(m[(k / 8) * 32 + k % 8]))
}

/// Extract the 64 lowest-frequency coefficients of the matrix: entry
/// (i, j) of the block, for i and j in 0..8, is entry (i, j) of the
/// matrix.
pub fn low_frequency_block(m: &Vec<u32>) -> (b: Vec<u32>)
    requires
        m@.len() == 1024,
    ensures
        b@ == block_spec(m@),
        b@.len() == 64,
{
    let mut b: Vec<u32> = Vec::new();
    let mut i: usize = 0;
    while i < 8
        invariant
            i <= 8,
            m@.len() == 1024,
            b@.len() == i * 8,
            forall|k: int| 0 <= k < i * 8 ==> b@[k] == normalize_zero(m@[(k / 8) * 32 + k % 8]),
        decreases 8 - i,
    {
        let mut j: usize = 0;
        while j < 8
            invariant
                i < 8,
                j <= 8,
                m@.len() == 1024,
                b@.len() == i * 8 + j,
                forall|k: int| 0 <= k < i * 8 + j ==> b@[k] == normalize_zero(
                    m@[(k / 8) * 32 + k % 8],
                ),
            decreases 8 - j,
        {
            let x = normalize_zero_bits(m[i * 32 + j]);
            b.push(x);
            proof {
                let k = i * 8 + j;
                assert(k / 8 == i && k % 8 == j) by (nonlinear_arith)
                    requires
                        0 <= i < 8,
                        0 <= j < 8,
                        k == i * 8 + j,
                ;
            }
            j = j + 1;
        }
        i = i + 1;
    }
    proof {
        assert(b@ =~= block_spec(m@));
    }
    b
}

/// Entry (i, j) of the block, for i and j in 0..8, is entry (i, j) of
/// the matrix: the block draws on rows 0 to 7 and columns 0 to 7 only.
pub proof fn lemma_block_entry(m: Seq<u32>, i: int, j: int)
    requires
        m.len() == 1024,
        0 <= i < 8,
        0 <= j < 8,
    ensures
        block_spec(m)[i * 8 + j] == normalize_zero(m[i * 32 + j]),
{
    assert((i * 8 + j) / 8 == i && (i * 8 + j) % 8 == j) by (nonlinear_arith)
        requires
            0 <= i < 8,
            0 <= j < 8,
    ;
}

/// The 64 hash bits of a low-frequency block for a given median
/// pattern: bit k is set exactly when coefficient k is strictly above
/// the median in the order of the keys, with zeros identified.
pub open spec fn bits_spec(b: Seq<u32>, med: u32) -> Seq<bool> {
    Seq::new(64, |k: int| sort_key(b[k]) > sort_key(normalize_zero(med)))
}

/// Threshold each coefficient of the block against the median pattern:
/// strictly greater gives a set bit.
pub fn hash_bits(block: &Vec<u32>, med: u32) -> (r: Vec<bool>)
    requires
        block@.len() == 64,
    ensures
        r@ == bits_spec(block@, med),
        r@.len() == 64,
{
    let m = key_of(normalize_zero_bits(med));
    let mut r: Vec<bool> = Vec::new();
    let mut k: usize = 0;
    while k < 64
        invariant
            k <= 64,
            block@.len() == 64,
            m == sort_key(normalize_zero(med)),
            r@.len() == k,
            forall|t: int| 0 <= t < k ==> r@[t] == (sort_key(block@[t]) > sort_key(
                normalize_zero(med),
            )),
        decreases 64 - k,
    {
        let bit = key_of(block[k]) > m;
        r.push(bit);
        k = k + 1;
    }
    proof {
        assert(r@ =~= bits_spec(block@, med));
    }
    r
}

/// A coefficient exactly equal to the median yields an unset bit:
/// the threshold is strictly greater-than, so a tie goes to zero.
pub proof fn lemma_median_tie(b: Seq<u32>, med: u32, k: int)
    requires
        b.len() == 64,
        0 <= k < 64,
        b[k] == normalize_zero(med),
    ensures
        !bits_spec(b, med)[k],
{
}

/// The hash of a coefficient matrix for a given median pattern: the
/// low-frequency block, thresholded and packed most-significant first.
pub open spec fn hash_of_dct(m: Seq<u32>, med: u32) -> nat {
    pack_bits(bits_spec(block_spec(m), med))
}

/// The hash always fits in 64 bits: it packs exactly 64 booleans.
pub proof fn lemma_hash_fits(m: Seq<u32>, med: u32)
    ensures
        hash_of_dct(m, med) < pow2(64),
{
    lemma_pack_bits_bound(bits_spec(block_spec(m), med));
}

/// Construct the hash from the coefficient matrix and the median
/// pattern of its low-frequency block.
pub fn hash_from_dct(m: &Vec<u32>, med: u32) -> (h: u64)
    requires
        m@.len() == 1024,
    ensures
        h as nat == hash_of_dct(m@, med),
{
    let block = low_frequency_block(m);
    let bits = hash_bits(&block, med);
    vec_to_u64(bits.as_slice())
}

/// The whole pipeline as one function of its inputs: greyscale
/// reduction and downscaling of the source raster, conversion of the
/// working samples to bit patterns, the two-pass transform with row
/// transform `g`, and the thresholded, packed low-frequency block.
pub open spec fn hash_pipeline(
    g: spec_fn(Seq<u32>) -> Seq<u32>,
    width: u32,
    height: u32,
    rgba: Seq<u8>,
    med: u32,
) -> nat {
    hash_of_dct(transform_2d(g, matrix_of_samples(scaled_of(width, height, rgba))), med)
}

/// A transform machine that started from the prepared samples of a
/// source raster and stayed on track for a row transform `g` (which
/// each `put_row` of a `g`-transformed row guarantees) ends holding
/// the matrix whose hash is the whole pipeline's hash.
pub proof fn lemma_pipeline_composition(
    g: spec_fn(Seq<u32>) -> Seq<u32>,
    width: u32,
    height: u32,
    rgba: Seq<u8>,
    t: Transform2d,
    med: u32,
)
    requires
        machine_tracks(t, g, matrix_of_samples(scaled_of(width, height, rgba))),
        t.pass_no() == 2,
    ensures
        hash_of_dct(t.matrix_view(), med) == hash_pipeline(g, width, height, rgba, med),
{
}

/// Determinism: the pipeline holds no state and draws on nothing but
/// its inputs, so two source rasters of the same dimensions and the
/// same bytes, carried through the same row transform and thresholded
/// against the same median, give the same hash.
pub proof fn lemma_hash_deterministic(
    g: spec_fn(Seq<u32>) -> Seq<u32>,
    width1: u32,
    height1: u32,
    rgba1: Seq<u8>,
    med1: u32,
    width2: u32,
    height2: u32,
    rgba2: Seq<u8>,
    med2: u32,
)
    requires
        width1 == width2,
        height1 == height2,
        rgba1 == rgba2,
        med1 == med2,
    ensures
        hash_pipeline(g, width1, height1, rgba1, med1) == hash_pipeline(
            g,
            width2,
            height2,
            rgba2,
            med2,
        ),
{
}

} // verus!
