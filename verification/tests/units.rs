use phash::convert::sample_to_bits;
use phash::hash::hash_bits;
use phash::hash::low_frequency_block;
use phash::hash::vec_to_u64;
use phash::median::key_of;
use phash::median::median_pair;
use phash::median::normalize_zero_bits;
use phash::transform::transpose32;

#[test]
fn pack_all_ones() {
    let bits = vec![true; 64];
    assert_eq!(vec_to_u64(&bits), 0xFFFFFFFFFFFFFFFF);
}

#[test]
fn pack_all_zeros() {
    let bits = vec![false; 64];
    assert_eq!(vec_to_u64(&bits), 0);
}

#[test]
fn pack_msb_is_first_bit() {
    let mut bits = vec![false; 64];
    bits[0] = true;
    assert_eq!(vec_to_u64(&bits), 1u64 << 63);
}

#[test]
fn pack_lsb_is_last_bit() {
    let mut bits = vec![false; 64];
    bits[63] = true;
    assert_eq!(vec_to_u64(&bits), 1);
}

#[test]
fn pack_alternating() {
    let mut bits = vec![false; 64];
    for k in 0..64 {
        bits[k] = k % 2 == 0;
    }
    assert_eq!(vec_to_u64(&bits), 0xAAAAAAAAAAAAAAAA);
}

#[test]
fn sample_bits_match_ieee() {
    for v in 0..=255u8 {
        assert_eq!(sample_to_bits(v), (v as f32).to_bits());
    }
}

#[test]
fn key_order_matches_float_order() {
    let values: [f32; 12] = [
        -3000.5, -255.0, -1.5, -0.25, -0.0, 0.0, 0.25, 1.0, 1.5, 54.0, 255.0, 8160.0,
    ];
    for &a in values.iter() {
        for &b in values.iter() {
            let ka = key_of(normalize_zero_bits(a.to_bits()));
            let kb = key_of(normalize_zero_bits(b.to_bits()));
            assert_eq!(a < b, ka < kb);
            assert_eq!(a == b, ka == kb);
        }
    }
}

#[test]
fn transpose_swaps_entries() {
    let m: Vec<u32> = (0..1024u32).collect();
    let t = transpose32(&m);
    for i in 0..32 {
        for j in 0..32 {
            assert_eq!(t[i * 32 + j], m[j * 32 + i]);
        }
    }
}

#[test]
fn block_takes_top_left_rows_and_cols() {
    let m: Vec<u32> = (0..1024u32).collect();
    let b = low_frequency_block(&m);
    assert_eq!(b.len(), 64);
    for i in 0..8 {
        for j in 0..8 {
            assert_eq!(b[i * 8 + j], m[i * 32 + j]);
        }
    }
}

#[test]
fn median_pair_even_count() {
    let v: Vec<u32> = [3.0f32, 1.0, 2.0, 4.0].iter().map(|x| x.to_bits()).collect();
    let (lo, hi) = median_pair(&v);
    assert_eq!(f32::from_bits(lo), 2.0);
    assert_eq!(f32::from_bits(hi), 3.0);
}

#[test]
fn median_pair_odd_count() {
    let v: Vec<u32> = [3.0f32, 1.0, 2.0].iter().map(|x| x.to_bits()).collect();
    let (lo, hi) = median_pair(&v);
    assert_eq!(f32::from_bits(lo), 2.0);
    assert_eq!(f32::from_bits(hi), 2.0);
}

#[test]
fn median_pair_with_negatives() {
    let v: Vec<u32> = [5.0f32, -3.0, 0.5, -10.25].iter().map(|x| x.to_bits()).collect();
    let (lo, hi) = median_pair(&v);
    assert_eq!(f32::from_bits(lo), -3.0);
    assert_eq!(f32::from_bits(hi), 0.5);
}

#[test]
fn median_tie_gives_unset_bit() {
    // Every coefficient equals the median: strict greater-than must
    // leave every bit unset.
    let block = vec![5.0f32.to_bits(); 64];
    let (lo, hi) = median_pair(&block);
    let med = ((f32::from_bits(lo) + f32::from_bits(hi)) / 2.0).to_bits();
    assert_eq!(f32::from_bits(med), 5.0);
    let bits = hash_bits(&block, med);
    assert!(bits.iter().all(|&b| !b));
    assert_eq!(vec_to_u64(&bits), 0);
}

#[test]
fn threshold_is_strictly_greater() {
    // Half the block at 1.0, half at 2.0: the median is 1.5, the low
    // half stays unset and the high half is set.
    let mut block = vec![1.0f32.to_bits(); 64];
    for k in 32..64 {
        block[k] = 2.0f32.to_bits();
    }
    let (lo, hi) = median_pair(&block);
    assert_eq!(f32::from_bits(lo), 1.0);
    assert_eq!(f32::from_bits(hi), 2.0);
    let med = ((f32::from_bits(lo) + f32::from_bits(hi)) / 2.0).to_bits();
    let bits = hash_bits(&block, med);
    for k in 0..32 {
        assert!(!bits[k]);
    }
    for k in 32..64 {
        assert!(bits[k]);
    }
}

#[test]
fn negative_zero_equals_zero() {
    // A coefficient of negative zero is the same number as the median
    // zero: the bit must stay unset.
    let mut block = vec![0.0f32.to_bits(); 64];
    block[5] = (-0.0f32).to_bits();
    let bits = hash_bits(&block, 0.0f32.to_bits());
    assert!(bits.iter().all(|&b| !b));
}
