use phash::convert::sample_matrix;
use phash::hash::hash_from_dct;
use phash::hash::low_frequency_block;
use phash::median::median_pair;
use phash::raster::convert_greyscale;
use phash::raster::scale_image;
use phash::raster::Raster;
use phash::transform::Transform2d;

/// The two-pass separable 2D transform, driven through the machine:
/// this loop only evaluates the 1D size-32 DCT-II on each row the
/// machine asks for.
fn transform_2d(m: &Vec<u32>) -> Vec<u32> {
    let mut planner = rustdct::DctPlanner::<f32>::new();
    let dct = planner.plan_dct2(32);
    let mut t = Transform2d::start(m.clone());
    while let Some(row) = t.next_row() {
        let mut buf: Vec<f32> = row.iter().map(|&b| f32::from_bits(b)).collect();
        dct.process_dct2(&mut buf);
        let out: Vec<u32> = buf.iter().map(|x| x.to_bits()).collect();
        t.put_row(&out);
    }
    t.result()
}

/// The mean of the two middle coefficients, as a bit pattern.
fn median_bits(lo: u32, hi: u32) -> u32 {
    ((f32::from_bits(lo) + f32::from_bits(hi)) / 2.0).to_bits()
}

/// The full pipeline on a decoded RGBA raster.
fn hash_rgba(width: u32, height: u32, data: Vec<u8>) -> u64 {
    let raster = Raster { width, height, data };
    let grey = convert_greyscale(&raster);
    let scaled = scale_image(&grey);
    let samples = sample_matrix(&scaled);
    let dct = transform_2d(&samples);
    let block = low_frequency_block(&dct);
    let (lo, hi) = median_pair(&block);
    hash_from_dct(&dct, median_bits(lo, hi))
}

fn hamming(a: u64, b: u64) -> u32 {
    (a ^ b).count_ones()
}

/// A deterministic synthetic photograph-like image: a soft gradient
/// with two blobs of different brightness.
fn synthetic_scene(width: u32, height: u32) -> Vec<u8> {
    let mut data = Vec::new();
    for y in 0..height {
        for x in 0..width {
            let fx = x as f32 / width as f32;
            let fy = y as f32 / height as f32;
            let mut v = 60.0 + 120.0 * fx + 40.0 * fy;
            let d1 = (fx - 0.3) * (fx - 0.3) + (fy - 0.35) * (fy - 0.35);
            if d1 < 0.04 {
                v += 70.0;
            }
            let d2 = (fx - 0.7) * (fx - 0.7) + (fy - 0.65) * (fy - 0.65);
            if d2 < 0.09 {
                v -= 50.0;
            }
            let b = v.max(0.0).min(255.0) as u8;
            data.push(b);
            data.push(b);
            data.push(b);
            data.push(255);
        }
    }
    data
}

/// Deterministic pseudo-random bytes from a linear congruential step.
fn noise_rgba(width: u32, height: u32, seed: u64) -> Vec<u8> {
    let mut state = seed;
    let mut data = Vec::new();
    for _ in 0..width * height {
        state = state.wrapping_mul(6364136223846793005).wrapping_add(1442695040888963407);
        let b = (state >> 33) as u8;
        data.push(b);
        data.push(b);
        data.push(b);
        data.push(255);
    }
    data
}

#[test]
fn transform_machine_identity_round_trip() {
    // With the identity as row transform, the two bracketing
    // transposes cancel and the machine returns the matrix unchanged.
    let m: Vec<u32> = (0..1024u32).collect();
    let mut t = Transform2d::start(m.clone());
    while let Some(row) = t.next_row() {
        t.put_row(&row);
    }
    assert_eq!(t.result(), m);
}

#[test]
fn hash_is_deterministic() {
    let data = synthetic_scene(96, 96);
    let a = hash_rgba(96, 96, data.clone());
    let b = hash_rgba(96, 96, data);
    assert_eq!(a, b);
}

#[test]
fn pipeline_shape_fixed_for_any_source() {
    for (w, h) in [(1u32, 1u32), (3, 5), (7, 100), (77, 33), (128, 128)] {
        let raster = Raster { width: w, height: h, data: vec![100; (w * h * 4) as usize] };
        let grey = convert_greyscale(&raster);
        assert_eq!(grey.data.len(), (w * h) as usize);
        let scaled = scale_image(&grey);
        assert_eq!(scaled.data.len(), 1024);
        let samples = sample_matrix(&scaled);
        let dct = transform_2d(&samples);
        assert_eq!(dct.len(), 1024);
    }
}

#[test]
fn greyscale_uses_luma_weights() {
    let red = Raster { width: 1, height: 1, data: vec![255, 0, 0, 255] };
    assert_eq!(convert_greyscale(&red).data, vec![54]);
    let green = Raster { width: 1, height: 1, data: vec![0, 255, 0, 255] };
    assert_eq!(convert_greyscale(&green).data, vec![182]);
    let blue = Raster { width: 1, height: 1, data: vec![0, 0, 255, 255] };
    assert_eq!(convert_greyscale(&blue).data, vec![18]);
}

#[test]
fn scaling_constant_image_stays_constant() {
    let grey = phash::raster::GreyRaster { width: 5, height: 9, data: vec![7; 45] };
    let scaled = scale_image(&grey);
    assert_eq!(scaled.data.len(), 1024);
    let first = scaled.data[0];
    assert!(scaled.data.iter().all(|&b| b == first));
    assert!(6 <= first && first <= 8);
}

#[test]
fn near_duplicate_after_rescale() {
    // The same scene rendered at two sizes: a moderate rescale must
    // stay within a small Hamming distance.
    let a = hash_rgba(128, 128, synthetic_scene(128, 128));
    let b = hash_rgba(96, 96, synthetic_scene(96, 96));
    assert!(hamming(a, b) <= 8, "distance {}", hamming(a, b));
}

#[test]
fn near_duplicate_after_jpeg_reencoding() {
    let scene = synthetic_scene(128, 128);
    let reference = hash_rgba(128, 128, scene.clone());
    for quality in [85u8, 40u8] {
        let img = image::RgbaImage::from_raw(128, 128, scene.clone()).unwrap();
        let mut bytes: Vec<u8> = Vec::new();
        let mut cursor = std::io::Cursor::new(&mut bytes);
        let mut enc = image::codecs::jpeg::JpegEncoder::new_with_quality(&mut cursor, quality);
        enc.encode_image(&img).unwrap();
        let decoded = image::load_from_memory(&bytes).unwrap().to_rgba8();
        let h = hash_rgba(128, 128, decoded.into_raw());
        assert!(hamming(reference, h) <= 8, "quality {}: distance {}", quality, hamming(reference, h));
    }
}

#[test]
fn unrelated_images_differ_in_about_half_the_bits() {
    // Unrelated content: the distance should sit near 32 of 64 bits.
    let mut total = 0;
    let pairs = [(1u64, 99u64), (7, 1234), (42, 4242)];
    for (s1, s2) in pairs {
        let a = hash_rgba(64, 64, noise_rgba(64, 64, s1));
        let b = hash_rgba(64, 64, noise_rgba(64, 64, s2));
        total += hamming(a, b);
    }
    let mean = total / pairs.len() as u32;
    assert!(16 <= mean && mean <= 48, "mean distance {}", mean);
}
