use vstd::prelude::*;

verus! {

/// A decoded source image: row-major pixels, four bytes (RGBA) per pixel.
pub struct Raster {
    pub width: u32,
    pub height: u32,
    pub data: Vec<u8>,
}

impl Raster {
    /// Well-formed: at least one pixel each way, four samples per pixel.
    pub open spec fn wf(&self) -> bool {
        &&& self.width >= 1
        &&& self.height >= 1
        &&& self.data@.len() == self.width * self.height * 4
    }
}

/// A single-channel raster: one luminance byte per pixel, row-major.
pub struct GreyRaster {
    pub width: u32,
    pub height: u32,
    pub data: Vec<u8>,
}

impl GreyRaster {
    /// Well-formed: at least one pixel each way, one sample per pixel.
    pub open spec fn wf(&self) -> bool {
        &&& self.width >= 1
        &&& self.height >= 1
        &&& self.data@.len() == self.width * self.height
    }
}

/// The fixed 32x32 working raster: 1024 luminance bytes, row-major.
pub struct ScaledRaster {
    pub data: Vec<u8>,
}

impl ScaledRaster {
    /// Well-formed: exactly 32 * 32 samples.
    pub open spec fn wf(&self) -> bool {
        self.data@.len() == 1024
    }
}

pub uninterp spec fn grey_of(width: u32, height: u32, rgba: Seq<u8>) -> Seq<u8>;

/// Relies on `image::imageops::grayscale` on an `RgbaImage`: it maps each
/// RGBA pixel to one luminance byte with fixed integer luma weights,
/// keeps the dimensions, and depends only on the samples and dimensions.
/// The length precondition is what `RgbaImage::from_raw` needs, so the
/// buffer construction is total.
#[verifier::external_body]
fn grayscale_call(width: u32, height: u32, data: &Vec<u8>) -> (r: Vec<u8>)
    requires
        width >= 1,
        height >= 1,
        data@.len() == width * height * 4,
    ensures
        r@ == grey_of(width, height, data@),
        r@.len() == width * height,
{
    let img = image::RgbaImage::from_raw(width, height, data.clone()).unwrap();
    image::imageops::grayscale(&img).into_raw()
}

pub uninterp spec fn scale32_of(width: u32, height: u32, grey: Seq<u8>) -> Seq<u8>;

/// Relies on `image::imageops::resize` with `FilterType::Triangle` on a
/// `GrayImage`: it resamples to exactly the requested 32x32 dimensions
/// with the triangular kernel and depends only on the samples and
/// dimensions. The length precondition is what `GrayImage::from_raw`
/// needs, so the buffer construction is total.
#[verifier::external_body]
fn resize32_call(width: u32, height: u32, data: &Vec<u8>) -> (r: Vec<u8>)
    requires
        width >= 1,
        height >= 1,
        data@.len() == width * height,
    ensures
        r@ == scale32_of(width, height, data@),
        r@.len() == 1024,
{
    let img = image::GrayImage::from_raw(width, height, data.clone()).unwrap();
    image::imageops::resize(&img, 32, 32, image::imageops::FilterType::Triangle).into_raw()
}

/// Collapse the four channels of each pixel to one luminance byte.
pub fn convert_greyscale(r: &Raster) -> (g: GreyRaster)
    requires
        r.wf(),
    ensures
        g.wf(),
        g.width == r.width,
        g.height == r.height,
        g.data@ == grey_of(r.width, r.height, r.data@),
{
    let data = grayscale_call(r.width, r.height, &r.data);
    GreyRaster { width: r.width, height: r.height, data }
}

/// Resample a greyscale raster of any dimensions to the fixed 32x32 grid
/// with the triangular filter; the aspect ratio is not preserved.
pub fn scale_image(g: &GreyRaster) -> (s: ScaledRaster)
    requires
        g.wf(),
    ensures
        s.wf(),
        s.data@ == scale32_of(g.width, g.height, g.data@),
{
    let data = resize32_call(g.width, g.height, &g.data);
    ScaledRaster { data }
}

/// The 32x32 working samples that a well-formed source raster leads to:
/// greyscale reduction followed by the fixed downscale. Both steps are
/// functions of the samples and dimensions alone, so the whole front end
/// is deterministic.
pub open spec fn scaled_of(width: u32, height: u32, rgba: Seq<u8>) -> Seq<u8> {
    scale32_of(width, height, grey_of(width, height, rgba))
}

} // verus!
