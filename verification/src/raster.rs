//! Packed RGB rasters: the library's own image type, the aspect-preserving
//! fit computation, row packing of strided frame planes, and the trusted
//! resampling and encoding calls into the image crate.

use vstd::prelude::*;

verus! {

/// A packed, row-major, 24-bit RGB raster with no stride padding.
pub struct RgbRaster {
    pub width: u32,
    pub height: u32,
    pub data: Vec<u8>,
}

impl RgbRaster {
    /// Exactly three bytes per pixel.
    pub open spec fn wf(&self) -> bool {
        self.data@.len() == 3 * self.width as int * self.height as int
    }
}

/// Width of the aspect-preserving fit of `(ow, oh)` into the box `(tw, th)`:
/// a relatively wider source fits to the target width; otherwise the width is
/// derived from the target height.
pub open spec fn fit_width(ow: u32, oh: u32, tw: u32, th: u32) -> int {
    if ow as int * th as int > tw as int * oh as int {
        tw as int
    } else {
        th as int * ow as int / oh as int
    }
}

/// Height of the aspect-preserving fit: the counterpart of `fit_width`.
pub open spec fn fit_height(ow: u32, oh: u32, tw: u32, th: u32) -> int {
    if ow as int * th as int > tw as int * oh as int {
        tw as int * oh as int / ow as int
    } else {
        th as int
    }
}

proof fn lemma_u32_product_fits(a: u32, b: u32)
    ensures
        a as int * b as int <= u64::MAX as int,
{
    assert(a as int * b as int <= 0xffff_ffff_ffff_ffff) by (nonlinear_arith)
        requires
            a <= 0xffff_ffff,
            b <= 0xffff_ffff,
    ;
}

/// Compute the dimensions of the resized thumbnail: the source aspect ratio
/// is preserved, neither target dimension is exceeded, and the fitted
/// dimension equals its target exactly.
pub fn fit_dimensions(ow: u32, oh: u32, tw: u32, th: u32) -> (r: (u32, u32))
    requires
        1 <= ow,
        1 <= oh,
        1 <= tw,
        1 <= th,
    ensures
        r.0 == fit_width(ow, oh, tw, th),
        r.1 == fit_height(ow, oh, tw, th),
        r.0 <= tw,
        r.1 <= th,
        r.0 == tw || r.1 == th,
{
    proof {
        lemma_u32_product_fits(ow, th);
        lemma_u32_product_fits(tw, oh);
        lemma_u32_product_fits(th, ow);
    }
    let cross_left = (ow as u64) * (th as u64);
    let cross_right = (tw as u64) * (oh as u64);
    if cross_left > cross_right {
        let nh = ((tw as u64) * (oh as u64)) / (ow as u64);
        assert((tw as int * oh as int) / (ow as int) <= th as int) by (nonlinear_arith)
            requires
                1 <= ow,
                1 <= th,
                ow as int * th as int > tw as int * oh as int,
        ;
        (tw, nh as u32)
    } else {
        let nw = ((th as u64) * (ow as u64)) / (oh as u64);
        assert((th as int * ow as int) / (oh as int) <= tw as int) by (nonlinear_arith)
            requires
                1 <= oh,
                1 <= tw,
                ow as int * th as int <= tw as int * oh as int,
        ;
        (nw as u32, th)
    }
}

/// The bytes of the first `height` rows of a strided plane, each row cut to
/// its `3 * width` payload bytes and concatenated: a packed RGB buffer.
pub open spec fn packed_rows(data: Seq<u8>, stride: int, width: int, height: int) -> Seq<u8>
    decreases height,
{
    if height <= 0 {
        Seq::empty()
    } else {
        packed_rows(data, stride, width, height - 1) + data.subrange(
            (height - 1) * stride,
            (height - 1) * stride + 3 * width,
        )
    }
}

/// Copy a strided frame plane into a packed RGB buffer, dropping any
/// per-row padding.
pub fn pack_rows(data: &[u8], stride: usize, width: u32, height: u32) -> (r: Vec<u8>)
    requires
        3 * width as int <= stride as int,
        height == 0 || (height as int - 1) * stride as int + 3 * width as int <= data@.len(),
        3 * width as int * height as int <= usize::MAX,
    ensures
        r@ == packed_rows(data@, stride as int, width as int, height as int),
        r@.len() == 3 * width as int * height as int,
{
    let mut out: Vec<u8> = Vec::new();
    let dlen = data.len();
    let mut y: u32 = 0;
    while y < height
        invariant
            y <= height,
            dlen == data@.len(),
            3 * width as int <= stride as int,
            height == 0 || (height as int - 1) * stride as int + 3 * width as int <= data@.len(),
            3 * width as int * height as int <= usize::MAX,
            out@ == packed_rows(data@, stride as int, width as int, y as int),
            out@.len() == 3 * width as int * y as int,
        decreases height - y,
    {
        assert(y as int * stride as int <= (height as int - 1) * stride as int)
            by (nonlinear_arith)
            requires
                y < height,
                0 <= stride,
        ;
        let row_start = (y as usize) * stride;
        let row_end = row_start + 3 * (width as usize);
        let row = vstd::slice::slice_subrange(data, row_start, row_end);
        out.extend_from_slice(row);
        proof {
            assert(out@ == packed_rows(data@, stride as int, width as int, y as int + 1));
            assert(3 * width as int * y as int + 3 * width as int == 3 * width as int * (
            y as int + 1)) by (nonlinear_arith);
        }
        y = y + 1;
    }
    out
}

/// What Lanczos3 resampling of a packed RGB raster yields: a pure function of
/// the pixels and of the old and new dimensions.
pub uninterp spec fn lanczos_resize_of(data: Seq<u8>, ow: u32, oh: u32, nw: u32, nh: u32) -> Seq<
    u8,
>;

/// Relies on `image::imageops::resize` with `FilterType::Lanczos3` and
/// `image::RgbImage::from_raw`: resampling depends only on the pixels and the
/// dimensions, and the returned buffer holds exactly the requested
/// dimensions at three bytes per pixel.
#[verifier::external_body]
pub fn lanczos_resize(raster: &RgbRaster, nw: u32, nh: u32) -> (r: RgbRaster)
    requires
        raster.wf(),
        1 <= raster.width,
        1 <= raster.height,
        3 * nw as int * nh as int <= usize::MAX,
    ensures
        r.width == nw,
        r.height == nh,
        r.wf(),
        r.data@ == lanczos_resize_of(raster.data@, raster.width, raster.height, nw, nh),
{
    let img = image::RgbImage::from_raw(raster.width, raster.height, raster.data.clone()).unwrap();
    let resized = image::imageops::resize(&img, nw, nh, image::imageops::FilterType::Lanczos3);
    RgbRaster { width: nw, height: nh, data: resized.into_raw() }
}

/// What the JPEG encoder emits for a packed RGB raster at a given quality: a
/// pure function of the pixels, dimensions and quality.
pub uninterp spec fn jpeg_encoding_of(data: Seq<u8>, width: u32, height: u32, quality: u8) -> Seq<
    u8,
>;

/// Relies on `image::codecs::jpeg::JpegEncoder::new_with_quality` and
/// `encode`: the emitted bytes depend only on the pixels, dimensions and
/// quality. For a well-formed RGB buffer written to an in-memory vector, the
/// only failure is a dimension above 65535 (the frame header's field width);
/// within that limit encoding succeeds, and the output begins with the JPEG
/// markers, so it is never empty.
#[verifier::external_body]
pub fn jpeg_encode(raster: &RgbRaster, quality: u8) -> (r: Result<Vec<u8>, String>)
    requires
        raster.wf(),
        1 <= quality <= 100,
    ensures
        r is Ok ==> r->Ok_0@ == jpeg_encoding_of(
            raster.data@,
            raster.width,
            raster.height,
            quality,
        ),
        raster.width <= 65535 && raster.height <= 65535 ==> r is Ok,
        r is Ok ==> r->Ok_0@.len() > 0,
{
    let mut buffer: Vec<u8> = Vec::new();
    let mut cursor = std::io::Cursor::new(&mut buffer);
    let mut encoder = image::codecs::jpeg::JpegEncoder::new_with_quality(&mut cursor, quality);
    let outcome = encoder.encode(
        raster.data.as_slice(),
        raster.width,
        raster.height,
        image::ColorType::Rgb8,
    );
    match outcome {
        Ok(()) => Ok(buffer),
        Err(e) => Err(e.to_string()),
    }
}

/// What the PNG encoder emits for a packed RGB raster: a pure function of the
/// pixels and dimensions (PNG is lossless, so no quality parameter).
pub uninterp spec fn png_encoding_of(data: Seq<u8>, width: u32, height: u32) -> Seq<u8>;

/// Relies on `image::DynamicImage::write_to` with `ImageFormat::Png`: the
/// emitted bytes depend only on the pixels and dimensions. For a well-formed
/// RGB buffer written to an in-memory vector, the only failures are a zero
/// width or height; with both dimensions at least one, encoding succeeds, and
/// the output begins with the PNG signature, so it is never empty.
#[verifier::external_body]
pub fn png_encode(raster: &RgbRaster) -> (r: Result<Vec<u8>, String>)
    requires
        raster.wf(),
    ensures
        r is Ok ==> r->Ok_0@ == png_encoding_of(raster.data@, raster.width, raster.height),
        1 <= raster.width && 1 <= raster.height ==> r is Ok,
        r is Ok ==> r->Ok_0@.len() > 0,
{
    let img = image::RgbImage::from_raw(raster.width, raster.height, raster.data.clone()).unwrap();
    let mut buffer: Vec<u8> = Vec::new();
    let mut cursor = std::io::Cursor::new(&mut buffer);
    let outcome = image::DynamicImage::ImageRgb8(img).write_to(
        &mut cursor,
        image::ImageFormat::Png,
    );
    match outcome {
        Ok(()) => Ok(buffer),
        Err(e) => Err(e.to_string()),
    }
}

} // verus!
