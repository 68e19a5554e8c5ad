//! In-memory images as plain pixel buffers, and the `image` crate's
//! operations on them: grayscale conversion, cropping, Gaussian resizing and
//! JPEG decoding.
//!
//! Pixels are stored row by row; pixel `(x, y)` of an image `width` pixels
//! wide starts at index `(y * width + x) * channels`.

use vstd::prelude::*;

verus! {

/// An 8-bit RGBA image.
#[derive(Debug)]
pub struct RgbaImage {
    pub width: u32,
    pub height: u32,
    pub data: Vec<u8>,
}

/// An 8-bit single-channel (luma) image.
#[derive(Debug)]
pub struct LumaImage {
    pub width: u32,
    pub height: u32,
    pub data: Vec<u8>,
}

impl RgbaImage {
    /// The buffer holds exactly four bytes per pixel.
    pub open spec fn wf(&self) -> bool {
        self.data.len() == self.width * self.height * 4
    }

    /// Builds an image from raw RGBA bytes; `None` unless there are exactly
    /// `4 * width * height` of them.
    pub fn from_raw(width: u32, height: u32, data: Vec<u8>) -> (res: Option<RgbaImage>)
        ensures
            res is Some <==> data.len() == width * height * 4,
            res matches Some(img) ==> img.wf() && img.width == width && img.height == height
                && img.data@ == data@,
    {
        proof {
            vstd::arithmetic::mul::lemma_mul_upper_bound(width as int, u32::MAX as int,
                height as int, u32::MAX as int);
        }
        let n: u64 = (width as u64) * (height as u64);
        if n <= (usize::MAX / 4) as u64 && data.len() == (n as usize) * 4 {
            Some(RgbaImage { width, height, data })
        } else {
            proof {
                if data.len() == width * height * 4 {
                    assert(n * 4 <= usize::MAX);
                }
            }
            None
        }
    }
}

impl LumaImage {
    /// The buffer holds exactly one byte per pixel.
    pub open spec fn wf(&self) -> bool {
        self.data.len() == self.width * self.height
    }

    /// The value of pixel `(x, y)`.
    pub open spec fn pixel(&self, x: int, y: int) -> u8 {
        self.data@[y * self.width + x]
    }

    /// Builds an image from raw luma bytes; `None` unless there are exactly
    /// `width * height` of them.
    pub fn from_raw(width: u32, height: u32, data: Vec<u8>) -> (res: Option<LumaImage>)
        ensures
            res is Some <==> data.len() == width * height,
            res matches Some(img) ==> img.wf() && img.width == width && img.height == height
                && img.data@ == data@,
    {
        proof {
            vstd::arithmetic::mul::lemma_mul_upper_bound(width as int, u32::MAX as int,
                height as int, u32::MAX as int);
        }
        let n: u64 = (width as u64) * (height as u64);
        if n <= usize::MAX as u64 && data.len() == n as usize {
            Some(LumaImage { width, height, data })
        } else {
            None
        }
    }
}

/// Luminance of an sRGB colour: `(2126 r + 7152 g + 722 b) / 10000`,
/// rounded down.
pub open spec fn luma_of(r: u8, g: u8, b: u8) -> u8 {
    ((2126 * r + 7152 * g + 722 * b) / 10000) as u8
}

/// The luma bytes of the first `n` pixels of an RGBA buffer; alpha is
/// ignored.
pub open spec fn spec_grayscale(rgba: Seq<u8>, n: int) -> Seq<u8> {
    Seq::new(n as nat, |k: int| luma_of(rgba[4 * k], rgba[4 * k + 1], rgba[4 * k + 2]))
}

/// Left (or top) edge of a crop that asks for `at` in an image `full` wide.
pub open spec fn crop_origin(full: int, at: int) -> int {
    if at < full {
        at
    } else {
        full
    }
}

/// Width (or height) of a crop asking for `want` from `at`: what is left of
/// the image past the edge, if less.
pub open spec fn crop_extent(full: int, at: int, want: int) -> int {
    let rest = full - crop_origin(full, at);
    if want < rest {
        want
    } else {
        rest
    }
}

/// The pixels of the `w` x `h` rectangle at `(x, y)` of a luma buffer
/// `iw` x `ih`, clipped to the image.
pub open spec fn spec_crop(data: Seq<u8>, iw: int, ih: int, x: int, y: int, w: int, h: int) -> Seq<u8> {
    let cx = crop_origin(iw, x);
    let cy = crop_origin(ih, y);
    let cw = crop_extent(iw, x, w);
    let ch = crop_extent(ih, y, h);
    Seq::new((cw * ch) as nat, |k: int| data[(cy + k / cw) * iw + cx + k % cw])
}

/// What `image::imageops::resize` with `FilterType::Gaussian` returns for a
/// `width` x `height` buffer with `channels` bytes per pixel, resized to
/// `new_width` x `new_height`.
pub uninterp spec fn gaussian_resized(
    channels: nat,
    width: u32,
    height: u32,
    data: Seq<u8>,
    new_width: u32,
    new_height: u32,
) -> Seq<u8>;

/// What `image::load_from_memory_with_format` with `ImageFormat::Jpeg`,
/// followed by `to_rgba8`, gives for these bytes: width, height and RGBA
/// bytes, or `None` where decoding fails.
pub uninterp spec fn jpeg_decoded(bytes: Seq<u8>) -> Option<(u32, u32, Seq<u8>)>;

/// A resize with these sizes allocates nothing that overflows: the `f32`
/// RGBA buffer of `width x new_height` pixels it samples through, and the
/// output buffer.
pub open spec fn resize_fits(channels: int, width: u32, height: u32, new_width: u32, new_height: u32) -> bool {
    &&& channels * new_width * new_height <= isize::MAX
    &&& (width != 0 && height != 0 && !(new_width == width && new_height == height))
        ==> 16 * width * new_height <= isize::MAX
}

/// The width (or height) of a crop asking for `want` pixels from `at`, in an
/// image `full` pixels wide.
pub fn crop_size(full: u32, at: u32, want: u32) -> (n: u32)
    ensures
        n == crop_extent(full as int, at as int, want as int),
{
    let origin: u32 = if at < full { at } else { full };
    let rest: u32 = full - origin;
    if want < rest {
        want
    } else {
        rest
    }
}

/// Whether a resize between these sizes allocates within the machine's
/// limits.
pub fn fits_resize(channels: u32, width: u32, height: u32, new_width: u32, new_height: u32) -> (ok: bool)
    ensures
        ok == resize_fits(channels as int, width, height, new_width, new_height),
{
    proof {
        vstd::arithmetic::mul::lemma_mul_upper_bound(channels as int, u32::MAX as int,
            new_width as int, u32::MAX as int);
        vstd::arithmetic::mul::lemma_mul_upper_bound(channels * new_width, 0x1_0000_0000_0000_0000int,
            new_height as int, u32::MAX as int);
        vstd::arithmetic::mul::lemma_mul_upper_bound(16 * width, 0x10_0000_0000int,
            new_height as int, u32::MAX as int);
    }
    let out: u128 = (channels as u128) * (new_width as u128) * (new_height as u128);
    let buffer: u128 = 16 * (width as u128) * (new_height as u128);
    let resampled: bool = width != 0 && height != 0 && !(new_width == width && new_height == height);
    out <= isize::MAX as u128 && (!resampled || buffer <= isize::MAX as u128)
}

/// Grayscale conversion by `image::imageops::grayscale`: each pixel becomes
/// `luma_of` its red, green and blue bytes, and the size is kept.
#[verifier::external_body]
pub(crate) fn grayscale(img: &RgbaImage) -> (out: LumaImage)
    requires
        img.wf(),
    ensures
        out.wf(),
        out.width == img.width,
        out.height == img.height,
        out.data@ == spec_grayscale(img.data@, img.width * img.height),
{
    let buf = image::RgbaImage::from_raw(img.width, img.height, img.data.clone()).unwrap();
    let gray = image::imageops::grayscale(&buf);
    LumaImage { width: gray.width(), height: gray.height(), data: gray.into_raw() }
}

/// Cropping by `image::imageops::crop_imm` and `SubImage::to_image`: the
/// rectangle is clipped to the image and its pixels copied.
#[verifier::external_body]
pub(crate) fn crop(img: &LumaImage, x: u32, y: u32, w: u32, h: u32) -> (out: LumaImage)
    requires
        img.wf(),
    ensures
        out.wf(),
        out.width == crop_extent(img.width as int, x as int, w as int),
        out.height == crop_extent(img.height as int, y as int, h as int),
        out.data@ == spec_crop(img.data@, img.width as int, img.height as int, x as int, y as int,
            w as int, h as int),
{
    let buf = image::GrayImage::from_raw(img.width, img.height, img.data.clone()).unwrap();
    let part = image::imageops::crop_imm(&buf, x, y, w, h).to_image();
    LumaImage { width: part.width(), height: part.height(), data: part.into_raw() }
}

/// Gaussian resizing of a luma image by `image::imageops::resize`. The
/// result has the new size; an empty source gives black pixels, and an
/// unchanged size gives a copy.
#[verifier::external_body]
pub(crate) fn resize_luma(img: &LumaImage, new_width: u32, new_height: u32) -> (out: LumaImage)
    requires
        img.wf(),
        resize_fits(1, img.width, img.height, new_width, new_height),
    ensures
        out.wf(),
        out.width == new_width,
        out.height == new_height,
        out.data@ == gaussian_resized(1, img.width, img.height, img.data@, new_width, new_height),
        (img.width == 0 || img.height == 0) ==> out.data@ == Seq::new(
            (new_width * new_height) as nat,
            |k: int| 0u8,
        ),
        (new_width == img.width && new_height == img.height) ==> out.data@ == img.data@,
{
    let buf = image::GrayImage::from_raw(img.width, img.height, img.data.clone()).unwrap();
    let out = image::imageops::resize(&buf, new_width, new_height,
        image::imageops::FilterType::Gaussian);
    LumaImage { width: out.width(), height: out.height(), data: out.into_raw() }
}

/// Gaussian resizing of an RGBA image by `image::imageops::resize`, with the
/// same facts as for luma images.
#[verifier::external_body]
pub(crate) fn resize_rgba(img: &RgbaImage, new_width: u32, new_height: u32) -> (out: RgbaImage)
    requires
        img.wf(),
        resize_fits(4, img.width, img.height, new_width, new_height),
    ensures
        out.wf(),
        out.width == new_width,
        out.height == new_height,
        out.data@ == gaussian_resized(4, img.width, img.height, img.data@, new_width, new_height),
        (img.width == 0 || img.height == 0) ==> out.data@ == Seq::new(
            (new_width * new_height * 4) as nat,
            |k: int| 0u8,
        ),
        (new_width == img.width && new_height == img.height) ==> out.data@ == img.data@,
{
    let buf = image::RgbaImage::from_raw(img.width, img.height, img.data.clone()).unwrap();
    let out = image::imageops::resize(&buf, new_width, new_height,
        image::imageops::FilterType::Gaussian);
    RgbaImage { width: out.width(), height: out.height(), data: out.into_raw() }
}

/// JPEG decoding by `image::load_from_memory_with_format`, converted to
/// RGBA by `DynamicImage::to_rgba8`; `None` where the decoder fails.
#[verifier::external_body]
pub(crate) fn decode_jpeg(bytes: &[u8]) -> (out: Option<RgbaImage>)
    ensures
        out is None <==> jpeg_decoded(bytes@) is None,
        out matches Some(img) ==> img.wf() && jpeg_decoded(bytes@) == Some(
            (img.width, img.height, img.data@),
        ),
{
    match image::load_from_memory_with_format(bytes, image::ImageFormat::Jpeg) {
        Ok(decoded) => {
            let rgba = decoded.to_rgba8();
            Some(RgbaImage { width: rgba.width(), height: rgba.height(), data: rgba.into_raw() })
        },
        Err(_) => None,
    }
}

} // verus!
