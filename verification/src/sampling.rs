//! The image pipelines of the toolkit: grayscale crops as flat pixel
//! buffers, downsampled grayscale samples, the per-tile cuts of a sky image,
//! and the half-size copy of a captured photo.

use vstd::prelude::*;
use vstd::arithmetic::mul::*;
use crate::raster::{
    crop, crop_extent, crop_origin, decode_jpeg, gaussian_resized, grayscale, jpeg_decoded, resize_fits,
    resize_luma, resize_rgba, spec_crop, spec_grayscale, LumaImage, RgbaImage,
};
use crate::tiles::TileOrigin;

verus! {

/// The grayscale pixels of the `w` x `h` crop at `(x, y)` of an RGBA image.
pub open spec fn spec_gray_crop(img: &RgbaImage, x: u32, y: u32, w: u32, h: u32) -> Seq<u8> {
    spec_crop(
        spec_grayscale(img.data@, img.width * img.height),
        img.width as int,
        img.height as int,
        x as int,
        y as int,
        w as int,
        h as int,
    )
}

/// A crop is never larger than what it asks for, nor than the image.
proof fn lemma_crop_extent_bounds(full: int, at: int, want: int)
    requires
        full >= 0,
        at >= 0,
        want >= 0,
    ensures
        0 <= crop_extent(full, at, want) <= want,
        crop_extent(full, at, want) <= full,
        crop_origin(full, at) + crop_extent(full, at, want) <= full,
{
}

/// Copies pixel values into a zeroed buffer of `size` entries, first to
/// last.
pub fn pixel_buffer(pixels: &Vec<u8>, size: usize) -> (values: Vec<u8>)
    requires
        pixels.len() <= size,
    ensures
        values@ == pixels@ + Seq::new((size - pixels.len()) as nat, |k: int| 0u8),
{
    let mut values: Vec<u8> = Vec::new();
    let mut i: usize = 0;
    while i < size
        invariant
            i <= size,
            pixels.len() <= size,
            values.len() == i,
            forall|k: int| 0 <= k < i ==> #[trigger] values[k] == (if k < pixels.len() {
                pixels[k]
            } else {
                0u8
            }),
        decreases size - i,
    {
        if i < pixels.len() {
            values.push(pixels[i]);
        } else {
            values.push(0u8);
        }
        i = i + 1;
    }
    assert(values@ =~= pixels@ + Seq::new((size - pixels.len()) as nat, |k: int| 0u8));
    values
}

/// The grayscale values of a crop of an image, in a zero-padded buffer of
/// `size` entries.
pub fn gray_crop_values(img: &RgbaImage, x: u32, y: u32, w: u32, h: u32, size: usize) -> (values: Vec<u8>)
    requires
        img.wf(),
        w * h <= size,
    ensures
        values@ == spec_gray_crop(img, x, y, w, h) + Seq::new(
            (size - spec_gray_crop(img, x, y, w, h).len()) as nat,
            |k: int| 0u8,
        ),
{
    let gray = grayscale(img);
    let part = crop(&gray, x, y, w, h);
    proof {
        lemma_crop_extent_bounds(img.width as int, x as int, w as int);
        lemma_crop_extent_bounds(img.height as int, y as int, h as int);
        lemma_mul_upper_bound(part.width as int, w as int, part.height as int, h as int);
    }
    pixel_buffer(&part.data, size)
}

/// A grayscale crop of an image, resized to `sample_width` x
/// `sample_height`.
pub fn downsample(
    img: &RgbaImage,
    x: u32,
    y: u32,
    w: u32,
    h: u32,
    sample_width: u32,
    sample_height: u32,
) -> (sample: LumaImage)
    requires
        img.wf(),
        resize_fits(
            1,
            crop_extent(img.width as int, x as int, w as int) as u32,
            crop_extent(img.height as int, y as int, h as int) as u32,
            sample_width,
            sample_height,
        ),
    ensures
        sample.wf(),
        sample.width == sample_width,
        sample.height == sample_height,
        sample.data@ == gaussian_resized(
            1,
            crop_extent(img.width as int, x as int, w as int) as u32,
            crop_extent(img.height as int, y as int, h as int) as u32,
            spec_gray_crop(img, x, y, w, h),
            sample_width,
            sample_height,
        ),
{
    let gray = grayscale(img);
    let part = crop(&gray, x, y, w, h);
    resize_luma(&part, sample_width, sample_height)
}

/// One tile of a sky image: the grayscale crop and its downscaled copy.
#[derive(Debug)]
pub struct TileCut {
    /// The output this tile goes to.
    pub index: u32,
    pub cropped: LumaImage,
    pub sample: LumaImage,
}

/// The cut of tile `o`: its crop of the grayscale image, and that crop
/// resized to the export size.
pub open spec fn tile_cut_matches(
    cut: TileCut,
    img: &RgbaImage,
    o: TileOrigin,
    tile_width: u32,
    tile_height: u32,
    export_width: u32,
    export_height: u32,
) -> bool {
    &&& cut.index == o.index
    &&& cut.cropped.wf()
    &&& cut.cropped.width == crop_extent(img.width as int, o.x as int, tile_width as int)
    &&& cut.cropped.height == crop_extent(img.height as int, o.y as int, tile_height as int)
    &&& cut.cropped.data@ == spec_gray_crop(img, o.x, o.y, tile_width, tile_height)
    &&& cut.sample.wf()
    &&& cut.sample.width == export_width
    &&& cut.sample.height == export_height
    &&& cut.sample.data@ == gaussian_resized(
        1,
        cut.cropped.width,
        cut.cropped.height,
        cut.cropped.data@,
        export_width,
        export_height,
    )
}

/// Cuts every planned tile out of a sky image, converted to grayscale, and
/// downscales each to `export_width` x `export_height`.
pub fn cut_tiles(
    img: &RgbaImage,
    plan: &Vec<TileOrigin>,
    tile_width: u32,
    tile_height: u32,
    export_width: u32,
    export_height: u32,
) -> (cuts: Vec<TileCut>)
    requires
        img.wf(),
        export_width * export_height <= isize::MAX,
        16 * tile_width * export_height <= isize::MAX,
    ensures
        cuts.len() == plan.len(),
        forall|k: int|
            0 <= k < plan.len() ==> tile_cut_matches(
                #[trigger] cuts[k],
                img,
                plan[k],
                tile_width,
                tile_height,
                export_width,
                export_height,
            ),
{
    let gray = grayscale(img);
    let mut cuts: Vec<TileCut> = Vec::new();
    let mut i: usize = 0;
    while i < plan.len()
        invariant
            i <= plan.len(),
            gray.wf(),
            gray.width == img.width,
            gray.height == img.height,
            gray.data@ == spec_grayscale(img.data@, img.width * img.height),
            export_width * export_height <= isize::MAX,
            16 * tile_width * export_height <= isize::MAX,
            cuts.len() == i,
            forall|k: int|
                0 <= k < i ==> tile_cut_matches(
                    #[trigger] cuts[k],
                    img,
                    plan[k],
                    tile_width,
                    tile_height,
                    export_width,
                    export_height,
                ),
        decreases plan.len() - i,
    {
        let o = plan[i];
        let cropped = crop(&gray, o.x, o.y, tile_width, tile_height);
        proof {
            lemma_crop_extent_bounds(img.width as int, o.x as int, tile_width as int);
            lemma_mul_inequality(16 * cropped.width, 16 * tile_width, export_height as int);
        }
        let sample = resize_luma(&cropped, export_width, export_height);
        cuts.push(TileCut { index: o.index, cropped, sample });
        i = i + 1;
    }
    cuts
}

/// A captured photo at half its width and height (rounded down), resized
/// with a Gaussian filter.
pub fn process_image(img: &RgbaImage) -> (out: RgbaImage)
    requires
        img.wf(),
        resize_fits(4, img.width, img.height, img.width / 2, img.height / 2),
    ensures
        out.wf(),
        out.width == img.width / 2,
        out.height == img.height / 2,
        out.data@ == gaussian_resized(
            4,
            img.width,
            img.height,
            img.data@,
            img.width / 2,
            img.height / 2,
        ),
{
    resize_rgba(img, img.width / 2, img.height / 2)
}

/// Decodes a captured JPEG photo into RGBA pixels; `None` where it does not
/// decode.
pub fn decode_photo(bytes: &Vec<u8>) -> (photo: Option<RgbaImage>)
    ensures
        photo is None <==> jpeg_decoded(bytes@) is None,
        photo matches Some(img) ==> img.wf() && jpeg_decoded(bytes@) == Some(
            (img.width, img.height, img.data@),
        ),
{
    decode_jpeg(bytes.as_slice())
}

/// Whether bytes decode as a JPEG image.
pub fn is_jpeg(bytes: &Vec<u8>) -> (ok: bool)
    ensures
        ok == jpeg_decoded(bytes@) is Some,
{
    decode_jpeg(bytes.as_slice()).is_some()
}

} // verus!
