use sky_watch::raster::{LumaImage, RgbaImage};
use sky_watch::sampling::{
    cut_tiles, decode_photo, downsample, gray_crop_values, is_jpeg, pixel_buffer, process_image,
};
use sky_watch::tiles::TileOrigin;

/// A 3 x 2 image: red, green, blue / white, black, grey.
fn small_image() -> RgbaImage {
    let data = vec![
        255, 0, 0, 255, 0, 255, 0, 255, 0, 0, 255, 255, //
        255, 255, 255, 255, 0, 0, 0, 255, 100, 100, 100, 7,
    ];
    RgbaImage::from_raw(3, 2, data).unwrap()
}

fn luma(r: u32, g: u32, b: u32) -> u8 {
    ((2126 * r + 7152 * g + 722 * b) / 10000) as u8
}

#[test]
fn raw_images_need_exact_lengths() {
    assert!(RgbaImage::from_raw(3, 2, vec![0; 24]).is_some());
    assert!(RgbaImage::from_raw(3, 2, vec![0; 23]).is_none());
    assert!(LumaImage::from_raw(3, 2, vec![0; 6]).is_some());
    assert!(LumaImage::from_raw(3, 2, vec![0; 7]).is_none());
}

#[test]
fn pixel_buffer_pads_with_zeros() {
    assert_eq!(pixel_buffer(&vec![4, 5], 4), vec![4, 5, 0, 0]);
    assert_eq!(pixel_buffer(&vec![4, 5], 2), vec![4, 5]);
}

#[test]
fn gray_crop_values_of_whole_image() {
    let v = gray_crop_values(&small_image(), 0, 0, 10, 10, 100);
    assert_eq!(v.len(), 100);
    assert_eq!(v[0], luma(255, 0, 0));
    assert_eq!(v[0], 54);
    assert_eq!(v[1], 182);
    assert_eq!(v[2], 18);
    assert_eq!(v[3], 255);
    assert_eq!(v[4], 0);
    assert_eq!(v[5], luma(100, 100, 100));
    assert!(v[6..].iter().all(|&b| b == 0));
}

#[test]
fn gray_crop_values_of_inner_rectangle() {
    let v = gray_crop_values(&small_image(), 1, 1, 2, 5, 10);
    assert_eq!(v, vec![0, 100, 0, 0, 0, 0, 0, 0, 0, 0]);
}

#[test]
fn crop_past_the_edge_is_empty() {
    let v = gray_crop_values(&small_image(), 7, 0, 2, 2, 4);
    assert_eq!(v, vec![0, 0, 0, 0]);
}

#[test]
fn downsample_to_the_crop_size_keeps_pixels() {
    let s = downsample(&small_image(), 0, 0, 3, 2, 3, 2);
    assert_eq!((s.width, s.height), (3, 2));
    assert_eq!(s.data, vec![54, 182, 18, 255, 0, 100]);
}

#[test]
fn downsample_of_uniform_image_stays_uniform() {
    let img = RgbaImage::from_raw(8, 8, vec![200; 256]).unwrap();
    let s = downsample(&img, 0, 0, 8, 8, 2, 2);
    assert_eq!((s.width, s.height), (2, 2));
    assert!(s.data.iter().all(|&b| b == 200));
}

#[test]
fn downsample_of_empty_crop_is_black() {
    let s = downsample(&small_image(), 3, 0, 4, 4, 2, 3);
    assert_eq!((s.width, s.height), (2, 3));
    assert_eq!(s.data, vec![0; 6]);
}

#[test]
fn cut_tiles_crops_and_resizes() {
    let img = RgbaImage::from_raw(4, 4, (0..64).map(|i| (i / 4 * 10) as u8).collect()).unwrap();
    let plan = vec![
        TileOrigin { x: 0, y: 0, index: 0 },
        TileOrigin { x: 2, y: 2, index: 3 },
    ];
    let cuts = cut_tiles(&img, &plan, 2, 2, 2, 2);
    assert_eq!(cuts.len(), 2);
    assert_eq!(cuts[1].index, 3);
    assert_eq!((cuts[1].cropped.width, cuts[1].cropped.height), (2, 2));
    let gray = |k: u32| luma(k * 10, k * 10, k * 10);
    assert_eq!(cuts[0].cropped.data, vec![gray(0), gray(1), gray(4), gray(5)]);
    assert_eq!(cuts[1].cropped.data, vec![gray(10), gray(11), gray(14), gray(15)]);
    assert_eq!(cuts[1].sample.data, cuts[1].cropped.data);
}

#[test]
fn process_image_halves_the_size() {
    let img = RgbaImage::from_raw(5, 4, vec![90; 80]).unwrap();
    let out = process_image(&img);
    assert_eq!((out.width, out.height), (2, 2));
    assert_eq!(out.data.len(), 16);
    assert!(out.data.iter().all(|&b| b == 90));
}

fn jpeg_bytes() -> Vec<u8> {
    let img = image::RgbImage::from_pixel(6, 4, image::Rgb([10, 120, 240]));
    let mut out = std::io::Cursor::new(Vec::new());
    img.write_to(&mut out, image::ImageFormat::Jpeg).unwrap();
    out.into_inner()
}

#[test]
fn photos_decode_to_rgba() {
    let photo = decode_photo(&jpeg_bytes()).unwrap();
    assert_eq!((photo.width, photo.height), (6, 4));
    assert_eq!(photo.data.len(), 96);
    assert_eq!(photo.data[3], 255);
    assert!(is_jpeg(&jpeg_bytes()));
}

#[test]
fn garbage_is_not_a_photo() {
    assert!(decode_photo(&vec![1, 2, 3]).is_none());
    assert!(!is_jpeg(&vec![0xff, 0xd8, 0]));
}
