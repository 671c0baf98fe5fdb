use std::io::Cursor;

use render_bridge::image::{ImageCache, ImageError};

/// A tiny red-and-green PNG encoded in memory, standing in for a file read.
fn png_bytes() -> Vec<u8> {
    let mut img = image::RgbaImage::new(2, 1);
    img.put_pixel(0, 0, image::Rgba([255, 0, 0, 255]));
    img.put_pixel(1, 0, image::Rgba([0, 255, 0, 255]));
    let mut buf: Vec<u8> = Vec::new();
    img.write_to(&mut Cursor::new(&mut buf), image::ImageOutputFormat::Png)
        .unwrap();
    buf
}

#[test]
fn decode_yields_rgba8_pixels() {
    let mut cache = ImageCache::new();
    let path = String::from("logo.png");
    let img = cache.get_or_decode(&path, &png_bytes()).unwrap();
    assert_eq!(img.width, 2);
    assert_eq!(img.height, 1);
    assert_eq!(img.pixels, vec![255, 0, 0, 255, 0, 255, 0, 255]);
}

#[test]
fn second_lookup_is_pixel_identical_and_reads_nothing() {
    let mut cache = ImageCache::new();
    let path = String::from("logo.png");
    let first = cache.get_or_decode(&path, &png_bytes()).unwrap();
    let first_pixels = first.pixels.clone();
    let first_dims = (first.width, first.height);
    // the second call gets garbage bytes: a hit never decodes, so the stub
    // "filesystem" is read at most once per path
    let garbage = vec![0u8, 1, 2, 3];
    let second = cache.get_or_decode(&path, &garbage).unwrap();
    assert_eq!((second.width, second.height), first_dims);
    assert_eq!(second.pixels, first_pixels);
}

#[test]
fn undecodable_bytes_are_a_per_call_error() {
    let mut cache = ImageCache::new();
    let path = String::from("broken.img");
    let err = cache.get_or_decode(&path, &vec![1u8, 2, 3]).unwrap_err();
    assert_eq!(err, ImageError::DecodeFailed);
    // the failure left no entry behind
    assert!(cache.get(&path).is_none());
}

#[test]
fn distinct_paths_are_distinct_entries() {
    let mut cache = ImageCache::new();
    let a = String::from("a.png");
    let b = String::from("b.png");
    cache.get_or_decode(&a, &png_bytes()).unwrap();
    assert!(cache.get(&a).is_some());
    assert!(cache.get(&b).is_none());
    cache.get_or_decode(&b, &png_bytes()).unwrap();
    assert!(cache.get(&b).is_some());
}
