use std::io::Cursor;

use server::block_image::{block_image_file, compose_block_image, reencode_as_png};

fn solid_png(w: u32, h: u32, rgba: [u8; 4]) -> Vec<u8> {
    let img = image::DynamicImage::ImageRgba8(image::RgbaImage::from_pixel(w, h, image::Rgba(rgba)));
    let mut bytes = Vec::new();
    img.write_to(&mut Cursor::new(&mut bytes), image::ImageOutputFormat::Png).unwrap();
    bytes
}

fn solid_bmp(w: u32, h: u32, rgba: [u8; 4]) -> Vec<u8> {
    let img = image::DynamicImage::ImageRgba8(image::RgbaImage::from_pixel(w, h, image::Rgba(rgba)));
    let mut bytes = Vec::new();
    img.write_to(&mut Cursor::new(&mut bytes), image::ImageOutputFormat::Bmp).unwrap();
    bytes
}

#[test]
fn picture_places_tiles_row_by_row() {
    let red = solid_png(10, 10, [255, 0, 0, 255]);
    let blue = solid_png(3, 7, [0, 0, 255, 255]);
    let tiles = vec![Some(red), None, Some(blue)];
    let picture = compose_block_image(2, &tiles).unwrap().into_image().to_rgba8();
    assert_eq!(picture.dimensions(), (80, 80));
    assert_eq!(picture.get_pixel(20, 20).0, [255, 0, 0, 255]);
    // Tile 1 was not fetched: its place stays transparent.
    assert_eq!(picture.get_pixel(60, 20).0[3], 0);
    // Tile 2 starts the second row.
    assert_eq!(picture.get_pixel(20, 60).0, [0, 0, 255, 255]);
    assert_eq!(picture.get_pixel(60, 60).0[3], 0);
}

#[test]
fn picture_fails_on_undecodable_tile() {
    let tiles = vec![Some(solid_png(4, 4, [1, 2, 3, 255])), Some(vec![1, 2, 3, 4])];
    assert!(compose_block_image(3, &tiles).is_none());
}

#[test]
fn empty_block_picture_is_transparent() {
    let picture = compose_block_image(1, &vec![]).unwrap().into_image().to_rgba8();
    assert_eq!(picture.dimensions(), (80, 80));
    assert_eq!(picture.get_pixel(0, 0).0, [0, 0, 0, 0]);
}

#[test]
fn reencoding_turns_bmp_into_png() {
    let bmp = solid_bmp(5, 6, [9, 8, 7, 255]);
    let png = reencode_as_png(&bmp).unwrap();
    assert_eq!(&png[..8], &[0x89, b'P', b'N', b'G', 0x0d, 0x0a, 0x1a, 0x0a]);
    let back = image::load_from_memory(&png).unwrap().to_rgba8();
    assert_eq!(back.dimensions(), (5, 6));
    assert_eq!(back.get_pixel(2, 3).0, [9, 8, 7, 255]);
}

#[test]
fn reencoding_refuses_non_images() {
    assert!(reencode_as_png(b"not an image").is_none());
}

#[test]
fn block_picture_paths() {
    assert_eq!(block_image_file("/srv", 7), "/srv/images/block_7.png");
    assert_eq!(block_image_file("", 12), "/images/block_12.png");
}
