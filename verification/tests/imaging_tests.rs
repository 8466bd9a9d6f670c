use home4paws::errors::FetchError;
use home4paws::imaging::load_color_image_from_bytes;

/// A hand-written 1x1 bitmap file, 24 bits per pixel, one blue pixel.
fn one_pixel_bmp() -> Vec<u8> {
    vec![
        0x42, 0x4D, // "BM"
        0x3A, 0x00, 0x00, 0x00, // file size: 58 bytes
        0x00, 0x00, 0x00, 0x00, // reserved
        0x36, 0x00, 0x00, 0x00, // pixel data offset: 54
        0x28, 0x00, 0x00, 0x00, // header size: 40
        0x01, 0x00, 0x00, 0x00, // width: 1
        0x01, 0x00, 0x00, 0x00, // height: 1
        0x01, 0x00, // planes: 1
        0x18, 0x00, // bits per pixel: 24
        0x00, 0x00, 0x00, 0x00, // no compression
        0x04, 0x00, 0x00, 0x00, // pixel data size
        0x13, 0x0B, 0x00, 0x00, // x pixels per metre
        0x13, 0x0B, 0x00, 0x00, // y pixels per metre
        0x00, 0x00, 0x00, 0x00, // palette size
        0x00, 0x00, 0x00, 0x00, // important colors
        0xFF, 0x00, 0x00, // one pixel, blue in BGR order
        0x00, // row padding
    ]
}

#[test]
fn decodes_one_pixel_image() {
    let bitmap = load_color_image_from_bytes(&one_pixel_bmp()).expect("valid image");
    assert_eq!(bitmap.width, 1);
    assert_eq!(bitmap.height, 1);
    assert_eq!(bitmap.pixels.len(), 4);
    assert_eq!(bitmap.pixels[2], 0xFF); // the blue channel of the one pixel
    assert_eq!(bitmap.pixels[3], 0xFF); // opaque alpha
}

#[test]
fn rejects_bytes_that_are_no_image() {
    let result = load_color_image_from_bytes(b"these bytes are no image at all");
    assert!(matches!(result, Err(FetchError::Decode(_))));
}

#[test]
fn rejects_empty_bytes() {
    let result = load_color_image_from_bytes(&[]);
    assert!(matches!(result, Err(FetchError::Decode(_))));
}
