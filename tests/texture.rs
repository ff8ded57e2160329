use rust_engine::texture::{image_from_decoded, load};

fn png_bytes(width: u32, height: u32, pixels: Vec<u8>) -> Vec<u8> {
    let img = image::RgbaImage::from_raw(width, height, pixels).unwrap();
    let mut out: Vec<u8> = Vec::new();
    image::DynamicImage::ImageRgba8(img).write_to(&mut out, image::ImageOutputFormat::Png).unwrap();
    out
}

#[test]
fn png_decodes_to_rgba() {
    let pixels = vec![10, 20, 30, 255, 40, 50, 60, 128];
    let bytes = png_bytes(2, 1, pixels.clone());
    let tex = load(&bytes);
    assert!(!tex.placeholder);
    assert_eq!((tex.width, tex.height), (2, 1));
    assert_eq!(tex.pixels, pixels);
}

#[test]
fn undecodable_bytes_give_placeholder() {
    let tex = load(b"not an image");
    assert!(tex.placeholder);
    assert_eq!((tex.width, tex.height), (1, 1));
    assert_eq!(tex.pixels, vec![255, 0, 255, 255]);
    let empty = load(&[]);
    assert!(empty.placeholder);
}

#[test]
fn decoded_result_of_wrong_size_gives_placeholder() {
    let tex = image_from_decoded(Some((2, 2, vec![1, 2, 3, 4])));
    assert!(tex.placeholder);
    assert_eq!(tex.pixels, vec![255, 0, 255, 255]);
    let ok = image_from_decoded(Some((1, 1, vec![1, 2, 3, 4])));
    assert!(!ok.placeholder);
    assert_eq!(ok.pixels, vec![1, 2, 3, 4]);
    let none = image_from_decoded(None);
    assert!(none.placeholder);
    let zero = image_from_decoded(Some((0, 5, vec![])));
    assert!(!zero.placeholder);
    assert_eq!((zero.width, zero.height), (0, 5));
}

#[test]
fn oversized_header_gives_placeholder() {
    let mut bytes = b"farbfeld".to_vec();
    bytes.extend_from_slice(&0x4000_0000u32.to_be_bytes());
    bytes.extend_from_slice(&0x4000_0000u32.to_be_bytes());
    let tex = load(&bytes);
    assert!(tex.placeholder);
    assert_eq!(tex.pixels, vec![255, 0, 255, 255]);
    let mut big = b"farbfeld".to_vec();
    big.extend_from_slice(&10000u32.to_be_bytes());
    big.extend_from_slice(&10000u32.to_be_bytes());
    assert!(load(&big).placeholder);
}
