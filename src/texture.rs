//! Decoding texture source bytes into RGBA pixels, with a visible
//! placeholder when the bytes cannot be decoded, so that a bad asset shows up
//! on screen instead of stopping the session.

use vstd::prelude::*;

verus! {

/// Decoded pixels: `width` by `height`, four bytes (red, green, blue, alpha)
/// per pixel, rows from the top. `placeholder` is set when the source could
/// not be decoded and the image is the placeholder instead.
pub struct TextureImage {
    pub width: u32,
    pub height: u32,
    pub pixels: Vec<u8>,
    pub placeholder: bool,
}

/// The pixels of the placeholder: one opaque magenta pixel.
pub open spec fn placeholder_pixels() -> Seq<u8> {
    seq![255u8, 0u8, 255u8, 255u8]
}

/// The most pixels a texture may have: 8192 by 8192. Decoding a larger
/// image is refused before any pixel memory is asked for.
pub const MAX_PIXELS: u64 = 0x400_0000;

/// The width and height that the header of `bytes` declares, or nothing
/// when the format is not recognised or the header cannot be read.
pub uninterp spec fn header_dims(bytes: Seq<u8>) -> Option<(u32, u32)>;

/// Whether the header of `bytes` declares a size that may be decoded.
pub open spec fn decodable_size(bytes: Seq<u8>) -> bool {
    header_dims(bytes) matches Some((w, h)) && w * h <= MAX_PIXELS
}

/// What the image decoder makes of `bytes`: width, height and 8-bit RGBA
/// pixels, or nothing when the bytes are no image it can read.
pub uninterp spec fn decoded_rgba(bytes: Seq<u8>) -> Option<(u32, u32, Seq<u8>)>;

/// The image made of a decoder result `d`: the decoded image when it holds
/// four bytes per pixel, the placeholder otherwise.
pub open spec fn image_of(d: Option<(u32, u32, Seq<u8>)>) -> (u32, u32, Seq<u8>, bool) {
    match d {
        Some((w, h, p)) => if p.len() == 4 * w * h {
            (w, h, p, false)
        } else {
            (1, 1, placeholder_pixels(), true)
        },
        None => (1, 1, placeholder_pixels(), true),
    }
}

/// Relies on `image::io::Reader::with_guessed_format`, which picks the format
/// from the first bytes, and `Reader::into_dimensions`, which reads only the
/// header of that format; the result depends on the bytes alone.
#[verifier::external_body]
fn read_dimensions(buffer: &[u8]) -> (r: Option<(u32, u32)>)
    ensures
        r == header_dims(buffer@),
{
    match image::io::Reader::new(std::io::Cursor::new(buffer)).with_guessed_format() {
        Ok(reader) => reader.into_dimensions().ok(),
        Err(_) => None,
    }
}

/// Relies on `image::load_from_memory`, which decodes an image in any format
/// the crate knows, and `DynamicImage::to_rgba8`, which converts it to 8-bit
/// RGBA; the result depends on the bytes alone. The decoder sizes its pixel
/// buffer from the header, so the header's size must be bounded first: an
/// unbounded one makes the allocation panic.
#[verifier::external_body]
fn decode_rgba(buffer: &[u8]) -> (r: Option<(u32, u32, Vec<u8>)>)
    requires
        decodable_size(buffer@),
    ensures
        match r {
            Some((w, h, p)) => decoded_rgba(buffer@) == Some((w, h, p@)),
            None => decoded_rgba(buffer@) is None,
        },
{
    match image::load_from_memory(buffer) {
        Ok(img) => {
            let rgba = img.to_rgba8();
            let (w, h) = rgba.dimensions();
            Some((w, h, rgba.into_raw()))
        },
        Err(_) => None,
    }
}

/// The image made of a decoder result: the decoded image when it holds
/// four bytes per pixel, the placeholder otherwise.
pub fn image_from_decoded(decoded: Option<(u32, u32, Vec<u8>)>) -> (r: TextureImage)
    ensures
        (r.width, r.height, r.pixels@, r.placeholder) == image_of(
            match decoded {
                Some((w, h, p)) => Some((w, h, p@)),
                None => None,
            },
        ),
{
    match decoded {
        Some((w, h, p)) => {
            assert((w as u128) * (h as u128) <= 0xffff_ffff_ffff_ffff) by (nonlinear_arith)
                requires
                    w <= 0xffff_ffff,
                    h <= 0xffff_ffff,
            ;
            let area = (w as u128) * (h as u128);
            assert(4 * area == 4 * w * h) by (nonlinear_arith)
                requires
                    area == w * h,
            ;
            if p.len() as u128 == 4 * area {
                return TextureImage { width: w, height: h, pixels: p, placeholder: false };
            }
        },
        None => {},
    }
    let pixels = vec![255u8, 0u8, 255u8, 255u8];
    assert(pixels@ =~= placeholder_pixels());
    TextureImage { width: 1, height: 1, pixels, placeholder: true }
}

/// Decodes texture source bytes. Bytes that are no decodable image, or
/// whose header declares more than `MAX_PIXELS` pixels, give the
/// placeholder.
pub fn load(buffer: &[u8]) -> (r: TextureImage)
    ensures
        (r.width, r.height, r.pixels@, r.placeholder) == (if decodable_size(buffer@) {
            image_of(decoded_rgba(buffer@))
        } else {
            image_of(None)
        }),
{
    match read_dimensions(buffer) {
        Some((w, h)) => {
            assert((w as u64) * (h as u64) <= 0xffff_ffff_ffff_ffff) by (nonlinear_arith)
                requires
                    w <= 0xffff_ffff,
                    h <= 0xffff_ffff,
            ;
            if (w as u64) * (h as u64) <= MAX_PIXELS {
                return image_from_decoded(decode_rgba(buffer));
            }
        },
        None => {},
    }
    image_from_decoded(None)
}

} // verus!
