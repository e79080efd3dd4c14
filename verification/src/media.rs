//! Encodings of binary media: base64 text, scaled screenshots and JPEG.
use vstd::prelude::*;

verus! {

/// The character of the standard base64 alphabet for the six-bit value
/// `v`: `A`..`Z`, `a`..`z`, `0`..`9`, `+`, `/`.
pub open spec fn base64_digit(v: int) -> char {
    if v < 26 {
        ('A' as int + v) as char
    } else if v < 52 {
        ('a' as int + v - 26) as char
    } else if v < 62 {
        ('0' as int + v - 52) as char
    } else if v == 62 {
        '+'
    } else {
        '/'
    }
}

/// The standard, padded base64 text of `bytes` (RFC 4648): each group of
/// three bytes becomes four digits of six bits each; a last group of one or
/// two bytes is filled with zero bits and padded with `=` to four
/// characters.
pub open spec fn base64_of(bytes: Seq<u8>) -> Seq<char>
    decreases bytes.len(),
{
    if bytes.len() == 0 {
        Seq::empty()
    } else if bytes.len() == 1 {
        let a = bytes[0] as int;
        seq![base64_digit(a / 4), base64_digit((a % 4) * 16), '=', '=']
    } else if bytes.len() == 2 {
        let (a, b) = (bytes[0] as int, bytes[1] as int);
        seq![base64_digit(a / 4), base64_digit((a % 4) * 16 + b / 16), base64_digit((b % 16) * 4), '=']
    } else {
        let (a, b, c) = (bytes[0] as int, bytes[1] as int, bytes[2] as int);
        seq![
            base64_digit(a / 4),
            base64_digit((a % 4) * 16 + b / 16),
            base64_digit((b % 16) * 4 + c / 64),
            base64_digit(c % 64),
        ] + base64_of(bytes.skip(3))
    }
}

/// Wraps `base64::Engine::encode` on the `STANDARD` engine, which writes
/// `base64_of` of its input. The engine panics when the encoded length does not
/// fit in `usize`, which cannot happen for a slice (at most `isize::MAX`
/// bytes), as the `requires` states.
#[verifier::external_body]
pub fn encode_base64(bytes: &[u8]) -> (r: String)
    requires
        bytes@.len() <= isize::MAX,
    ensures
        r@ == base64_of(bytes@),
{
    base64::Engine::encode(&base64::engine::general_purpose::STANDARD, bytes)
}

/// The RGB bytes of an RGBA image of `width` x `height` scaled to
/// `to_width` x `to_height` by nearest-neighbour sampling, as the `image`
/// crate computes them.
pub uninterp spec fn scaled_rgba(pixels: Seq<u8>, width: nat, height: nat, to_width: nat, to_height: nat) -> Seq<u8>;

/// The same for an RGB image.
pub uninterp spec fn scaled_rgb(pixels: Seq<u8>, width: nat, height: nat, to_width: nat, to_height: nat) -> Seq<u8>;

/// Wraps `image::RgbaImage::from_raw`, `DynamicImage::resize_exact` with
/// the nearest filter, and `to_rgb8`. `from_raw` refuses a buffer shorter
/// than `width * height * 4`; otherwise the result, named by `scaled_rgba`,
/// has `to_width * to_height` RGB pixels (the `image` source shows both).
#[verifier::external_body]
pub fn scale_rgba(pixels: Vec<u8>, width: u32, height: u32, to_width: u32, to_height: u32) -> (r: Option<Vec<u8>>)
    ensures
        r is None <==> pixels@.len() < width * height * 4,
        r matches Some(v) ==> v@ == scaled_rgba(pixels@, width as nat, height as nat, to_width as nat, to_height as nat)
            && v@.len() == to_width * to_height * 3,
{
    match image::RgbaImage::from_raw(width, height, pixels) {
        Some(img) => Some(
            image::DynamicImage::ImageRgba8(img)
                .resize_exact(to_width, to_height, image::imageops::FilterType::Nearest)
                .to_rgb8()
                .into_raw(),
        ),
        None => None,
    }
}

/// Wraps `image::RgbImage::from_raw`, `DynamicImage::resize_exact` with the
/// nearest filter, and `to_rgb8`, as `scale_rgba` does for RGB input (three
/// bytes a pixel).
#[verifier::external_body]
pub fn scale_rgb(pixels: Vec<u8>, width: u32, height: u32, to_width: u32, to_height: u32) -> (r: Option<Vec<u8>>)
    ensures
        r is None <==> pixels@.len() < width * height * 3,
        r matches Some(v) ==> v@ == scaled_rgb(pixels@, width as nat, height as nat, to_width as nat, to_height as nat)
            && v@.len() == to_width * to_height * 3,
{
    match image::RgbImage::from_raw(width, height, pixels) {
        Some(img) => Some(
            image::DynamicImage::ImageRgb8(img)
                .resize_exact(to_width, to_height, image::imageops::FilterType::Nearest)
                .to_rgb8()
                .into_raw(),
        ),
        None => None,
    }
}

/// The JPEG file that the `image` crate's encoder writes for an RGB image
/// at the given quality.
pub uninterp spec fn jpeg_of(rgb: Seq<u8>, width: nat, height: nat, quality: nat) -> Seq<u8>;

/// Wraps `image::codecs::jpeg::JpegEncoder::new_with_quality` and `encode`
/// into a byte vector. The encoder panics unless the buffer holds exactly
/// `width * height` RGB pixels, which the `requires` states; it refuses a
/// width or height of 0 or above 65535, and writing to a vector does not
/// fail, so other sizes are encoded (the file is named by `jpeg_of`; like
/// every vector of bytes it holds at most `isize::MAX` of them). The error
/// text is the encoder's message.
#[verifier::external_body]
pub fn encode_jpeg(rgb: &[u8], width: u32, height: u32, quality: u8) -> (r: Result<Vec<u8>, String>)
    requires
        rgb@.len() == width * height * 3,
    ensures
        r matches Ok(v) ==> v@ == jpeg_of(rgb@, width as nat, height as nat, quality as nat)
            && v@.len() <= isize::MAX,
        1 <= width <= 65535 && 1 <= height <= 65535 ==> r is Ok,
{
    let mut buf: Vec<u8> = Vec::new();
    let res = {
        let mut enc = image::codecs::jpeg::JpegEncoder::new_with_quality(&mut buf, quality);
        enc.encode(rgb, width, height, image::ExtendedColorType::Rgb8)
    };
    match res {
        Ok(()) => Ok(buf),
        Err(e) => Err(e.to_string()),
    }
}

} // verus!
