//! Raster images as plain pixel buffers, and the calls into the `image`
//! crate that decode, convert and encode them.

use vstd::prelude::*;

verus! {

/// An image with four bytes (red, green, blue, alpha) per pixel, row by row.
#[derive(Clone, Debug)]
pub struct RgbaPixels {
    pub width: u32,
    pub height: u32,
    pub data: Vec<u8>,
}

/// An image with three bytes (red, green, blue) per pixel, row by row.
#[derive(Clone, Debug)]
pub struct RgbPixels {
    pub width: u32,
    pub height: u32,
    pub data: Vec<u8>,
}

impl RgbaPixels {
    /// The buffer holds exactly one pixel per cell.
    pub open spec fn wf(&self) -> bool {
        self.data@.len() == 4 * self.width * self.height
    }
}

impl RgbPixels {
    /// The buffer holds exactly one pixel per cell.
    pub open spec fn wf(&self) -> bool {
        self.data@.len() == 3 * self.width * self.height
    }
}

#[verifier::external_type_specification]
#[verifier::external_body]
pub struct ExImageError(image::ImageError);

#[verifier::external_type_specification]
#[verifier::external_body]
pub struct ExColorType(image::ColorType);

/// How the pixels of a decoded image are laid out: one variant for each
/// colour type of the `image` crate (`image::ColorType`), and `Unknown` for
/// one that a later version might add.
#[derive(Clone, Copy, Debug, PartialEq, Eq, Structural)]
pub enum PixelLayout {
    L8,
    La8,
    Rgb8,
    Rgba8,
    L16,
    La16,
    Rgb16,
    Rgba16,
    Rgb32F,
    Rgba32F,
    Unknown,
}

/// A decoded image as the decoder gave it: its size, its colour type and
/// the bytes of its pixel buffer (`DynamicImage::as_bytes`).
#[derive(Clone, Debug)]
pub struct DecodedImage {
    pub width: u32,
    pub height: u32,
    pub layout: PixelLayout,
    pub data: Vec<u8>,
}

/// What `image::load_from_memory` gives for `bytes` in a process that
/// registered no decoding hooks (the format guessed from the leading bytes
/// with `image::guess_format`, then `image::load_from_memory_with_format`):
/// on success the image's width, height, colour type and pixel bytes
/// (`DynamicImage::as_bytes`), with the pixel bytes of its `to_rgba8`
/// conversion; on failure the error's `Display` text.
pub uninterp spec fn image_decoding(bytes: Seq<u8>) -> Result<(u32, u32, PixelLayout, Seq<u8>, Seq<u8>), Seq<char>>;

/// The decoded image of `bytes` as stored: width, height, colour type and
/// pixel bytes; `None` where decoding fails.
pub open spec fn decoded_image(bytes: Seq<u8>) -> Option<(u32, u32, PixelLayout, Seq<u8>)> {
    match image_decoding(bytes) {
        Ok((w, h, layout, data, _)) => Some((w, h, layout, data)),
        Err(_) => None,
    }
}

/// The decoded image of `bytes` converted to RGBA: width, height and RGBA
/// pixel bytes; `None` where decoding fails.
pub open spec fn decoded_rgba(bytes: Seq<u8>) -> Option<(u32, u32, Seq<u8>)> {
    match image_decoding(bytes) {
        Ok((w, h, _, _, rgba)) => Some((w, h, rgba)),
        Err(_) => None,
    }
}

/// The text of the error that decoding `bytes` ends with (empty where it
/// succeeds).
pub open spec fn decode_error_text(bytes: Seq<u8>) -> Seq<char> {
    match image_decoding(bytes) {
        Ok(_) => Seq::empty(),
        Err(text) => text,
    }
}

/// The eight bytes every PNG file starts with.
pub open spec fn png_signature() -> Seq<u8> {
    seq![137u8, 80u8, 78u8, 71u8, 13u8, 10u8, 26u8, 10u8]
}

/// The RGB bytes of RGBA pixel bytes: bytes 0 to 2 of every 4 kept, the
/// alpha byte dropped.
pub open spec fn drop_alpha(data: Seq<u8>) -> Seq<u8> {
    Seq::new((data.len() / 4) * 3, |i: int| data[(i / 3) * 4 + i % 3])
}

/// The RGBA bytes of RGB pixel bytes, every pixel made opaque.
pub open spec fn add_opaque_alpha(data: Seq<u8>) -> Seq<u8> {
    Seq::new(
        (data.len() / 3) * 4,
        |i: int|
            if i % 4 == 3 {
                255u8
            } else {
                data[(i / 4) * 3 + i % 4]
            },
    )
}

/// The decoder's default memory limit (`image::Limits::default`, 512 MiB)
/// admits a pixel buffer of `width` by `height` pixels of `pixel_bytes`
/// bytes each: the decoder reserves exactly that many bytes against it.
pub open spec fn within_decoder_limit(pixel_bytes: nat, width: u32, height: u32) -> bool {
    pixel_bytes * width * height <= 512 * 1024 * 1024
}

/// The PNG file `DynamicImage::write_to` with `ImageFormat::Png` writes for
/// an RGB image.
pub uninterp spec fn png_of_rgb(width: u32, height: u32, data: Seq<u8>) -> Seq<u8>;

/// The PNG file `DynamicImage::write_to` with `ImageFormat::Png` writes for
/// an RGBA image.
pub uninterp spec fn png_of_rgba(width: u32, height: u32, data: Seq<u8>) -> Seq<u8>;

/// `image::ColorType` as a `PixelLayout`, variant for variant.
#[verifier::external_body]
fn pixel_layout(c: image::ColorType) -> PixelLayout {
    match c {
        image::ColorType::L8 => PixelLayout::L8,
        image::ColorType::La8 => PixelLayout::La8,
        image::ColorType::Rgb8 => PixelLayout::Rgb8,
        image::ColorType::Rgba8 => PixelLayout::Rgba8,
        image::ColorType::L16 => PixelLayout::L16,
        image::ColorType::La16 => PixelLayout::La16,
        image::ColorType::Rgb16 => PixelLayout::Rgb16,
        image::ColorType::Rgba16 => PixelLayout::Rgba16,
        image::ColorType::Rgb32F => PixelLayout::Rgb32F,
        image::ColorType::Rgba32F => PixelLayout::Rgba32F,
        _ => PixelLayout::Unknown,
    }
}

/// Decodes image bytes as `image::load_from_memory` does: the format is
/// guessed from the leading bytes (`image::guess_format`) and the image read
/// with `image::load_from_memory_with_format`, so the decoder, its default
/// `Limits` and the reservation of the pixel buffer against them are the
/// same; only the process-wide decoding hooks, which nothing here
/// registers, are not consulted. Gives the decoded image and its `to_rgba8`
/// conversion, or the error's `Display` text: `image_decoding` of the bytes.
/// An image buffer holds width * height pixels, and `to_rgba8` keeps the
/// size, makes an RGB pixel opaque and keeps an RGBA one.
#[verifier::external_body]
fn load_image(bytes: &[u8]) -> (r: Result<(DecodedImage, RgbaPixels), String>)
    ensures
        r is Ok <==> image_decoding(bytes@) is Ok,
        r is Ok ==> {
            let (raw, rgba) = r->Ok_0;
            &&& image_decoding(bytes@)->Ok_0 == (raw.width, raw.height, raw.layout, raw.data@, rgba.data@)
            &&& rgba.width == raw.width && rgba.height == raw.height
            &&& rgba.wf()
            &&& raw.layout is Rgb8 ==> raw.data@.len() == 3 * raw.width * raw.height
                && rgba.data@ == add_opaque_alpha(raw.data@)
            &&& raw.layout is Rgba8 ==> rgba.data@ == raw.data@
        },
        r is Err ==> image_decoding(bytes@)->Err_0 == r->Err_0@,
{
    let decoded = match image::guess_format(bytes) {
        Ok(format) => image::load_from_memory_with_format(bytes, format),
        Err(e) => Err(e),
    };
    match decoded {
        Ok(img) => {
            let raw = DecodedImage { width: img.width(), height: img.height(), layout: pixel_layout(img.color()), data: img.as_bytes().to_vec() };
            let rgba = img.to_rgba8();
            Ok((raw, RgbaPixels { width: rgba.width(), height: rgba.height(), data: rgba.into_raw() }))
        },
        Err(e) => Err(format!("{}", e)),
    }
}

/// The `Display` text of an `image::ImageError`; nothing is stated of it.
#[verifier::external_body]
fn image_error_text(e: &image::ImageError) -> String {
    format!("{}", e)
}

/// PNG encoding of an RGB image (`DynamicImage::write_to`, `ImageFormat::Png`)
/// into an in-memory buffer. The file starts with the PNG signature, which
/// the `png` encoder writes first, so decoding it again takes the PNG
/// decoder; PNG is lossless and the file records an 8-bit RGB colour type,
/// so that gives an RGB image of the same size and pixels (`decoded_image`),
/// and made opaque by `to_rgba8` (`decoded_rgba`), whenever its pixel
/// buffer fits the decoder's default memory limit. In the `image` and `png` sources the only
/// failures on this path, for an 8-bit RGB buffer of the right length, are
/// the `png` encoder's refusal of a zero width or height and errors of the
/// writer, and writes into a `Vec` through a `Cursor` only append; so it
/// succeeds exactly when both sides are positive.
#[verifier::external_body]
fn write_png_rgb(img: &RgbPixels) -> (r: Result<Vec<u8>, image::ImageError>)
    requires
        img.wf(),
    ensures
        r is Ok <==> (img.width > 0 && img.height > 0),
        r is Ok ==> r->Ok_0@ == png_of_rgb(img.width, img.height, img.data@),
        r is Ok ==> r->Ok_0@.len() >= 8 && r->Ok_0@.subrange(0, 8) == png_signature(),
        r is Ok && within_decoder_limit(3, img.width, img.height) ==> decoded_image(r->Ok_0@)
            == Some((img.width, img.height, PixelLayout::Rgb8, img.data@)),
        r is Ok && within_decoder_limit(3, img.width, img.height) ==> decoded_rgba(r->Ok_0@)
            == Some((img.width, img.height, add_opaque_alpha(img.data@))),
{
    let buffer = image::RgbImage::from_raw(img.width, img.height, img.data.clone()).unwrap();
    let mut out = Vec::new();
    image::DynamicImage::ImageRgb8(buffer).write_to(
        &mut std::io::Cursor::new(&mut out),
        image::ImageFormat::Png,
    )?;
    Ok(out)
}

/// PNG encoding of an RGBA image (`DynamicImage::write_to`, `ImageFormat::Png`)
/// into an in-memory buffer; as for `write_png_rgb`, it succeeds exactly
/// when both sides are positive, starts with the PNG signature, and decodes
/// back to an RGBA image of the same size and pixels within the decoder's
/// default memory limit.
#[verifier::external_body]
fn write_png_rgba(img: &RgbaPixels) -> (r: Result<Vec<u8>, image::ImageError>)
    requires
        img.wf(),
    ensures
        r is Ok <==> (img.width > 0 && img.height > 0),
        r is Ok ==> r->Ok_0@ == png_of_rgba(img.width, img.height, img.data@),
        r is Ok ==> r->Ok_0@.len() >= 8 && r->Ok_0@.subrange(0, 8) == png_signature(),
        r is Ok && within_decoder_limit(4, img.width, img.height) ==> decoded_image(r->Ok_0@)
            == Some((img.width, img.height, PixelLayout::Rgba8, img.data@)),
        r is Ok && within_decoder_limit(4, img.width, img.height) ==> decoded_rgba(r->Ok_0@)
            == Some((img.width, img.height, img.data@)),
{
    let buffer = image::RgbaImage::from_raw(img.width, img.height, img.data.clone()).unwrap();
    let mut out = Vec::new();
    image::DynamicImage::ImageRgba8(buffer).write_to(
        &mut std::io::Cursor::new(&mut out),
        image::ImageFormat::Png,
    )?;
    Ok(out)
}

/// Decodes an image file (its format guessed from its first bytes) into
/// RGBA pixels, or gives the decoder's error text.
pub fn decode_rgba(bytes: &[u8]) -> (r: Result<RgbaPixels, String>)
    ensures
        r is Ok <==> decoded_rgba(bytes@) is Some,
        r is Ok ==> {
            let img = r->Ok_0;
            &&& (img.width, img.height, img.data@) == decoded_rgba(bytes@)->0
            &&& img.wf()
        },
        r is Err ==> r->Err_0@ == decode_error_text(bytes@),
{
    match load_image(bytes) {
        Ok((_, rgba)) => Ok(rgba),
        Err(cause) => Err(cause),
    }
}

/// Decodes an image file (its format guessed from its first bytes) as it
/// is stored, keeping its colour type, or gives the decoder's error text.
pub fn decode_image(bytes: &[u8]) -> (r: Result<DecodedImage, String>)
    ensures
        r is Ok <==> decoded_image(bytes@) is Some,
        r is Ok ==> decoded_image(bytes@) == Some(
            (r->Ok_0.width, r->Ok_0.height, r->Ok_0.layout, r->Ok_0.data@),
        ),
        r is Err ==> r->Err_0@ == decode_error_text(bytes@),
{
    match load_image(bytes) {
        Ok((raw, _)) => Ok(raw),
        Err(cause) => Err(cause),
    }
}

/// The RGB image of an RGBA image: the alpha byte of every pixel dropped
/// (as `DynamicImage::to_rgb8` converts 8-bit RGBA).
pub fn to_rgb(img: RgbaPixels) -> (out: RgbPixels)
    requires
        img.wf(),
    ensures
        out.width == img.width,
        out.height == img.height,
        out.data@ == drop_alpha(img.data@),
        out.wf(),
{
    let total: usize = img.data.len();
    let pixels: usize = total / 4;
    let mut data: Vec<u8> = Vec::new();
    let mut p: usize = 0;
    while p < pixels
        invariant
            total == img.data@.len(),
            pixels == img.data@.len() / 4,
            p <= pixels,
            data@.len() == 3 * p,
            forall|i: int| 0 <= i < 3 * p ==> #[trigger] data@[i] == img.data@[(i / 3) * 4 + i % 3],
        decreases pixels - p,
    {
        let ghost before = data@;
        assert(4 * p + 4 <= img.data@.len()) by (nonlinear_arith)
            requires
                p < pixels,
                pixels == img.data@.len() / 4,
        ;
        let base: usize = 4 * p;
        data.push(img.data[base]);
        data.push(img.data[base + 1]);
        data.push(img.data[base + 2]);
        proof {
            assert forall|i: int| 0 <= i < 3 * (p + 1) implies #[trigger] data@[i] == img.data@[(i / 3)
                * 4 + i % 3] by {
                if i >= 3 * p {
                    assert((i / 3) == p && i % 3 == i - 3 * p) by (nonlinear_arith)
                        requires
                            3 * p <= i < 3 * p + 3,
                    ;
                } else {
                    assert(data@[i] == before[i]);
                }
            }
        }
        p += 1;
    }
    assert(data@ =~= drop_alpha(img.data@));
    assert(3 * (img.data@.len() / 4) == 3 * img.width * img.height) by (nonlinear_arith)
        requires
            img.data@.len() == 4 * img.width * img.height,
    ;
    RgbPixels { width: img.width, height: img.height, data }
}

/// PNG file of an RGB image, or the encoder's error text when the image
/// has no pixels (a zero width or height).
pub fn encode_png_rgb(img: &RgbPixels) -> (r: Result<Vec<u8>, String>)
    requires
        img.wf(),
    ensures
        r is Ok <==> (img.width > 0 && img.height > 0),
        r is Ok ==> r->Ok_0@ == png_of_rgb(img.width, img.height, img.data@),
        r is Ok ==> r->Ok_0@.len() >= 8 && r->Ok_0@.subrange(0, 8) == png_signature(),
        r is Ok && within_decoder_limit(3, img.width, img.height) ==> decoded_image(r->Ok_0@)
            == Some((img.width, img.height, PixelLayout::Rgb8, img.data@)),
        r is Ok && within_decoder_limit(3, img.width, img.height) ==> decoded_rgba(r->Ok_0@)
            == Some((img.width, img.height, add_opaque_alpha(img.data@))),
{
    match write_png_rgb(img) {
        Ok(bytes) => Ok(bytes),
        Err(e) => Err(image_error_text(&e)),
    }
}

/// PNG file of an RGBA image, or the encoder's error text when the image
/// has no pixels (a zero width or height).
pub fn encode_png_rgba(img: &RgbaPixels) -> (r: Result<Vec<u8>, String>)
    requires
        img.wf(),
    ensures
        r is Ok <==> (img.width > 0 && img.height > 0),
        r is Ok ==> r->Ok_0@ == png_of_rgba(img.width, img.height, img.data@),
        r is Ok ==> r->Ok_0@.len() >= 8 && r->Ok_0@.subrange(0, 8) == png_signature(),
        r is Ok && within_decoder_limit(4, img.width, img.height) ==> decoded_image(r->Ok_0@)
            == Some((img.width, img.height, PixelLayout::Rgba8, img.data@)),
        r is Ok && within_decoder_limit(4, img.width, img.height) ==> decoded_rgba(r->Ok_0@)
            == Some((img.width, img.height, img.data@)),
{
    match write_png_rgba(img) {
        Ok(bytes) => Ok(bytes),
        Err(e) => Err(image_error_text(&e)),
    }
}

/// An all-white RGB image of the given size (`ImageBuffer::from_pixel` with
/// `Rgb([255, 255, 255])`).
pub fn white_image(width: u32, height: u32) -> (img: RgbPixels)
    requires
        3 * width * height <= usize::MAX,
    ensures
        img.width == width,
        img.height == height,
        img.wf(),
        forall|i: int| 0 <= i < img.data@.len() ==> #[trigger] img.data@[i] == 255u8,
{
    let wide: u128 = 3u128 * (width as u128);
    assert(wide * (height as u128) <= u64::MAX * 3 * 2 * u64::MAX) by (nonlinear_arith)
        requires
            wide <= 3 * u32::MAX,
            height <= u32::MAX,
    ;
    let total: usize = (wide * (height as u128)) as usize;
    let mut data: Vec<u8> = Vec::with_capacity(total);
    while data.len() < total
        invariant
            data@.len() <= total,
            forall|i: int| 0 <= i < data@.len() ==> #[trigger] data@[i] == 255u8,
        decreases total - data@.len(),
    {
        data.push(255u8);
    }
    RgbPixels { width, height, data }
}

} // verus!
