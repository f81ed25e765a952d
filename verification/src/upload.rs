//! Receiving a product image: which parts of an upload are images, under
//! which name an image is kept, and which bytes are kept for it.
//!
//! JPEG and PNG images are decoded, scaled to fit a square of
//! [`MAX_SIDE`] pixels and encoded again. Whenever that does not succeed the
//! bytes are kept as they were received.

use vstd::prelude::*;
use vstd::string::*;

verus! {

/// The side of the square that an optimized image fits into, in pixels.
pub const MAX_SIDE: u32 = 800;

/// The quality at which JPEG images are encoded again.
pub const JPEG_QUALITY: u8 = 70;

/// How an optimized image is encoded.
#[derive(Clone, Copy, Debug, PartialEq, Eq, Structural)]
pub enum Encoding {
    Png,
    /// JPEG at the given quality.
    Jpeg(u8),
}

/// An image ready to be written to the upload directory.
#[derive(Clone, Debug, PartialEq, Eq)]
pub struct StoredImage {
    pub file_name: String,
    pub image_url: String,
    pub bytes: Vec<u8>,
}

#[verifier::external_type_specification]
#[verifier::external_body]
pub struct ExDynamicImage(image::DynamicImage);

/// The encoding for a file extension: PNG for `png`, JPEG for `jpeg` and
/// `jpg`, none for any other.
pub open spec fn encoding_of(ext: Seq<char>) -> Option<Encoding> {
    if ext == "png"@ {
        Some(Encoding::Png)
    } else if ext == "jpeg"@ || ext == "jpg"@ {
        Some(Encoding::Jpeg(JPEG_QUALITY))
    } else {
        None
    }
}

/// The hexadecimal digit of a value below sixteen, in lower case.
pub open spec fn hex_digit(n: u128) -> char {
    if n < 10 {
        (n + 0x30) as u8 as char
    } else {
        (n + 0x57) as u8 as char
    }
}

/// The `k`-th of the 32 hexadecimal digits of an identifier, the highest
/// being the first, as a value below sixteen.
pub open spec fn nibble(id: u128, k: int) -> u128 {
    (id >> ((124 - 4 * k) as u128)) & 0xf
}

/// The text of an identifier: its 32 hexadecimal digits in lower case, the
/// highest first, in groups of 8, 4, 4, 4 and 12 with a hyphen between two
/// groups.
pub open spec fn hyphenated_text(id: u128) -> Seq<char> {
    Seq::new(
        36,
        |i: int|
            if i == 8 || i == 13 || i == 18 || i == 23 {
                '-'
            } else if i < 8 {
                hex_digit(nibble(id, i))
            } else if i < 13 {
                hex_digit(nibble(id, i - 1))
            } else if i < 18 {
                hex_digit(nibble(id, i - 2))
            } else if i < 23 {
                hex_digit(nibble(id, i - 3))
            } else {
                hex_digit(nibble(id, i - 4))
            },
    )
}

/// The name under which an image is kept: the text of its identifier, a
/// dot, and the extension.
pub open spec fn file_name_of(id: u128, ext: Seq<char>) -> Seq<char> {
    hyphenated_text(id) + "."@ + ext
}

/// The address under which a kept file is served.
pub open spec fn image_url_of(file_name: Seq<char>) -> Seq<char> {
    "/uploads/"@ + file_name
}

/// The identifier has the form of a random one: its version is 4 and its
/// variant is the one of RFC 9562.
pub open spec fn is_random_id(id: u128) -> bool {
    id & 0x0000_0000_0000_f000_c000_0000_0000_0000u128
        == 0x0000_0000_0000_4000_8000_0000_0000_0000u128
}

/// Calls `uuid::Uuid::new_v4` and takes the identifier as a number. The
/// identifier is random; all that is claimed of it is that version and
/// variant are set as that function sets them.
#[verifier::external_body]
fn random_id() -> (r: u128)
    ensures
        is_random_id(r),
{
    uuid::Uuid::new_v4().as_u128()
}

/// Calls `to_string` on the `uuid::Uuid` made of `id` by
/// `uuid::Uuid::from_u128`. The result is claimed to be the lower-case
/// hyphenated text of `id`, the highest digit first.
#[verifier::external_body]
fn hyphenated(id: u128) -> (r: String)
    ensures
        r@ == hyphenated_text(id),
{
    uuid::Uuid::from_u128(id).to_string()
}

/// Calls `image::load_from_memory`, which guesses the format of `bytes` and
/// decodes them; `None` stands for any error of the decoder. Nothing is
/// claimed of the result: a decoder may choose its arithmetic by the
/// machine it runs on, so that the same bytes need not give the same pixels
/// everywhere.
#[verifier::external_body]
fn decode_image(bytes: &[u8]) -> (r: Option<image::DynamicImage>) {
    image::load_from_memory(bytes).ok()
}

/// Width and height of an image, in pixels.
pub uninterp spec fn image_dimensions(img: image::DynamicImage) -> (u32, u32);

/// Calls `image::GenericImageView::dimensions` on the image, which gives
/// its width and its height.
#[verifier::external_body]
fn dimensions_of(img: &image::DynamicImage) -> (r: (u32, u32))
    ensures
        r == image_dimensions(*img),
{
    image::GenericImageView::dimensions(img)
}

/// Calls `image::DynamicImage::resize` with the Lanczos filter of window 3,
/// which scales the image to the largest size that fits into `width` by
/// `height` and keeps its proportions. An image without pixels is left out:
/// the filter reads pixels that such an image does not have. All that is
/// claimed of the result is that it has pixels and fits.
#[verifier::external_body]
fn resize_image(img: &image::DynamicImage, width: u32, height: u32) -> (r: image::DynamicImage)
    requires
        image_dimensions(*img).0 > 0,
        image_dimensions(*img).1 > 0,
        width > 0,
        height > 0,
    ensures
        0 < image_dimensions(r).0 <= width,
        0 < image_dimensions(r).1 <= height,
{
    img.resize(width, height, image::imageops::FilterType::Lanczos3)
}

/// The bytes that an image is encoded to, if it can be encoded so.
pub uninterp spec fn encoded(img: image::DynamicImage, encoding: Encoding) -> Option<Seq<u8>>;

/// Calls `image::DynamicImage::write_to` on a buffer in memory. The result
/// is a function of the image and the encoding alone and has a name; `None`
/// stands for any error of the encoder.
#[verifier::external_body]
fn encode_image(img: &image::DynamicImage, encoding: Encoding) -> (r: Option<Vec<u8>>)
    ensures
        shown(r) == encoded(*img, encoding),
{
    let mut out = Vec::new();
    let format = match encoding {
        Encoding::Png => image::ImageOutputFormat::Png,
        Encoding::Jpeg(quality) => image::ImageOutputFormat::Jpeg(quality),
    };
    match img.write_to(&mut std::io::Cursor::new(&mut out), format) {
        Ok(()) => Some(out),
        Err(_) => None,
    }
}

/// Whether two texts are the same.
pub fn same_text(a: &str, b: &str) -> (r: bool)
    ensures
        r == (a@ == b@),
{
    let n = a.unicode_len();
    if n != b.unicode_len() {
        return false;
    }
    let mut i: usize = 0;
    while i < n
        invariant
            n == a@.len(),
            n == b@.len(),
            i <= n,
            forall|j: int| 0 <= j < i ==> a@[j] == b@[j],
        decreases n - i,
    {
        if a.get_char(i) != b.get_char(i) {
            return false;
        }
        i += 1;
    }
    proof {
        assert(a@ =~= b@);
    }
    true
}

/// Whether a part of an upload with this media type is an image.
pub fn is_image(main_type: &str) -> (r: bool)
    ensures
        r == (main_type@ == "image"@),
{
    same_text(main_type, "image")
}

/// The encoding in which a file with this extension is optimized, if any.
pub fn encoding_for(ext: &str) -> (r: Option<Encoding>)
    ensures
        r == encoding_of(ext@),
{
    if same_text(ext, "png") {
        Some(Encoding::Png)
    } else if same_text(ext, "jpeg") || same_text(ext, "jpg") {
        Some(Encoding::Jpeg(JPEG_QUALITY))
    } else {
        None
    }
}

/// The name under which the image with identifier `id` is kept.
pub fn file_name(id: u128, ext: &str) -> (r: String)
    ensures
        r@ == file_name_of(id, ext@),
{
    let mut name = hyphenated(id);
    name.append(".");
    name.append(ext);
    name
}

/// The address under which a kept file is served.
pub fn image_url(file_name: &str) -> (r: String)
    ensures
        r@ == image_url_of(file_name@),
{
    let mut url = String::from_str("/uploads/");
    url.append(file_name);
    url
}

/// `optimized` is what optimizing a decoded image comes to; `img` is `None`
/// where the bytes did not decode.
///
/// There is no optimization for bytes that did not decode and for an image
/// without pixels. Otherwise the result is the encoding of some image that
/// has pixels and fits the square of [`MAX_SIDE`]: the scaled image is left
/// open, since scaling computes with sines, whose last digits a machine may
/// give differently. If that image cannot be encoded there is no
/// optimization either.
pub open spec fn is_optimization_of(
    img: Option<image::DynamicImage>,
    encoding: Encoding,
    optimized: Option<Seq<u8>>,
) -> bool {
    match img {
        None => optimized is None,
        Some(img) => if image_dimensions(img).0 == 0 || image_dimensions(img).1 == 0 {
            optimized is None
        } else {
            exists|scaled: image::DynamicImage|
                0 < image_dimensions(scaled).0 <= MAX_SIDE && 0 < image_dimensions(scaled).1
                    <= MAX_SIDE && optimized == #[trigger] encoded(scaled, encoding)
        },
    }
}

/// `optimized` is what optimizing bytes received with extension `ext` can
/// come to: nothing for an extension that has no encoding, else what
/// optimizing comes to for what the bytes decoded to, whatever that was.
pub open spec fn is_optimization(ext: Seq<char>, optimized: Option<Seq<u8>>) -> bool {
    match encoding_of(ext) {
        None => optimized is None,
        Some(encoding) => exists|img: Option<image::DynamicImage>| #[trigger]
            is_optimization_of(img, encoding, optimized),
    }
}

/// Scales a decoded image to fit [`MAX_SIDE`] and encodes it. `None` says
/// that there is no optimization: the bytes did not decode, the image has
/// no pixels, or the scaled image cannot be encoded so.
pub fn optimize_decoded(img: Option<image::DynamicImage>, encoding: Encoding) -> (r: Option<
    Vec<u8>,
>)
    ensures
        is_optimization_of(img, encoding, shown(r)),
{
    match img {
        None => None,
        Some(img) => {
            let (width, height) = dimensions_of(&img);
            if width == 0 || height == 0 {
                None
            } else {
                let scaled = resize_image(&img, MAX_SIDE, MAX_SIDE);
                let r = encode_image(&scaled, encoding);
                proof {
                    assert(shown(r) == encoded(scaled, encoding));
                }
                r
            }
        },
    }
}

/// Decodes an image, scales it to fit [`MAX_SIDE`] and encodes it again.
/// Only files with the extension `png`, `jpeg` or `jpg` are tried, and only
/// images that have pixels; `None` says that the image could not be
/// optimized.
pub fn optimize_image(bytes: &Vec<u8>, ext: &str) -> (r: Option<Vec<u8>>)
    ensures
        is_optimization(ext@, shown(r)),
{
    match encoding_for(ext) {
        None => None,
        Some(encoding) => {
            let img = decode_image(bytes.as_slice());
            let ghost seen = img;
            let r = optimize_decoded(img, encoding);
            proof {
                assert(is_optimization_of(seen, encoding, shown(r)));
            }
            r
        },
    }
}

/// What is kept of an image received with extension `ext`: its name, its
/// address, and the optimized bytes, or the original ones where there are no
/// optimized ones.
pub open spec fn stored(
    id: u128,
    ext: Seq<char>,
    original: Seq<u8>,
    optimized: Option<Seq<u8>>,
) -> (Seq<char>, Seq<char>, Seq<u8>) {
    (
        file_name_of(id, ext),
        image_url_of(file_name_of(id, ext)),
        match optimized {
            Some(bytes) => bytes,
            None => original,
        },
    )
}

/// The bytes of an optimized image, if there is one.
pub open spec fn shown(optimized: Option<Vec<u8>>) -> Option<Seq<u8>> {
    match optimized {
        Some(bytes) => Some(bytes@),
        None => None,
    }
}

impl StoredImage {
    /// Name, address and bytes.
    pub open spec fn parts(self) -> (Seq<char>, Seq<char>, Seq<u8>) {
        (self.file_name@, self.image_url@, self.bytes@)
    }
}

/// Puts together what is kept of an image: optimization that failed is not
/// an error, the original bytes are kept then.
pub fn store_as(id: u128, ext: &str, original: Vec<u8>, optimized: Option<Vec<u8>>) -> (r:
    StoredImage)
    ensures
        r.parts() == stored(id, ext@, original@, shown(optimized)),
{
    let name = file_name(id, ext);
    let url = image_url(name.as_str());
    let bytes = match optimized {
        Some(bytes) => bytes,
        None => original,
    };
    StoredImage { file_name: name, image_url: url, bytes }
}

/// Handles one part of an upload. A part whose media type is not `image` is
/// passed over. An image gets a fresh random identifier and is kept under
/// it with its subtype as extension; the bytes kept are what optimizing the
/// received ones comes to, or the received ones where there is no
/// optimization.
pub fn upload_file(main_type: &str, subtype: &str, bytes: Vec<u8>) -> (r: Option<StoredImage>)
    ensures
        r is Some <==> main_type@ == "image"@,
        r matches Some(image) ==> exists|id: u128, optimized: Option<Seq<u8>>|
            {
                &&& #[trigger] stored(id, subtype@, bytes@, optimized) == image.parts()
                &&& is_random_id(id)
                &&& is_optimization(subtype@, optimized)
            },
{
    if !is_image(main_type) {
        return None;
    }
    let id = random_id();
    let optimized = optimize_image(&bytes, subtype);
    let ghost shown = shown(optimized);
    let image = store_as(id, subtype, bytes, optimized);
    proof {
        assert(stored(id, subtype@, bytes@, shown) == image.parts());
    }
    Some(image)
}

} // verus!
