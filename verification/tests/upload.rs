use image::{DynamicImage, GenericImageView, ImageFormat, ImageOutputFormat, Rgb, RgbImage};
use product_lifecycle::upload::{
    encoding_for, file_name, image_url, is_image, optimize_decoded, optimize_image, same_text,
    store_as, upload_file, Encoding, JPEG_QUALITY, MAX_SIDE,
};
use std::io::Cursor;

fn picture(width: u32, height: u32, format: ImageOutputFormat) -> Vec<u8> {
    let image = DynamicImage::ImageRgb8(RgbImage::from_fn(width, height, |x, y| {
        Rgb([(x % 256) as u8, (y % 256) as u8, 77])
    }));
    let mut bytes = Vec::new();
    image.write_to(&mut Cursor::new(&mut bytes), format).unwrap();
    bytes
}

fn is_hex(c: char) -> bool {
    c.is_ascii_digit() || ('a'..='f').contains(&c)
}

#[test]
fn only_the_image_media_type_is_an_image() {
    assert!(is_image("image"));
    assert!(!is_image("Image"));
    assert!(!is_image("images"));
    assert!(!is_image("imag"));
    assert!(!is_image("text"));
    assert!(!is_image(""));
}

#[test]
fn texts_are_compared_by_character() {
    assert!(same_text("", ""));
    assert!(same_text("héllo", "héllo"));
    assert!(!same_text("héllo", "hello"));
    assert!(!same_text("a", "ab"));
    assert!(!same_text("ab", "a"));
}

#[test]
fn png_and_jpeg_are_optimized() {
    assert_eq!(MAX_SIDE, 800);
    assert_eq!(JPEG_QUALITY, 70);
    assert_eq!(encoding_for("png"), Some(Encoding::Png));
    assert_eq!(encoding_for("jpeg"), Some(Encoding::Jpeg(70)));
    assert_eq!(encoding_for("jpg"), Some(Encoding::Jpeg(70)));
    assert_eq!(encoding_for("gif"), None);
    assert_eq!(encoding_for("PNG"), None);
    assert_eq!(encoding_for("webp"), None);
    assert_eq!(encoding_for(""), None);
}

#[test]
fn file_name_is_the_hyphenated_identifier_and_the_extension() {
    assert_eq!(
        file_name(0x0123456789abcdef_fedcba9876543210, "png"),
        "01234567-89ab-cdef-fedc-ba9876543210.png"
    );
    assert_eq!(file_name(0, "jpeg"), "00000000-0000-0000-0000-000000000000.jpeg");
    assert_eq!(file_name(u128::MAX, "gif"), "ffffffff-ffff-ffff-ffff-ffffffffffff.gif");
    assert_eq!(file_name(0x1f, ""), "00000000-0000-0000-0000-00000000001f.");
}

#[test]
fn address_is_under_uploads() {
    assert_eq!(image_url("a.png"), "/uploads/a.png");
    assert_eq!(image_url(""), "/uploads/");
}

#[test]
fn stored_image_keeps_optimized_bytes_or_else_the_original() {
    let kept = store_as(0xa, "png", vec![1, 2, 3], Some(vec![4, 5]));
    assert_eq!(kept.file_name, "00000000-0000-0000-0000-00000000000a.png");
    assert_eq!(kept.image_url, "/uploads/00000000-0000-0000-0000-00000000000a.png");
    assert_eq!(kept.bytes, vec![4, 5]);
    let passed = store_as(0xa, "png", vec![1, 2, 3], None);
    assert_eq!(passed.bytes, vec![1, 2, 3]);
    let emptied = store_as(0xa, "png", vec![1, 2, 3], Some(vec![]));
    assert!(emptied.bytes.is_empty());
}

#[test]
fn wide_png_is_scaled_down_and_stays_png() {
    let original = picture(1000, 250, ImageOutputFormat::Png);
    let optimized = optimize_image(&original, "png").expect("a valid image is optimized");
    assert_ne!(optimized, original);
    assert_eq!(image::guess_format(&optimized).unwrap(), ImageFormat::Png);
    assert_eq!(image::load_from_memory(&optimized).unwrap().dimensions(), (800, 200));
}

#[test]
fn small_image_is_scaled_up_to_the_square() {
    let original = picture(20, 10, ImageOutputFormat::Png);
    let optimized = optimize_image(&original, "png").unwrap();
    assert_eq!(image::load_from_memory(&optimized).unwrap().dimensions(), (800, 400));
}

#[test]
fn jpeg_and_jpg_are_encoded_as_jpeg() {
    let original = picture(64, 128, ImageOutputFormat::Jpeg(90));
    for ext in ["jpeg", "jpg"] {
        let optimized = optimize_image(&original, ext).unwrap();
        assert_eq!(image::guess_format(&optimized).unwrap(), ImageFormat::Jpeg);
        assert_eq!(image::load_from_memory(&optimized).unwrap().dimensions(), (400, 800));
    }
}

#[test]
fn extension_decides_the_encoding_not_the_content() {
    let png = picture(16, 16, ImageOutputFormat::Png);
    let optimized = optimize_image(&png, "jpg").unwrap();
    assert_eq!(image::guess_format(&optimized).unwrap(), ImageFormat::Jpeg);
}

#[test]
fn what_cannot_be_optimized_is_left_alone() {
    let png = picture(16, 16, ImageOutputFormat::Png);
    assert_eq!(optimize_image(&png, "gif"), None);
    assert_eq!(optimize_image(&png, "webp"), None);
    assert_eq!(optimize_image(&vec![1, 2, 3], "png"), None);
    assert_eq!(optimize_image(&vec![], "jpeg"), None);
    let mut broken = png.clone();
    broken.truncate(20);
    assert_eq!(optimize_image(&broken, "png"), None);
}

#[test]
fn image_without_pixels_is_left_alone() {
    for (width, height) in [(0u32, 5u32), (5, 0), (0, 0)] {
        let mut bytes = b"farbfeld".to_vec();
        bytes.extend_from_slice(&width.to_be_bytes());
        bytes.extend_from_slice(&height.to_be_bytes());
        assert_eq!(optimize_image(&bytes, "png"), None);
        assert_eq!(optimize_image(&bytes, "jpg"), None);
        let kept = upload_file("image", "png", bytes.clone()).unwrap();
        assert_eq!(kept.bytes, bytes);
    }
}

#[test]
fn optimized_image_fits_the_square() {
    for (width, height) in [(1u32, 1u32), (1, 900), (900, 1), (801, 799), (3, 7)] {
        let original = picture(width, height, ImageOutputFormat::Png);
        let optimized = optimize_image(&original, "png").unwrap();
        let (w, h) = image::load_from_memory(&optimized).unwrap().dimensions();
        assert!(0 < w && w <= MAX_SIDE && 0 < h && h <= MAX_SIDE, "{}x{}", w, h);
        assert!(w == MAX_SIDE || h == MAX_SIDE);
    }
}

#[test]
fn nothing_decoded_is_nothing_optimized() {
    assert_eq!(optimize_decoded(None, Encoding::Png), None);
    assert_eq!(optimize_decoded(None, Encoding::Jpeg(JPEG_QUALITY)), None);
}

#[test]
fn decoded_image_without_pixels_is_not_optimized() {
    for (width, height) in [(0, 5), (5, 0), (0, 0)] {
        let empty = DynamicImage::new_rgb8(width, height);
        assert_eq!(optimize_decoded(Some(empty.clone()), Encoding::Png), None);
        assert_eq!(optimize_decoded(Some(empty), Encoding::Jpeg(JPEG_QUALITY)), None);
    }
}

#[test]
fn decoded_image_is_scaled_and_encoded_as_asked() {
    let image = DynamicImage::ImageRgb8(RgbImage::from_pixel(10, 40, Rgb([1, 2, 3])));
    let png = optimize_decoded(Some(image.clone()), Encoding::Png).unwrap();
    assert_eq!(image::guess_format(&png).unwrap(), ImageFormat::Png);
    assert_eq!(image::load_from_memory(&png).unwrap().dimensions(), (200, 800));
    let jpeg = optimize_decoded(Some(image), Encoding::Jpeg(JPEG_QUALITY)).unwrap();
    assert_eq!(image::guess_format(&jpeg).unwrap(), ImageFormat::Jpeg);
    assert_eq!(image::load_from_memory(&jpeg).unwrap().dimensions(), (200, 800));
}

#[test]
fn image_that_cannot_be_encoded_is_not_optimized() {
    let image = DynamicImage::new_rgb32f(4, 4);
    assert_eq!(optimize_decoded(Some(image), Encoding::Jpeg(JPEG_QUALITY)), None);
}

#[test]
fn upload_passes_over_what_is_no_image() {
    assert_eq!(upload_file("text", "plain", vec![1, 2, 3]), None);
    assert_eq!(upload_file("application", "png", picture(4, 4, ImageOutputFormat::Png)), None);
}

#[test]
fn upload_keeps_an_unknown_kind_of_image_unchanged() {
    let bytes = vec![b'G', b'I', b'F', 1, 2, 3];
    let kept = upload_file("image", "gif", bytes.clone()).unwrap();
    assert_eq!(kept.bytes, bytes);
    assert_eq!(kept.file_name.chars().count(), 40);
    assert!(kept.file_name.ends_with(".gif"));
    assert_eq!(kept.image_url, format!("/uploads/{}", kept.file_name));
    for (i, c) in kept.file_name.chars().take(36).enumerate() {
        match i {
            8 | 13 | 18 | 23 => assert_eq!(c, '-'),
            14 => assert_eq!(c, '4'),
            19 => assert!("89ab".contains(c)),
            _ => assert!(is_hex(c), "{:?} at {}", c, i),
        }
    }
}

#[test]
fn upload_keeps_a_broken_image_unchanged() {
    let kept = upload_file("image", "png", vec![9, 9, 9]).unwrap();
    assert_eq!(kept.bytes, vec![9, 9, 9]);
    assert!(kept.file_name.ends_with(".png"));
}

#[test]
fn upload_optimizes_a_valid_image() {
    let original = picture(1600, 1200, ImageOutputFormat::Png);
    let kept = upload_file("image", "png", original.clone()).unwrap();
    assert_ne!(kept.bytes, original);
    assert_eq!(image::load_from_memory(&kept.bytes).unwrap().dimensions(), (800, 600));
}

#[test]
fn uploads_get_different_names() {
    let first = upload_file("image", "gif", vec![1]).unwrap();
    let second = upload_file("image", "gif", vec![1]).unwrap();
    assert_ne!(first.file_name, second.file_name);
}
