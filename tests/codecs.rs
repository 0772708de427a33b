use imgpress::codec::{
    codec_for, compress, get_orientation, orientation_or_default, orientation_transform, same_text,
    should_write, Codec, CompressError, Transform,
};
use imgpress::config::Args;
use imgpress::size::{size_prefix, SizePrefix};
use std::io::Cursor;

#[test]
fn codec_by_extension() {
    assert_eq!(codec_for("jpg"), Ok(Codec::Jpeg));
    assert_eq!(codec_for("png"), Ok(Codec::Png));
    assert_eq!(codec_for("gif"), Err(CompressError::UnsupportedFormat));
    assert_eq!(codec_for("JPG"), Err(CompressError::UnsupportedFormat));
    assert_eq!(codec_for(""), Err(CompressError::UnsupportedFormat));
    assert_eq!(CompressError::UnsupportedFormat.message(), "Unknown file type");
}

#[test]
fn text_comparison() {
    assert!(same_text("abc", "abc"));
    assert!(!same_text("abc", "abd"));
    assert!(!same_text("ab", "abc"));
}

#[test]
fn write_only_when_smaller() {
    assert!(should_write(10, 9));
    assert!(!should_write(10, 10));
    assert!(!should_write(10, 11));
}

#[test]
fn orientation_transforms() {
    assert_eq!(orientation_transform(1), Transform::Identity);
    assert_eq!(orientation_transform(2), Transform::FlipHorizontal);
    assert_eq!(orientation_transform(3), Transform::Rotate180);
    assert_eq!(orientation_transform(4), Transform::FlipVertical);
    assert_eq!(orientation_transform(5), Transform::Rotate90ThenFlipHorizontal);
    assert_eq!(orientation_transform(6), Transform::Rotate90);
    assert_eq!(orientation_transform(7), Transform::Rotate270ThenFlipHorizontal);
    assert_eq!(orientation_transform(8), Transform::Rotate270);
    assert_eq!(orientation_transform(9), Transform::Identity);
    assert_eq!(orientation_or_default(None), 1);
    assert_eq!(orientation_or_default(Some(6)), 6);
}

#[test]
fn orientation_of_bytes_without_exif() {
    assert_eq!(get_orientation(&vec![6u8; 32]), 1);
}

#[test]
fn size_prefixes() {
    assert_eq!(size_prefix(999), SizePrefix::Unit);
    assert_eq!(size_prefix(1000), SizePrefix::Kilo);
    assert_eq!(size_prefix(999_999), SizePrefix::Kilo);
    assert_eq!(size_prefix(1_000_000), SizePrefix::Mega);
    assert_eq!(size_prefix(1_000_000_000), SizePrefix::Giga);
    assert_eq!(SizePrefix::Mega.divisor(), 1_000_000);
    assert_eq!(SizePrefix::Kilo.symbol(), "k");
    assert_eq!(SizePrefix::Unit.symbol(), "");
}

#[test]
fn png_garbage_is_an_encode_failure() {
    let args = Args::with_defaults(vec![]);
    assert_eq!(compress(vec![1, 2, 3, 4], &args), Err(CompressError::EncodeFailure));
}

#[test]
fn png_is_recompressed() {
    let img = image::DynamicImage::ImageRgb8(image::RgbImage::from_pixel(32, 32, image::Rgb([200, 10, 10])));
    let mut buf = Cursor::new(Vec::new());
    img.write_to(&mut buf, image::ImageOutputFormat::Png).unwrap();
    let data = buf.into_inner();
    let args = Args::with_defaults(vec![]);
    let out = compress(data.clone(), &args).unwrap();
    assert_ne!(out, data);
    let back = image::load_from_memory(&out).unwrap();
    assert_eq!((back.width(), back.height()), (32, 32));
}

#[test]
fn transforms_turn_the_image() {
    let img = image::DynamicImage::ImageRgb8(image::RgbImage::new(4, 2));
    let turned = imgpress::codec::apply_transform(img.clone(), Transform::Rotate90);
    assert_eq!((turned.width(), turned.height()), (2, 4));
    let same = imgpress::codec::apply_transform(img.clone(), Transform::FlipHorizontal);
    assert_eq!((same.width(), same.height()), (4, 2));
    let mut px = image::RgbImage::new(2, 1);
    px.put_pixel(0, 0, image::Rgb([255, 0, 0]));
    let flipped = imgpress::codec::apply_transform(image::DynamicImage::ImageRgb8(px), Transform::FlipHorizontal);
    assert_eq!(flipped.to_rgb8().get_pixel(1, 0), &image::Rgb([255, 0, 0]));
}

#[test]
fn upright_image_decodes_or_fails() {
    assert!(matches!(imgpress::codec::upright_image(&vec![0u8; 10]), Err(CompressError::UnreadableInput)));
    let img = image::DynamicImage::ImageRgb8(image::RgbImage::new(5, 3));
    let mut buf = Cursor::new(Vec::new());
    img.write_to(&mut buf, image::ImageOutputFormat::Png).unwrap();
    let back = imgpress::codec::upright_image(&buf.into_inner()).unwrap();
    assert_eq!((back.width(), back.height()), (5, 3));
}
