use crate::config::{Args, PngStripOptions};
use crate::naming::{expand, format_output};
use image::DynamicImage;
use oxipng::{Headers, PngError};
use vstd::prelude::*;

verus! {

#[verifier::external_type_specification]
#[verifier::external_body]
pub struct ExPngError(PngError);

/// Why the task body failed on one item.
#[derive(Clone, Copy, Debug, PartialEq, Eq, Structural)]
pub enum CompressError {
    /// The input could not be read.
    UnreadableInput,
    /// The file extension names no supported format.
    UnsupportedFormat,
    /// The output could not be written.
    WriteFailure,
    /// The encoder rejected the input.
    EncodeFailure,
}

impl CompressError {
    /// A short description for the user.
    pub fn message(&self) -> (r: &'static str)
        ensures
            r@ == (match self {
                CompressError::UnreadableInput => "Unreadable input"@,
                CompressError::UnsupportedFormat => "Unknown file type"@,
                CompressError::WriteFailure => "Could not write output"@,
                CompressError::EncodeFailure => "Could not encode image"@,
            }),
    {
        match self {
            CompressError::UnreadableInput => "Unreadable input",
            CompressError::UnsupportedFormat => "Unknown file type",
            CompressError::WriteFailure => "Could not write output",
            CompressError::EncodeFailure => "Could not encode image",
        }
    }
}

/// The image formats that the task body handles.
#[derive(Clone, Copy, Debug, PartialEq, Eq, Structural)]
pub enum Codec {
    Jpeg,
    Png,
}

/// Whether `s` and `w` hold the same characters.
pub fn same_text(s: &str, w: &str) -> (r: bool)
    ensures
        r == (s@ == w@),
{
    let n = s.unicode_len();
    if n != w.unicode_len() {
        return false;
    }
    let mut i: usize = 0;
    while i < n
        invariant
            n == s@.len(),
            n == w@.len(),
            i <= n,
            forall|k: int| 0 <= k < i ==> s@[k] == w@[k],
        decreases n - i,
    {
        if s.get_char(i) != w.get_char(i) {
            return false;
        }
        i = i + 1;
    }
    proof {
        assert(s@ =~= w@);
    }
    true
}

/// The codec for a file extension (without its dot): `jpg` and `png` only.
pub open spec fn spec_codec_for(ext: Seq<char>) -> Result<Codec, CompressError> {
    if ext == "jpg"@ {
        Ok(Codec::Jpeg)
    } else if ext == "png"@ {
        Ok(Codec::Png)
    } else {
        Err(CompressError::UnsupportedFormat)
    }
}

/// Picks the codec for a file extension (without its dot).
pub fn codec_for(ext: &str) -> (r: Result<Codec, CompressError>)
    ensures
        r == spec_codec_for(ext@),
{
    if same_text(ext, "jpg") {
        Ok(Codec::Jpeg)
    } else if same_text(ext, "png") {
        Ok(Codec::Png)
    } else {
        Err(CompressError::UnsupportedFormat)
    }
}

/// What `oxipng` makes of `data` with alpha optimisation and the given
/// stripping: the optimised bytes, or `None` when it fails.
pub uninterp spec fn png_optimized(data: Seq<u8>, strip: PngStripOptions) -> Option<Seq<u8>>;

/// Relies on `oxipng::optimize_from_memory` with its default options, alpha
/// optimisation switched on and the chosen chunk stripping. With no timeout
/// set, the outcome depends on the bytes and the options alone.
#[verifier::external_body]
fn optimize_png(data: &Vec<u8>, strip: PngStripOptions) -> (r: Result<Vec<u8>, PngError>)
    ensures
        match r {
            Ok(v) => png_optimized(data@, strip) == Some(v@),
            Err(_) => png_optimized(data@, strip) is None,
        },
{
    let strip = match strip {
        PngStripOptions::Off => Headers::None,
        PngStripOptions::Safe => Headers::Safe,
        PngStripOptions::All => Headers::All,
    };
    let opts = oxipng::Options { optimize_alpha: true, strip, ..Default::default() };
    oxipng::optimize_from_memory(data, &opts)
}

/// Losslessly recompresses a PNG file held in `data`, stripping the chunks
/// that `args.png_strip` selects.
pub fn compress(data: Vec<u8>, args: &Args) -> (r: Result<Vec<u8>, CompressError>)
    ensures
        match png_optimized(data@, args.png_strip) {
            Some(v) => r is Ok && r->Ok_0@ == v,
            None => r == Err::<Vec<u8>, CompressError>(CompressError::EncodeFailure),
        },
{
    match optimize_png(&data, args.png_strip) {
        Ok(v) => Ok(v),
        Err(_) => Err(CompressError::EncodeFailure),
    }
}

/// Whether the compressed output is written: only when it is smaller.
pub fn should_write(before: usize, after: usize) -> (r: bool)
    ensures
        r == (after < before),
{
    after < before
}

/// The format that names the output file: `%s.%e` when overwriting the input,
/// else the configured format.
pub open spec fn spec_output_format(args: &Args) -> Seq<char> {
    if args.overwrite {
        "%s.%e"@
    } else {
        args.output_format@
    }
}

/// The output file name for an input with this stem and extension.
pub fn output_name(args: &Args, stem: &str, ext: &str) -> (r: String)
    ensures
        r@ == expand(spec_output_format(args), stem@, ext@),
{
    let format_str: &str = if args.overwrite {
        "%s.%e"
    } else {
        args.output_format.as_str()
    };
    format_output(format_str, stem, ext)
}

/// The EXIF orientation tag of the image in `data`, if it has one with an
/// unsigned value.
pub uninterp spec fn exif_orientation_of(data: Seq<u8>) -> Option<u32>;

/// Relies on kamadak-exif's `Reader::read_from_container`, `Exif::get_field`
/// and `Value::get_uint`: the first value of the primary image's orientation
/// field, which depends on the bytes alone.
#[verifier::external_body]
fn read_exif_orientation(data: &Vec<u8>) -> (r: Option<u32>)
    ensures
        r == exif_orientation_of(data@),
{
    let mut cursor = std::io::Cursor::new(data);
    match exif::Reader::new().read_from_container(&mut cursor) {
        Ok(found) => found.get_field(exif::Tag::Orientation, exif::In::PRIMARY).and_then(
            |field| field.value.get_uint(0),
        ),
        Err(_) => None,
    }
}

/// The orientation to apply: the one found, or 1 (upright) when none was.
pub fn orientation_or_default(found: Option<u32>) -> (r: u32)
    ensures
        r == (match found {
            Some(o) => o,
            None => 1,
        }),
{
    match found {
        Some(o) => o,
        None => 1,
    }
}

/// The EXIF orientation of the image in `data`, 1 (upright) when it has none.
pub fn get_orientation(data: &Vec<u8>) -> (r: u32)
    ensures
        r == (match exif_orientation_of(data@) {
            Some(o) => o,
            None => 1,
        }),
{
    orientation_or_default(read_exif_orientation(data))
}

/// The pixel transform that turns an image stored with an EXIF orientation
/// into an upright one.
#[derive(Clone, Copy, Debug, PartialEq, Eq, Structural)]
pub enum Transform {
    Identity,
    FlipHorizontal,
    Rotate180,
    FlipVertical,
    Rotate90ThenFlipHorizontal,
    Rotate90,
    Rotate270ThenFlipHorizontal,
    Rotate270,
}

/// The transform for each EXIF orientation; values outside 2 to 8 leave the
/// image as it is.
pub open spec fn spec_transform(orientation: u32) -> Transform {
    if orientation == 2 {
        Transform::FlipHorizontal
    } else if orientation == 3 {
        Transform::Rotate180
    } else if orientation == 4 {
        Transform::FlipVertical
    } else if orientation == 5 {
        Transform::Rotate90ThenFlipHorizontal
    } else if orientation == 6 {
        Transform::Rotate90
    } else if orientation == 7 {
        Transform::Rotate270ThenFlipHorizontal
    } else if orientation == 8 {
        Transform::Rotate270
    } else {
        Transform::Identity
    }
}

/// The transform that makes an image with this EXIF orientation upright.
pub fn orientation_transform(orientation: u32) -> (r: Transform)
    ensures
        r == spec_transform(orientation),
{
    match orientation {
        2 => Transform::FlipHorizontal,
        3 => Transform::Rotate180,
        4 => Transform::FlipVertical,
        5 => Transform::Rotate90ThenFlipHorizontal,
        6 => Transform::Rotate90,
        7 => Transform::Rotate270ThenFlipHorizontal,
        8 => Transform::Rotate270,
        _ => Transform::Identity,
    }
}

#[verifier::external_type_specification]
#[verifier::external_body]
pub struct ExDynamicImage(DynamicImage);

/// Whether `image` recognises and decodes the bytes `data`.
pub uninterp spec fn image_decodes(data: Seq<u8>) -> bool;

/// Relies on `image::load_from_memory`: decodes an image whose format it
/// guesses from the bytes; whether it succeeds depends on the bytes alone.
#[verifier::external_body]
fn decode_image(data: &Vec<u8>) -> (r: Option<DynamicImage>)
    ensures
        r is Some == image_decodes(data@),
{
    image::load_from_memory(data).ok()
}

/// Relies on `image::DynamicImage::fliph`: the image mirrored left to right.
#[verifier::external_body]
fn flip_horizontal(image: &DynamicImage) -> (r: DynamicImage) {
    image.fliph()
}

/// Relies on `image::DynamicImage::flipv`: the image mirrored top to bottom.
#[verifier::external_body]
fn flip_vertical(image: &DynamicImage) -> (r: DynamicImage) {
    image.flipv()
}

/// Relies on `image::DynamicImage::rotate90`: the image turned a quarter clockwise.
#[verifier::external_body]
fn rotate_90(image: &DynamicImage) -> (r: DynamicImage) {
    image.rotate90()
}

/// Relies on `image::DynamicImage::rotate180`: the image turned half a turn.
#[verifier::external_body]
fn rotate_180(image: &DynamicImage) -> (r: DynamicImage) {
    image.rotate180()
}

/// Relies on `image::DynamicImage::rotate270`: the image turned three quarters clockwise.
#[verifier::external_body]
fn rotate_270(image: &DynamicImage) -> (r: DynamicImage) {
    image.rotate270()
}

/// Applies an orientation transform to an image.
pub fn apply_transform(image: DynamicImage, t: Transform) -> DynamicImage {
    match t {
        Transform::Identity => image,
        Transform::FlipHorizontal => flip_horizontal(&image),
        Transform::Rotate180 => rotate_180(&image),
        Transform::FlipVertical => flip_vertical(&image),
        Transform::Rotate90ThenFlipHorizontal => flip_horizontal(&rotate_90(&image)),
        Transform::Rotate90 => rotate_90(&image),
        Transform::Rotate270ThenFlipHorizontal => flip_horizontal(&rotate_270(&image)),
        Transform::Rotate270 => rotate_270(&image),
    }
}

/// Decodes the image in `data` and turns it upright by its EXIF orientation,
/// since the JPEG encoder does not carry EXIF data over. Fails with
/// `UnreadableInput` exactly when the bytes do not decode.
pub fn upright_image(data: &Vec<u8>) -> (r: Result<DynamicImage, CompressError>)
    ensures
        r is Ok == image_decodes(data@),
        r is Err ==> r == Err::<DynamicImage, CompressError>(CompressError::UnreadableInput),
{
    match decode_image(data) {
        Some(image) => Ok(apply_transform(image, orientation_transform(get_orientation(data)))),
        None => Err(CompressError::UnreadableInput),
    }
}

} // verus!
