//! Image formats of the device, and the decoding of image data URLs sent by OpenDeck.
use vstd::prelude::*;
use crate::text::opt_view;
use crate::text::str_eq;

verus! {

/// Rotation applied before an image is sent.
#[derive(Debug, Clone, Copy, PartialEq, Eq, Structural)]
pub enum ImageRotation {
    Rot90,
    Rot270,
}

/// Mirroring applied after the rotation.
#[derive(Debug, Clone, Copy, PartialEq, Eq, Structural)]
pub enum ImageMirroring {
    Unmirrored,
    Both,
}

/// Encoding of the image data sent to the device.
#[derive(Debug, Clone, Copy, PartialEq, Eq, Structural)]
pub enum ImageMode {
    JPEG,
}

/// How an image is prepared for the device: resized to `size`, rotated, mirrored, encoded.
#[derive(Debug, Clone, Copy)]
pub struct ImageFormat {
    pub mode: ImageMode,
    pub size: (u16, u16),
    pub rotation: ImageRotation,
    pub mirror: ImageMirroring,
}

/// The format of key images: 96x96, rotated a quarter turn, mirrored both ways.
pub fn key_image_format() -> (r: ImageFormat)
    ensures
        r == (ImageFormat {
            mode: ImageMode::JPEG,
            size: (96u16, 96u16),
            rotation: ImageRotation::Rot90,
            mirror: ImageMirroring::Both,
        }),
{
    ImageFormat { mode: ImageMode::JPEG, size: (96, 96), rotation: ImageRotation::Rot90, mirror: ImageMirroring::Both }
}

/// The format of the background: the full 854x480 panel, rotated three quarter turns.
pub fn background_image_format() -> (r: ImageFormat)
    ensures
        r == (ImageFormat {
            mode: ImageMode::JPEG,
            size: (854u16, 480u16),
            rotation: ImageRotation::Rot270,
            mirror: ImageMirroring::Unmirrored,
        }),
{
    ImageFormat { mode: ImageMode::JPEG, size: (854, 480), rotation: ImageRotation::Rot270, mirror: ImageMirroring::Unmirrored }
}

/// The size of an image of `size` after the rotation: a quarter turn either way swaps
/// width and height.
pub open spec fn spec_rotated_dimensions(size: (u16, u16), rotation: ImageRotation) -> (u16, u16) {
    match rotation {
        ImageRotation::Rot90 | ImageRotation::Rot270 => (size.1, size.0),
    }
}

/// The size of the prepared image, which is what the device is told when it receives it.
pub fn rotated_dimensions(size: (u16, u16), rotation: ImageRotation) -> (r: (u16, u16))
    ensures
        r == spec_rotated_dimensions(size, rotation),
{
    let (w, h) = size;
    match rotation {
        ImageRotation::Rot90 | ImageRotation::Rot270 => (h, w),
    }
}

/// JPEG quality for an encoded image of width `w` and height `h`: key-sized images
/// (96x96) get 90, everything else 70.
pub open spec fn spec_jpeg_quality(w: u32, h: u32) -> u8 {
    if w == 96 && h == 96 { 90 } else { 70 }
}

/// Picks the JPEG quality from the size of the image being encoded.
pub fn jpeg_quality(w: u32, h: u32) -> (r: u8)
    ensures
        r == spec_jpeg_quality(w, h),
{
    if w == 96 && h == 96 {
        90
    } else {
        70
    }
}

/// How an image is transformed before encoding: the size it is resized to, then the
/// rotation and mirroring of its format, then the JPEG quality that its final size calls for.
pub struct EncodePlan {
    pub resize: (u32, u32),
    pub rotation: ImageRotation,
    pub mirror: ImageMirroring,
    pub quality: u8,
}

/// Plans the encoding of an image in `format`.
pub fn encode_plan(format: ImageFormat) -> (r: EncodePlan)
    ensures
        r.resize == (format.size.0 as u32, format.size.1 as u32),
        r.rotation == format.rotation,
        r.mirror == format.mirror,
        r.quality == spec_jpeg_quality(
            spec_rotated_dimensions(format.size, format.rotation).0 as u32,
            spec_rotated_dimensions(format.size, format.rotation).1 as u32,
        ),
{
    let (w, h) = rotated_dimensions(format.size, format.rotation);
    EncodePlan {
        resize: (format.size.0 as u32, format.size.1 as u32),
        rotation: format.rotation,
        mirror: format.mirror,
        quality: jpeg_quality(w as u32, h as u32),
    }
}

/// Key images are encoded at quality 90 and the background at quality 70; the
/// background is sent as a 480x854 region.
pub proof fn lemma_formats_quality()
    ensures
        spec_rotated_dimensions((96u16, 96u16), ImageRotation::Rot90) == (96u16, 96u16),
        spec_jpeg_quality(96, 96) == 90,
        spec_rotated_dimensions((854u16, 480u16), ImageRotation::Rot270) == (480u16, 854u16),
        spec_jpeg_quality(480, 854) == 70,
{
}

/// A quarter turn either way and then back gives the original size.
pub proof fn lemma_rotated_dimensions_involution(size: (u16, u16), a: ImageRotation, b: ImageRotation)
    ensures
        spec_rotated_dimensions(spec_rotated_dimensions(size, a), b) == size,
{
}

/// Image file formats that OpenDeck's data URLs may carry.
#[derive(Debug, Clone, Copy, PartialEq, Eq, Structural)]
pub enum ImageFileFormat {
    Jpeg,
    Png,
}

/// The file format a MIME subtype stands for.
pub open spec fn spec_format_for_subtype(subtype: Seq<char>) -> Option<ImageFileFormat> {
    if subtype == "jpeg"@ || subtype == "jpg"@ {
        Some(ImageFileFormat::Jpeg)
    } else if subtype == "png"@ {
        Some(ImageFileFormat::Png)
    } else {
        None
    }
}

/// Recognises JPEG (`jpeg`, `jpg`) and PNG (`png`) by MIME subtype, whatever the type.
pub fn format_for_subtype(subtype: &str) -> (r: Option<ImageFileFormat>)
    ensures
        r == spec_format_for_subtype(subtype@),
{
    if str_eq(subtype, "jpeg") || str_eq(subtype, "jpg") {
        Some(ImageFileFormat::Jpeg)
    } else if str_eq(subtype, "png") {
        Some(ImageFileFormat::Png)
    } else {
        None
    }
}

/// The MIME subtype of a data URL as the `data-url` crate parses it; none when the
/// text is not a data URL.
pub uninterp spec fn data_url_subtype(url: Seq<char>) -> Option<Seq<char>>;

/// The MIME type of a data URL as the `data-url` crate parses and prints it
/// (`type/subtype` and its parameters); none when the text is not a data URL.
pub uninterp spec fn data_url_mime(url: Seq<char>) -> Option<Seq<char>>;

/// The decoded body of a data URL as the `data-url` crate decodes it; none when the
/// text is not a data URL or its body does not decode.
pub uninterp spec fn data_url_body(url: Seq<char>) -> Option<Seq<u8>>;

/// Calls `DataUrl::process` and reads the subtype of `DataUrl::mime_type` and the whole
/// MIME type as its `Display` prints it. The contract only names the results; what the
/// parser accepts is not stated here.
#[verifier::external_body]
fn data_url_mime_type(url: &str) -> (r: Option<(String, String)>)
    ensures
        match r {
            Some((subtype, mime)) => data_url_subtype(url@) == Some(subtype@) && data_url_mime(url@) == Some(mime@),
            None => data_url_subtype(url@) is None && data_url_mime(url@) is None,
        },
{
    match data_url::DataUrl::process(url) {
        Ok(d) => Some((d.mime_type().subtype.clone(), d.mime_type().to_string())),
        Err(_) => None,
    }
}

/// Calls `DataUrl::process` and `DataUrl::decode_to_vec`, keeping the body. The
/// contract only names the result; the decoding rules are not stated here.
#[verifier::external_body]
fn data_url_decoded_body(url: &str) -> (r: Option<Vec<u8>>)
    ensures
        match r {
            Some(b) => data_url_body(url@) == Some(b@),
            None => data_url_body(url@) is None,
        },
{
    match data_url::DataUrl::process(url) {
        Ok(d) => match d.decode_to_vec() {
            Ok((body, _)) => Some(body),
            Err(_) => None,
        },
        Err(_) => None,
    }
}

/// Why an image data URL could not be used.
#[derive(Debug, PartialEq, Eq)]
pub enum ImageDecodeError {
    /// The text is not a data URL.
    ParseFailed,
    /// Its body does not decode.
    DecodeFailed,
    /// It holds neither JPEG nor PNG; the MIME type it names.
    UnsupportedMime(String),
}

/// The text that reports a decode error.
pub open spec fn spec_decode_error_message(e: ImageDecodeError) -> Seq<char> {
    match e {
        ImageDecodeError::ParseFailed => "failed to parse data URL"@,
        ImageDecodeError::DecodeFailed => "failed to decode data URL"@,
        ImageDecodeError::UnsupportedMime(m) => "unsupported image mime type: "@ + m@,
    }
}

impl ImageDecodeError {
    /// The text that reports this error.
    pub fn message(&self) -> (r: String)
        ensures
            r@ == spec_decode_error_message(*self),
    {
        match self {
            ImageDecodeError::ParseFailed => String::from_str("failed to parse data URL"),
            ImageDecodeError::DecodeFailed => String::from_str("failed to decode data URL"),
            ImageDecodeError::UnsupportedMime(m) => String::from_str("unsupported image mime type: ").concat(m.as_str()),
        }
    }
}

/// The encoded image carried by a data URL, ready to be decoded into pixels.
pub struct EncodedImage {
    pub format: ImageFileFormat,
    pub bytes: Vec<u8>,
}

/// Unpacks an image data URL: the body bytes and the image format named by its MIME
/// subtype. Parse failures come first, then decode failures, then unsupported types,
/// which name the whole MIME type.
pub fn decode_image_data_url(url: &str) -> (r: Result<EncodedImage, ImageDecodeError>)
    ensures
        match r {
            Ok(img) => data_url_subtype(url@) is Some && data_url_body(url@) == Some(img.bytes@)
                && spec_format_for_subtype(data_url_subtype(url@)->0) == Some(img.format),
            Err(ImageDecodeError::ParseFailed) => data_url_subtype(url@) is None,
            Err(ImageDecodeError::DecodeFailed) => data_url_subtype(url@) is Some && data_url_body(url@) is None,
            Err(ImageDecodeError::UnsupportedMime(m)) => data_url_subtype(url@) is Some
                && data_url_mime(url@) == Some(m@) && data_url_body(url@) is Some
                && spec_format_for_subtype(data_url_subtype(url@)->0) is None,
        },
{
    let (subtype, mime) = match data_url_mime_type(url) {
        Some(t) => t,
        None => return Err(ImageDecodeError::ParseFailed),
    };
    let bytes = match data_url_decoded_body(url) {
        Some(b) => b,
        None => return Err(ImageDecodeError::DecodeFailed),
    };
    match format_for_subtype(subtype.as_str()) {
        Some(format) => Ok(EncodedImage { format, bytes }),
        None => Err(ImageDecodeError::UnsupportedMime(mime)),
    }
}

} // verus!
