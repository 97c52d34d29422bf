//! The conversion pipeline: decode, find a free output path, pick the
//! encoder by the path's extension, encode.

use crate::codec::{
    decode_image, encode_jpeg, encoding_of, jpeg_encoding, malformed_buffer_text, pixels_of,
    DecodedImage, PixelBuffer, PixelLayout, Pixels,
};
use crate::format::{detect_format, format_of_path, FormatError, OutputFormat};
use crate::path::{
    found_by, is_resolution, lemma_found_is_resolution, path_exists, unique_path_by,
};
use crate::quality::{normalize_quality, normalized_quality};
use vstd::prelude::*;
use vstd::string::StringExecFns;

verus! {

/// Why a conversion failed.
#[derive(Debug)]
pub enum ConvertError {
    /// The input is no image that the decoder reads; with its message.
    Decode(String),
    /// The output path names no supported format.
    Format(FormatError),
    /// The encoder failed, or was handed a malformed pixel buffer; with the
    /// message.
    Encode(String),
}

impl ConvertError {
    /// The text shown to the user for this error: the decoder's or
    /// encoder's own message, or that of the format error.
    pub open spec fn message_text(self) -> Seq<char> {
        match self {
            ConvertError::Decode(message) => message@,
            ConvertError::Format(error) => error.message_text(),
            ConvertError::Encode(message) => message@,
        }
    }

    /// The text shown to the user for this error.
    pub fn message(&self) -> (text: String)
        ensures
            text@ == self.message_text(),
    {
        match self {
            ConvertError::Decode(message) => message.clone(),
            ConvertError::Format(error) => error.message(),
            ConvertError::Encode(message) => message.clone(),
        }
    }
}

/// What is to be written to the output path.
#[derive(Debug)]
pub enum Payload {
    /// The finished file, for JPEG and PNG.
    File(Vec<u8>),
    /// RGBA pixels and the quality for the WebP encoder. That encoder takes
    /// its quality as a floating-point number, so the caller runs it.
    Webp { pixels: PixelBuffer, quality: u8 },
}

/// A conversion that succeeded.
#[derive(Debug)]
pub struct Conversion {
    /// The path to write to: free when it was looked at.
    pub path: String,
    /// What to write there.
    pub payload: Payload,
}

/// What an encoder's outcome becomes: its file as the payload, or its
/// message as an encode error.
pub open spec fn payload_of(outcome: Result<Vec<u8>, String>) -> Result<Payload, ConvertError> {
    match outcome {
        Ok(file) => Ok(Payload::File(file)),
        Err(message) => Err(ConvertError::Encode(message)),
    }
}

/// Whether `result` is an outcome of encoding in `format` at `quality`:
/// a file for JPEG and PNG, RGBA pixels with that very quality for WebP, or
/// an encode error.
pub open spec fn is_encoded(format: OutputFormat, quality: int, result: Result<
    Payload,
    ConvertError,
>) -> bool {
    match result {
        Ok(Payload::File(_)) => format != OutputFormat::Webp,
        Ok(Payload::Webp { pixels, quality: q }) => {
            &&& format == OutputFormat::Webp
            &&& q == quality
            &&& pixels@.layout == PixelLayout::Rgba8
        },
        Err(ConvertError::Encode(_)) => true,
        Err(_) => false,
    }
}

/// Whether `result` is an outcome of dispatching on a path that asks for
/// `format`: the format error where it asks for none, else an outcome of
/// encoding in that format.
pub open spec fn is_dispatched(
    format: Result<OutputFormat, FormatError>,
    quality: int,
    result: Result<Payload, ConvertError>,
) -> bool {
    match format {
        Ok(f) => is_encoded(f, quality, result),
        Err(error) => result == Err::<Payload, ConvertError>(ConvertError::Format(error)),
    }
}

/// Turns an encoder's outcome into the payload or the encode error.
pub fn finish_encoding(outcome: Result<Vec<u8>, String>) -> (result: Result<Payload, ConvertError>)
    ensures
        result == payload_of(outcome),
        is_file_payload(encoding_of(outcome), result),
{
    match outcome {
        Ok(file) => Ok(Payload::File(file)),
        Err(message) => Err(ConvertError::Encode(message)),
    }
}

/// Whether `result` hands on an encoder's outcome: its file as the payload,
/// or its message as an encode error.
pub open spec fn is_file_payload(encoding: Result<Seq<u8>, Seq<char>>, result: Result<
    Payload,
    ConvertError,
>) -> bool {
    match result {
        Ok(Payload::File(file)) => encoding == Ok::<Seq<u8>, Seq<char>>(file@),
        Err(ConvertError::Encode(message)) => encoding == Err::<Seq<u8>, Seq<char>>(message@),
        _ => false,
    }
}

/// Whether `result` is the encode error for a malformed pixel buffer.
pub open spec fn is_malformed_buffer_error(result: Result<Payload, ConvertError>) -> bool {
    result matches Err(ConvertError::Encode(message)) && message@ == malformed_buffer_text()
}

/// Whether `result` is what pixels that may be missing give for JPEG at
/// `quality`: the encoder's file or its message, or the malformed-buffer
/// error where there are none.
pub open spec fn is_jpeg_payload(pixels: Option<Pixels>, quality: u8, result: Result<
    Payload,
    ConvertError,
>) -> bool {
    match pixels {
        Some(p) => is_file_payload(jpeg_encoding(p.data, p.width, p.height, quality), result),
        None => is_malformed_buffer_error(result),
    }
}

/// Whether `result` is what pixels that may be missing give for WebP at
/// `quality`: the pixels themselves with that quality, or the
/// malformed-buffer error where there are none.
pub open spec fn is_webp_payload(pixels: Option<Pixels>, quality: u8, result: Result<
    Payload,
    ConvertError,
>) -> bool {
    match pixels {
        Some(p) => result matches Ok(Payload::Webp { pixels: buffer, quality: q }) && buffer@ == p
            && q == quality,
        None => is_malformed_buffer_error(result),
    }
}

/// Whether `result` is what encoding `image` in `format` at `quality`
/// gives: for JPEG what its RGB copy gives, for PNG the outcome of the PNG
/// encoder on the image itself, for WebP what its RGBA copy gives.
pub open spec fn encodes(image: DecodedImage, format: OutputFormat, quality: u8, result: Result<
    Payload,
    ConvertError,
>) -> bool {
    match format {
        OutputFormat::Jpeg => is_jpeg_payload(image.rgb8_pixels(), quality, result),
        OutputFormat::Png => is_file_payload(image.png_file(), result),
        OutputFormat::Webp => is_webp_payload(image.rgba8_pixels(), quality, result),
    }
}

/// Whether `result` is what dispatching `image` on a path that asks for
/// `format` gives: the format error where it asks for none, else what
/// encoding in that format at `quality` gives.
pub open spec fn dispatches(
    format: Result<OutputFormat, FormatError>,
    image: DecodedImage,
    quality: u8,
    result: Result<Payload, ConvertError>,
) -> bool {
    match format {
        Ok(f) => encodes(image, f, quality, result),
        Err(error) => result == Err::<Payload, ConvertError>(ConvertError::Format(error)),
    }
}

/// The encode error for a pixel buffer with too few samples.
fn malformed_buffer() -> (error: ConvertError)
    ensures
        error matches ConvertError::Encode(message) && message@ == malformed_buffer_text(),
{
    ConvertError::Encode(String::from_str("Buffer de pixels malformado."))
}

/// Makes the JPEG file from the RGB copy of an image at `quality`.
pub fn jpeg_payload(pixels: Option<PixelBuffer>, quality: u8) -> (result: Result<
    Payload,
    ConvertError,
>)
    requires
        1 <= quality <= 100,
        pixels matches Some(buffer) ==> buffer@.layout == PixelLayout::Rgb8,
    ensures
        is_jpeg_payload(pixels_of(pixels), quality, result),
        is_encoded(OutputFormat::Jpeg, quality as int, result),
{
    match pixels {
        Some(buffer) => finish_encoding(encode_jpeg(&buffer, quality)),
        None => Err(malformed_buffer()),
    }
}

/// Hands out the RGBA copy of an image with the quality at which the WebP
/// encoder is to be run.
pub fn webp_payload(pixels: Option<PixelBuffer>, quality: u8) -> (result: Result<
    Payload,
    ConvertError,
>)
    requires
        1 <= quality <= 100,
        pixels matches Some(buffer) ==> buffer@.layout == PixelLayout::Rgba8,
    ensures
        is_webp_payload(pixels_of(pixels), quality, result),
        is_encoded(OutputFormat::Webp, quality as int, result),
{
    match pixels {
        Some(buffer) => Ok(Payload::Webp { pixels: buffer, quality }),
        None => Err(malformed_buffer()),
    }
}

/// Encodes a decoded image in `format`. JPEG is made from the RGB copy of
/// the image at `quality`; PNG from the image as it was decoded, whatever
/// the quality; for WebP the RGBA copy is handed out with `quality`.
pub fn encode(image: &DecodedImage, format: OutputFormat, quality: u8) -> (result: Result<
    Payload,
    ConvertError,
>)
    requires
        1 <= quality <= 100,
    ensures
        encodes(*image, format, quality, result),
        is_encoded(format, quality as int, result),
{
    match format {
        OutputFormat::Jpeg => jpeg_payload(image.to_rgb8(), quality),
        OutputFormat::Png => finish_encoding(image.encode_png()),
        OutputFormat::Webp => webp_payload(image.to_rgba8(), quality),
    }
}

/// Picks the encoder by the extension of `final_path` and runs it at the
/// normalised quality. A path without a `.`, or with an extension that names
/// no supported format, is refused before anything is encoded.
pub fn dispatch(final_path: &str, image: &DecodedImage, quality: Option<u8>) -> (result: Result<
    Payload,
    ConvertError,
>)
    ensures
        dispatches(
            format_of_path(final_path@),
            *image,
            normalized_quality(quality) as u8,
            result,
        ),
        is_dispatched(format_of_path(final_path@), normalized_quality(quality), result),
{
    match detect_format(final_path) {
        Ok(format) => encode(image, format, normalize_quality(quality)),
        Err(error) => Err(ConvertError::Format(error)),
    }
}

/// Whether `result` is what a decoded image gives once `path` is the path
/// to write to: the conversion with that path and what dispatching on it
/// hands out, or the error that dispatching on it ends with.
pub open spec fn lands(path: Seq<char>, image: DecodedImage, quality: u8, result: Result<
    Conversion,
    ConvertError,
>) -> bool {
    match result {
        Ok(conversion) => {
            &&& conversion.path@ == path
            &&& dispatches(format_of_path(path), image, quality, Ok(conversion.payload))
        },
        Err(error) => dispatches(
            format_of_path(path),
            image,
            quality,
            Err::<Payload, ConvertError>(error),
        ),
    }
}

/// Whether `result` is what the pipeline gives for a decode outcome. A
/// decode error is handed on with its message, whatever the path and
/// without a look at it. A decoded image lands at the path that the search
/// asking `probe` finds for `desired`.
pub open spec fn converts<F: Fn(&str) -> bool>(
    decoded: Result<DecodedImage, String>,
    probe: F,
    desired: Seq<char>,
    quality: u8,
    result: Result<Conversion, ConvertError>,
) -> bool {
    match decoded {
        Ok(image) => exists|path: Seq<char>| #[trigger]
            found_by(probe, desired, path) && lands(path, image, quality, result),
        Err(message) => result == Err::<Conversion, ConvertError>(ConvertError::Decode(message)),
    }
}

/// Carries a decode outcome through the rest of the pipeline: a decode
/// error ends it at once; for a decoded image a free path is searched for,
/// asking `probe`, and the image is dispatched on the path found.
pub fn convert_decoded<F: Fn(&str) -> bool>(
    decoded: Result<DecodedImage, String>,
    output_path: &str,
    quality: Option<u8>,
    probe: F,
) -> (result: Result<Conversion, ConvertError>)
    requires
        forall|p: &str| call_requires(probe, (p,)),
    ensures
        converts(decoded, probe, output_path@, normalized_quality(quality) as u8, result),
{
    let image = match decoded {
        Ok(image) => image,
        Err(message) => {
            return Err(ConvertError::Decode(message));
        },
    };
    let path = unique_path_by(output_path, probe);
    let ghost found = path@;
    let result = match dispatch(path.as_str(), &image, quality) {
        Ok(payload) => Ok(Conversion { path, payload }),
        Err(error) => Err(error),
    };
    assert(lands(found, image, normalized_quality(quality) as u8, result));
    result
}

/// Converts the image in `input` for writing at `output_path`, or at the
/// first free candidate of it where something exists there already. The
/// input is decoded first, so an undecodable input is reported before the
/// path is looked at. Decoder and disk have no name here: which result
/// comes for what they answered is the contract of `convert_decoded`.
pub fn convert_image(input: &[u8], output_path: &str, quality: Option<u8>) -> (result: Result<
    Conversion,
    ConvertError,
>)
    ensures
        match result {
            Ok(conversion) => {
                &&& is_resolution(output_path@, conversion.path@)
                &&& is_dispatched(
                    format_of_path(conversion.path@),
                    normalized_quality(quality),
                    Ok(conversion.payload),
                )
                &&& exists|image: DecodedImage| #[trigger]
                    dispatches(
                        format_of_path(conversion.path@),
                        image,
                        normalized_quality(quality) as u8,
                        Ok(conversion.payload),
                    )
            },
            Err(ConvertError::Format(error)) => exists|path: Seq<char>|
                is_resolution(output_path@, path) && #[trigger] format_of_path(path) == Err::<
                    OutputFormat,
                    FormatError,
                >(error),
            Err(ConvertError::Encode(message)) => exists|path: Seq<char>, image: DecodedImage|
                is_resolution(output_path@, path) && #[trigger] dispatches(
                    format_of_path(path),
                    image,
                    normalized_quality(quality) as u8,
                    Err::<Payload, ConvertError>(ConvertError::Encode(message)),
                ),
            Err(ConvertError::Decode(_)) => true,
        },
{
    let decoded = decode_image(input);
    let ghost outcome = decoded;
    let probe = |path: &str| path_exists(path);
    let result = convert_decoded(decoded, output_path, quality, probe);
    proof {
        if let Ok(image) = outcome {
            let path = choose|path: Seq<char>| #[trigger]
                found_by(probe, output_path@, path) && lands(
                    path,
                    image,
                    normalized_quality(quality) as u8,
                    result,
                );
            lemma_found_is_resolution(probe, output_path@, path);
        }
    }
    result
}

} // verus!
