//! Decoded images, their pixels, and the encoders of the `image` crate.

use image::codecs::png::PngEncoder;
use image::{ColorType, ExtendedColorType, ImageEncoder};
use vstd::prelude::*;
use vstd::string::StringExecFns;

verus! {

/// `image::DynamicImage`: a decoded image in whatever layout its file had.
/// It is carried through as it is; nothing is read from it here.
#[verifier::external_type_specification]
#[verifier::external_body]
pub struct ExDynamicImage(image::DynamicImage);

/// An image that was decoded from a file's bytes. Only `decode_image` makes
/// one, so its pixels are laid out as the decoder leaves them.
#[derive(Debug)]
pub struct DecodedImage {
    image: image::DynamicImage,
}

/// How the pixels of a buffer are laid out: which channels a pixel has and
/// how wide a sample is. Samples wider than a byte lie in the byte order of
/// the machine.
#[derive(Clone, Copy, Debug, PartialEq, Eq, Structural)]
pub enum PixelLayout {
    /// Luminance, 8 bits.
    L8,
    /// Luminance and alpha, 8 bits each.
    La8,
    /// Red, green, blue, 8 bits each.
    Rgb8,
    /// Red, green, blue, alpha, 8 bits each.
    Rgba8,
    /// Luminance, 16 bits.
    L16,
    /// Luminance and alpha, 16 bits each.
    La16,
    /// Red, green, blue, 16 bits each.
    Rgb16,
    /// Red, green, blue, alpha, 16 bits each.
    Rgba16,
    /// Red, green, blue, 32 bits each.
    Rgb32F,
    /// Red, green, blue, alpha, 32 bits each.
    Rgba32F,
}

impl PixelLayout {
    /// The number of bytes a pixel takes.
    pub open spec fn pixel_bytes(self) -> nat {
        match self {
            PixelLayout::L8 => 1,
            PixelLayout::La8 => 2,
            PixelLayout::Rgb8 => 3,
            PixelLayout::Rgba8 => 4,
            PixelLayout::L16 => 2,
            PixelLayout::La16 => 4,
            PixelLayout::Rgb16 => 6,
            PixelLayout::Rgba16 => 8,
            PixelLayout::Rgb32F => 12,
            PixelLayout::Rgba32F => 16,
        }
    }

    /// The number of bytes a pixel takes.
    pub fn bytes_per_pixel(self) -> (n: u8)
        ensures
            n == self.pixel_bytes(),
    {
        match self {
            PixelLayout::L8 => 1,
            PixelLayout::La8 => 2,
            PixelLayout::Rgb8 => 3,
            PixelLayout::Rgba8 => 4,
            PixelLayout::L16 => 2,
            PixelLayout::La16 => 4,
            PixelLayout::Rgb16 => 6,
            PixelLayout::Rgba16 => 8,
            PixelLayout::Rgb32F => 12,
            PixelLayout::Rgba32F => 16,
        }
    }
}

/// The number of bytes that an image of the given size takes in a layout.
pub open spec fn byte_count(layout: PixelLayout, width: u32, height: u32) -> nat {
    layout.pixel_bytes() * (width as nat) * (height as nat)
}

/// The message for a pixel buffer with fewer bytes than its size asks for,
/// or in a layout that is not known.
pub open spec fn malformed_buffer_text() -> Seq<char> {
    "Buffer de pixels malformado."@
}

/// What raw samples make as a buffer of the given layout and size: the
/// first samples, as many as the size asks for, or nothing where there are
/// too few.
pub open spec fn pixels_from(layout: PixelLayout, width: u32, height: u32, samples: Seq<u8>) -> Option<
    Pixels,
> {
    if samples.len() >= byte_count(layout, width, height) {
        Some(
            Pixels {
                layout,
                width,
                height,
                data: samples.subrange(0, byte_count(layout, width, height) as int),
            },
        )
    } else {
        None
    }
}

/// What a pixel buffer that may be missing holds.
pub open spec fn pixels_of(buffer: Option<PixelBuffer>) -> Option<Pixels> {
    match buffer {
        Some(pixels) => Some(pixels@),
        None => None,
    }
}

/// What a `PixelBuffer` holds.
pub ghost struct Pixels {
    pub layout: PixelLayout,
    pub width: u32,
    pub height: u32,
    pub data: Seq<u8>,
}

/// The pixels of an image, row by row, with as many bytes as its size and
/// layout ask for.
#[derive(Debug)]
pub struct PixelBuffer {
    layout: PixelLayout,
    width: u32,
    height: u32,
    data: Vec<u8>,
}

impl View for PixelBuffer {
    type V = Pixels;

    closed spec fn view(&self) -> Pixels {
        Pixels { layout: self.layout, width: self.width, height: self.height, data: self.data@ }
    }
}

impl PixelBuffer {
    #[verifier::type_invariant]
    spec fn well_formed(self) -> bool {
        self.data@.len() == byte_count(self.layout, self.width, self.height)
    }

    /// Makes a buffer from raw samples. Samples beyond those that the size
    /// asks for are dropped; with too few there is no buffer.
    pub fn from_raw(layout: PixelLayout, width: u32, height: u32, data: Vec<u8>) -> (result: Option<
        PixelBuffer,
    >)
        ensures
            pixels_of(result) == pixels_from(layout, width, height, data@),
            result is Some <==> data@.len() >= byte_count(layout, width, height),
            result matches Some(buffer) ==> buffer@ == (Pixels {
                layout,
                width,
                height,
                data: data@.subrange(0, byte_count(layout, width, height) as int),
            }),
    {
        let channels = layout.bytes_per_pixel() as u128;
        assert((width as u128) * (height as u128) <= 0xffff_ffff * 0xffff_ffff) by (nonlinear_arith)
            requires
                width <= 0xffff_ffff,
                height <= 0xffff_ffff,
        ;
        let area: u128 = (width as u128) * (height as u128);
        assert(channels * area <= 16 * (0xffff_ffff * 0xffff_ffff)) by (nonlinear_arith)
            requires
                channels <= 16,
                area <= 0xffff_ffff * 0xffff_ffff,
        ;
        let needed: u128 = channels * area;
        assert(needed == byte_count(layout, width, height)) by (nonlinear_arith)
            requires
                needed == channels * area,
                area == (width as nat) * (height as nat),
                channels == layout.pixel_bytes(),
                byte_count(layout, width, height) == layout.pixel_bytes() * (width as nat) * (
                height as nat),
        ;
        if (data.len() as u128) < needed {
            return None;
        }
        let mut data = data;
        data.truncate(needed as usize);
        Some(PixelBuffer { layout, width, height, data })
    }

    /// The layout of the samples.
    pub fn layout(&self) -> (layout: PixelLayout)
        ensures
            layout == self@.layout,
    {
        self.layout
    }

    /// The width in pixels.
    pub fn width(&self) -> (width: u32)
        ensures
            width == self@.width,
    {
        self.width
    }

    /// The height in pixels.
    pub fn height(&self) -> (height: u32)
        ensures
            height == self@.height,
    {
        self.height
    }

    /// The samples, row by row: exactly as many as size and layout ask for.
    pub fn data(&self) -> (data: &Vec<u8>)
        ensures
            data@ == self@.data,
            data@.len() == byte_count(self@.layout, self@.width, self@.height),
    {
        proof {
            use_type_invariant(self);
        }
        &self.data
    }
}

/// The file that `image::codecs::jpeg::JpegEncoder`, made with
/// `new_with_quality`, writes for RGB samples of the given size, or the text
/// of the error it ends with. The encoder reads nothing but these four
/// values.
pub uninterp spec fn jpeg_encoding(data: Seq<u8>, width: u32, height: u32, quality: u8) -> Result<
    Seq<u8>,
    Seq<char>,
>;

/// The copy that `image::DynamicImage::to_rgb8` makes of an image, as plain
/// values: its width, its height and its raw samples. The copy is made from
/// the pixels that the image holds and from nothing else.
pub uninterp spec fn rgb8_copy_of(image: image::DynamicImage) -> (u32, u32, Seq<u8>);

/// The copy that `image::DynamicImage::to_rgba8` makes of an image, as plain
/// values: its width, its height and its raw samples. The copy is made from
/// the pixels that the image holds and from nothing else.
pub uninterp spec fn rgba8_copy_of(image: image::DynamicImage) -> (u32, u32, Seq<u8>);

/// The layout of an image, as `image::DynamicImage::color` tells it; none
/// for a colour type that is not among the ten of `PixelLayout`.
pub uninterp spec fn native_layout_of(image: image::DynamicImage) -> Option<PixelLayout>;

/// What an image holds, as plain values: its width, its height and the
/// bytes of its samples in its own layout, as `image::DynamicImage::width`,
/// `height` and `as_bytes` give them.
pub uninterp spec fn native_copy_of(image: image::DynamicImage) -> (u32, u32, Seq<u8>);

/// The file that `image::codecs::png::PngEncoder`, made with `new`, writes
/// for pixels of the given size and layout, or the text of the error it ends
/// with. The encoder reads nothing but these four values.
pub uninterp spec fn png_encoding(data: Seq<u8>, width: u32, height: u32, layout: PixelLayout) -> Result<
    Seq<u8>,
    Seq<char>,
>;

/// What an encoder's outcome holds: the bytes of the file, or the text of
/// the error.
pub open spec fn encoding_of(outcome: Result<Vec<u8>, String>) -> Result<Seq<u8>, Seq<char>> {
    match outcome {
        Ok(bytes) => Ok(bytes@),
        Err(message) => Err(message@),
    }
}

/// Calls `image::load_from_memory`, which guesses the format from the first
/// bytes and decodes. The decoders it chooses among are kept in a registry
/// of the process, so the result is not decided by the bytes alone and
/// nothing is claimed of it; an error is handed on as its text.
#[verifier::external_body]
fn load_image(bytes: &[u8]) -> (outcome: Result<image::DynamicImage, String>) {
    match image::load_from_memory(bytes) {
        Ok(image) => Ok(image),
        Err(error) => Err(error.to_string()),
    }
}

/// Calls `image::DynamicImage::to_rgb8` and hands on width, height and raw
/// samples of the copy. Claimed: they are the named RGB copy of the image.
/// Nothing is claimed of how many samples there are.
#[verifier::external_body]
fn rgb8_samples(image: &image::DynamicImage) -> (samples: (u32, u32, Vec<u8>))
    ensures
        (samples.0, samples.1, samples.2@) == rgb8_copy_of(*image),
{
    let copy = image.to_rgb8();
    (copy.width(), copy.height(), copy.into_raw())
}

/// Calls `image::DynamicImage::to_rgba8` and hands on width, height and raw
/// samples of the copy. Claimed: they are the named RGBA copy of the image.
/// Nothing is claimed of how many samples there are.
#[verifier::external_body]
fn rgba8_samples(image: &image::DynamicImage) -> (samples: (u32, u32, Vec<u8>))
    ensures
        (samples.0, samples.1, samples.2@) == rgba8_copy_of(*image),
{
    let copy = image.to_rgba8();
    (copy.width(), copy.height(), copy.into_raw())
}

/// Calls `image::codecs::jpeg::JpegEncoder::new_with_quality` on an empty
/// buffer and then `encode` with the colour type `Rgb8`. Claimed: the outcome
/// is the named encoding of the four arguments. `encode` panics unless
/// `data` holds three bytes for each pixel, which is required here.
#[verifier::external_body]
fn jpeg_encode(data: &Vec<u8>, width: u32, height: u32, quality: u8) -> (outcome: Result<
    Vec<u8>,
    String,
>)
    requires
        data@.len() == 3 * (width as nat) * (height as nat),
        1 <= quality <= 100,
    ensures
        encoding_of(outcome) == jpeg_encoding(data@, width, height, quality),
{
    let mut file: Vec<u8> = Vec::new();
    let written = image::codecs::jpeg::JpegEncoder::new_with_quality(&mut file, quality).encode(
        data,
        width,
        height,
        image::ExtendedColorType::Rgb8,
    );
    match written {
        Ok(()) => Ok(file),
        Err(error) => Err(error.to_string()),
    }
}

/// Calls `image::DynamicImage::color` and tells its colour types apart.
/// Claimed: the result is the named layout of the image.
#[verifier::external_body]
fn native_layout(image: &image::DynamicImage) -> (layout: Option<PixelLayout>)
    ensures
        layout == native_layout_of(*image),
{
    match image.color() {
        ColorType::L8 => Some(PixelLayout::L8),
        ColorType::La8 => Some(PixelLayout::La8),
        ColorType::Rgb8 => Some(PixelLayout::Rgb8),
        ColorType::Rgba8 => Some(PixelLayout::Rgba8),
        ColorType::L16 => Some(PixelLayout::L16),
        ColorType::La16 => Some(PixelLayout::La16),
        ColorType::Rgb16 => Some(PixelLayout::Rgb16),
        ColorType::Rgba16 => Some(PixelLayout::Rgba16),
        ColorType::Rgb32F => Some(PixelLayout::Rgb32F),
        ColorType::Rgba32F => Some(PixelLayout::Rgba32F),
        _ => None,
    }
}

/// Calls `image::DynamicImage::width`, `height` and `as_bytes`, and copies
/// the bytes. Claimed: they are the named native copy of the image. Nothing
/// is claimed of how many bytes there are.
#[verifier::external_body]
fn native_samples(image: &image::DynamicImage) -> (samples: (u32, u32, Vec<u8>))
    ensures
        (samples.0, samples.1, samples.2@) == native_copy_of(*image),
{
    (image.width(), image.height(), image.as_bytes().to_vec())
}

/// Calls `image::codecs::png::PngEncoder::new` on an empty buffer and then
/// `write_image`. Claimed: the outcome is the named PNG encoding of the four
/// arguments. `write_image` panics unless `data` holds exactly the bytes
/// that size and layout ask for, which is required here.
#[verifier::external_body]
fn png_write(data: &Vec<u8>, width: u32, height: u32, layout: PixelLayout) -> (outcome: Result<
    Vec<u8>,
    String,
>)
    requires
        data@.len() == byte_count(layout, width, height),
    ensures
        encoding_of(outcome) == png_encoding(data@, width, height, layout),
{
    let mut file: Vec<u8> = Vec::new();
    let color = match layout {
        PixelLayout::L8 => ExtendedColorType::L8,
        PixelLayout::La8 => ExtendedColorType::La8,
        PixelLayout::Rgb8 => ExtendedColorType::Rgb8,
        PixelLayout::Rgba8 => ExtendedColorType::Rgba8,
        PixelLayout::L16 => ExtendedColorType::L16,
        PixelLayout::La16 => ExtendedColorType::La16,
        PixelLayout::Rgb16 => ExtendedColorType::Rgb16,
        PixelLayout::Rgba16 => ExtendedColorType::Rgba16,
        PixelLayout::Rgb32F => ExtendedColorType::Rgb32F,
        PixelLayout::Rgba32F => ExtendedColorType::Rgba32F,
    };
    let written = PngEncoder::new(&mut file).write_image(data, width, height, color);
    match written { Ok(()) => Ok(file), Err(error) => Err(error.to_string()) }
}

/// Decodes an image from the bytes of a file, whose format is found from
/// its content. An error is the decoder's own message.
pub fn decode_image(bytes: &[u8]) -> (outcome: Result<DecodedImage, String>) {
    match load_image(bytes) {
        Ok(image) => Ok(DecodedImage { image }),
        Err(message) => Err(message),
    }
}

impl DecodedImage {
    /// Width, height and raw samples of the image's copy as 8-bit RGB.
    pub closed spec fn rgb8_copy(&self) -> (u32, u32, Seq<u8>) {
        rgb8_copy_of(self.image)
    }

    /// Width, height and raw samples of the image's copy as 8-bit RGBA.
    pub closed spec fn rgba8_copy(&self) -> (u32, u32, Seq<u8>) {
        rgba8_copy_of(self.image)
    }

    /// The layout that the image was decoded in; none where it is not
    /// among those of `PixelLayout`.
    pub closed spec fn native_layout(&self) -> Option<PixelLayout> {
        native_layout_of(self.image)
    }

    /// Width, height and the bytes of the image in its own layout.
    pub closed spec fn native_copy(&self) -> (u32, u32, Seq<u8>) {
        native_copy_of(self.image)
    }

    /// The image as a pixel buffer in its own layout: nothing where the
    /// layout is not known or the image holds fewer bytes than its size asks
    /// for.
    pub open spec fn native_pixels(&self) -> Option<Pixels> {
        let copy = self.native_copy();
        match self.native_layout() {
            Some(layout) => pixels_from(layout, copy.0, copy.1, copy.2),
            None => None,
        }
    }

    /// The image as a PNG file, or the text of the error: the encoder's
    /// outcome on the image's own pixels, or the malformed-buffer message
    /// where it has none.
    pub open spec fn png_file(&self) -> Result<Seq<u8>, Seq<char>> {
        match self.native_pixels() {
            Some(pixels) => png_encoding(pixels.data, pixels.width, pixels.height, pixels.layout),
            None => Err(malformed_buffer_text()),
        }
    }

    /// The RGB copy as a pixel buffer: nothing where the copy holds fewer
    /// samples than its size asks for.
    pub open spec fn rgb8_pixels(&self) -> Option<Pixels> {
        let copy = self.rgb8_copy();
        pixels_from(PixelLayout::Rgb8, copy.0, copy.1, copy.2)
    }

    /// The RGBA copy as a pixel buffer: nothing where the copy holds fewer
    /// samples than its size asks for.
    pub open spec fn rgba8_pixels(&self) -> Option<Pixels> {
        let copy = self.rgba8_copy();
        pixels_from(PixelLayout::Rgba8, copy.0, copy.1, copy.2)
    }

    /// A copy of the image as 8-bit RGB, without its alpha channel. `None`
    /// where the copy came with fewer samples than its size asks for.
    pub fn to_rgb8(&self) -> (pixels: Option<PixelBuffer>)
        ensures
            pixels_of(pixels) == self.rgb8_pixels(),
            pixels matches Some(buffer) ==> buffer@.layout == PixelLayout::Rgb8,
    {
        let (width, height, data) = rgb8_samples(&self.image);
        PixelBuffer::from_raw(PixelLayout::Rgb8, width, height, data)
    }

    /// A copy of the image as 8-bit RGBA. `None` where the copy came with
    /// fewer samples than its size asks for.
    pub fn to_rgba8(&self) -> (pixels: Option<PixelBuffer>)
        ensures
            pixels_of(pixels) == self.rgba8_pixels(),
            pixels matches Some(buffer) ==> buffer@.layout == PixelLayout::Rgba8,
    {
        let (width, height, data) = rgba8_samples(&self.image);
        PixelBuffer::from_raw(PixelLayout::Rgba8, width, height, data)
    }

    /// A copy of the image's pixels in the layout it was decoded in. Bytes
    /// beyond those that its size asks for are dropped. `None` where the
    /// layout is not known or the image holds too few bytes.
    pub fn to_native(&self) -> (pixels: Option<PixelBuffer>)
        ensures
            pixels_of(pixels) == self.native_pixels(),
    {
        match native_layout(&self.image) {
            Some(layout) => {
                let (width, height, data) = native_samples(&self.image);
                PixelBuffer::from_raw(layout, width, height, data)
            },
            None => None,
        }
    }

    /// The image as a PNG file, in the layout it was decoded in. PNG is
    /// lossless: no quality enters.
    pub fn encode_png(&self) -> (outcome: Result<Vec<u8>, String>)
        ensures
            encoding_of(outcome) == self.png_file(),
    {
        match self.to_native() {
            Some(pixels) => encode_png_pixels(&pixels),
            None => Err(String::from_str("Buffer de pixels malformado.")),
        }
    }
}

/// The pixels as a PNG file, in their own layout.
pub fn encode_png_pixels(pixels: &PixelBuffer) -> (outcome: Result<Vec<u8>, String>)
    ensures
        encoding_of(outcome) == png_encoding(
            pixels@.data,
            pixels@.width,
            pixels@.height,
            pixels@.layout,
        ),
{
    png_write(pixels.data(), pixels.width(), pixels.height(), pixels.layout())
}

/// The pixels as a JPEG file of the given quality.
pub fn encode_jpeg(pixels: &PixelBuffer, quality: u8) -> (outcome: Result<Vec<u8>, String>)
    requires
        pixels@.layout == PixelLayout::Rgb8,
        1 <= quality <= 100,
    ensures
        encoding_of(outcome) == jpeg_encoding(
            pixels@.data,
            pixels@.width,
            pixels@.height,
            quality,
        ),
{
    let data = pixels.data();
    assert(data@.len() == 3 * (pixels@.width as nat) * (pixels@.height as nat));
    jpeg_encode(data, pixels.width(), pixels.height(), quality)
}

} // verus!
