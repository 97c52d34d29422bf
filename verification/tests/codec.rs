use image_converter::codec::{
    decode_image, encode_jpeg, encode_png_pixels, PixelBuffer, PixelLayout,
};
use std::io::Cursor;

fn gradient(width: u32, height: u32) -> image::RgbaImage {
    let mut picture = image::RgbaImage::new(width, height);
    for y in 0..height {
        for x in 0..width {
            let red = (x * 37 + y * 11) % 256;
            let green = (x * 5 + y * 71) % 256;
            let blue = (x * y + 13) % 256;
            let alpha = 255 - (x + y) % 200;
            picture.put_pixel(x, y, image::Rgba([red as u8, green as u8, blue as u8, alpha as u8]));
        }
    }
    picture
}

fn png_of(picture: &image::RgbaImage) -> Vec<u8> {
    let mut file: Vec<u8> = Vec::new();
    image::DynamicImage::ImageRgba8(picture.clone())
        .write_to(&mut Cursor::new(&mut file), image::ImageFormat::Png)
        .unwrap();
    file
}

#[test]
fn layout_bytes_per_pixel() {
    assert_eq!(PixelLayout::L8.bytes_per_pixel(), 1);
    assert_eq!(PixelLayout::La8.bytes_per_pixel(), 2);
    assert_eq!(PixelLayout::Rgb8.bytes_per_pixel(), 3);
    assert_eq!(PixelLayout::Rgba8.bytes_per_pixel(), 4);
    assert_eq!(PixelLayout::L16.bytes_per_pixel(), 2);
    assert_eq!(PixelLayout::La16.bytes_per_pixel(), 4);
    assert_eq!(PixelLayout::Rgb16.bytes_per_pixel(), 6);
    assert_eq!(PixelLayout::Rgba16.bytes_per_pixel(), 8);
    assert_eq!(PixelLayout::Rgb32F.bytes_per_pixel(), 12);
    assert_eq!(PixelLayout::Rgba32F.bytes_per_pixel(), 16);
}

#[test]
fn layout_bytes_agree_with_the_image_crate() {
    let pairs = [
        (PixelLayout::L8, image::ColorType::L8),
        (PixelLayout::La8, image::ColorType::La8),
        (PixelLayout::Rgb8, image::ColorType::Rgb8),
        (PixelLayout::Rgba8, image::ColorType::Rgba8),
        (PixelLayout::L16, image::ColorType::L16),
        (PixelLayout::La16, image::ColorType::La16),
        (PixelLayout::Rgb16, image::ColorType::Rgb16),
        (PixelLayout::Rgba16, image::ColorType::Rgba16),
        (PixelLayout::Rgb32F, image::ColorType::Rgb32F),
        (PixelLayout::Rgba32F, image::ColorType::Rgba32F),
    ];
    for (layout, color) in pairs {
        assert_eq!(layout.bytes_per_pixel(), color.bytes_per_pixel());
    }
}

#[test]
fn buffer_from_exact_samples() {
    let data: Vec<u8> = (0..24).collect();
    let buffer = PixelBuffer::from_raw(PixelLayout::Rgb8, 4, 2, data.clone()).unwrap();
    assert_eq!(buffer.layout(), PixelLayout::Rgb8);
    assert_eq!(buffer.width(), 4);
    assert_eq!(buffer.height(), 2);
    assert_eq!(buffer.data(), &data);
}

#[test]
fn buffer_drops_samples_beyond_the_size() {
    let data: Vec<u8> = (0..30).collect();
    let buffer = PixelBuffer::from_raw(PixelLayout::Rgba8, 3, 2, data.clone()).unwrap();
    assert_eq!(buffer.data().len(), 24);
    assert_eq!(buffer.data()[..], data[..24]);
}

#[test]
fn buffer_with_too_few_samples_is_refused() {
    let data: Vec<u8> = (0..23).collect();
    assert!(PixelBuffer::from_raw(PixelLayout::Rgb8, 4, 2, data.clone()).is_none());
    assert!(PixelBuffer::from_raw(PixelLayout::Rgba8, 3, 2, data).is_none());
    assert!(PixelBuffer::from_raw(PixelLayout::Rgba8, u32::MAX, u32::MAX, vec![0; 16]).is_none());
}

#[test]
fn buffer_of_an_empty_image() {
    let buffer = PixelBuffer::from_raw(PixelLayout::Rgb8, 0, 7, vec![1, 2, 3]).unwrap();
    assert_eq!(buffer.width(), 0);
    assert_eq!(buffer.height(), 7);
    assert!(buffer.data().is_empty());
}

#[test]
fn decode_reads_a_png() {
    let picture = gradient(5, 3);
    let decoded = decode_image(&png_of(&picture)).unwrap();
    let pixels = decoded.to_rgba8().unwrap();
    assert_eq!(pixels.layout(), PixelLayout::Rgba8);
    assert_eq!(pixels.width(), 5);
    assert_eq!(pixels.height(), 3);
    assert_eq!(pixels.data(), picture.as_raw());
}

#[test]
fn decode_refuses_what_is_no_image() {
    assert!(decode_image(b"this is no image").is_err());
    assert!(decode_image(&[]).is_err());
    let message = decode_image(b"this is no image").unwrap_err();
    assert!(!message.is_empty());
}

#[test]
fn decode_refuses_a_truncated_png() {
    let file = png_of(&gradient(16, 16));
    assert!(decode_image(&file[..file.len() / 2]).is_err());
}

#[test]
fn rgb_copy_drops_the_alpha_channel() {
    let picture = gradient(4, 4);
    let decoded = decode_image(&png_of(&picture)).unwrap();
    let pixels = decoded.to_rgb8().unwrap();
    assert_eq!(pixels.layout(), PixelLayout::Rgb8);
    assert_eq!(pixels.width(), 4);
    assert_eq!(pixels.height(), 4);
    let mut expected: Vec<u8> = Vec::new();
    for pixel in picture.pixels() {
        expected.push(pixel.0[0]);
        expected.push(pixel.0[1]);
        expected.push(pixel.0[2]);
    }
    assert_eq!(pixels.data(), &expected);
}

#[test]
fn png_encoding_round_trips_pixel_for_pixel() {
    let picture = gradient(7, 5);
    let decoded = decode_image(&png_of(&picture)).unwrap();
    let file = decoded.encode_png().unwrap();
    assert_eq!(file[..8], [0x89, b'P', b'N', b'G', 0x0d, 0x0a, 0x1a, 0x0a]);
    let again = decode_image(&file).unwrap().to_rgba8().unwrap();
    assert_eq!(again.width(), 7);
    assert_eq!(again.height(), 5);
    assert_eq!(again.data(), picture.as_raw());
}

#[test]
fn jpeg_encoding_gives_a_jpeg_of_the_same_size() {
    let picture = gradient(9, 6);
    let pixels = decode_image(&png_of(&picture)).unwrap().to_rgb8().unwrap();
    let file = encode_jpeg(&pixels, 90).unwrap();
    assert_ne!(&file, pixels.data());
    assert_eq!(file[..2], [0xff, 0xd8]);
    assert_eq!(file[file.len() - 2..], [0xff, 0xd9]);
    assert_eq!(image::guess_format(&file).unwrap(), image::ImageFormat::Jpeg);
    let again = decode_image(&file).unwrap().to_rgb8().unwrap();
    assert_eq!(again.width(), 9);
    assert_eq!(again.height(), 6);
}

#[test]
fn jpeg_encoding_is_the_same_for_the_same_input() {
    let pixels = decode_image(&png_of(&gradient(8, 8))).unwrap().to_rgb8().unwrap();
    assert_eq!(encode_jpeg(&pixels, 75).unwrap(), encode_jpeg(&pixels, 75).unwrap());
}

#[test]
fn jpeg_quality_steers_the_file_size() {
    let pixels = decode_image(&png_of(&gradient(64, 64))).unwrap().to_rgb8().unwrap();
    let worst = encode_jpeg(&pixels, 1).unwrap();
    let best = encode_jpeg(&pixels, 100).unwrap();
    assert!(worst.len() < best.len());
}

#[test]
fn jpeg_encoding_refuses_an_empty_image() {
    let pixels = PixelBuffer::from_raw(PixelLayout::Rgb8, 0, 0, Vec::new()).unwrap();
    assert!(encode_jpeg(&pixels, 80).is_err());
}

#[test]
fn jpeg_encoding_refuses_an_image_wider_than_the_format_allows() {
    let pixels = PixelBuffer::from_raw(PixelLayout::Rgb8, 65536, 1, vec![0; 65536 * 3]).unwrap();
    assert!(encode_jpeg(&pixels, 80).is_err());
}

#[test]
fn copies_of_an_image_are_the_same_each_time() {
    let decoded = decode_image(&png_of(&gradient(6, 6))).unwrap();
    let first = decoded.to_rgb8().unwrap();
    let second = decoded.to_rgb8().unwrap();
    assert_eq!(first.width(), second.width());
    assert_eq!(first.height(), second.height());
    assert_eq!(first.data(), second.data());
    let first = decoded.to_rgba8().unwrap();
    let second = decoded.to_rgba8().unwrap();
    assert_eq!(first.data(), second.data());
}

#[test]
fn copies_hold_exactly_the_samples_their_size_asks_for() {
    let decoded = decode_image(&png_of(&gradient(7, 3))).unwrap();
    let rgb = decoded.to_rgb8().unwrap();
    assert_eq!((rgb.width(), rgb.height()), (7, 3));
    assert_eq!(rgb.data().len(), 7 * 3 * 3);
    let rgba = decoded.to_rgba8().unwrap();
    assert_eq!((rgba.width(), rgba.height()), (7, 3));
    assert_eq!(rgba.data().len(), 7 * 3 * 4);
}

#[test]
fn png_encoding_is_the_same_for_the_same_image() {
    let decoded = decode_image(&png_of(&gradient(9, 4))).unwrap();
    let first = decoded.encode_png().unwrap();
    let second = decoded.encode_png().unwrap();
    assert_eq!(first, second);
    assert!(!first.is_empty());
}

#[test]
fn png_encoding_keeps_a_grey_image_grey() {
    let mut picture = image::GrayImage::new(4, 2);
    for (i, pixel) in picture.pixels_mut().enumerate() {
        pixel.0[0] = (i * 30) as u8;
    }
    let mut file: Vec<u8> = Vec::new();
    image::DynamicImage::ImageLuma8(picture.clone())
        .write_to(&mut Cursor::new(&mut file), image::ImageFormat::Png)
        .unwrap();
    let again = decode_image(&file).unwrap().encode_png().unwrap();
    let reread = image::load_from_memory(&again).unwrap();
    assert_eq!(reread.color(), image::ColorType::L8);
    assert_eq!(reread.as_bytes(), picture.as_raw().as_slice());
}

fn file_of(picture: image::DynamicImage, format: image::ImageFormat) -> Vec<u8> {
    let mut file: Vec<u8> = Vec::new();
    picture.write_to(&mut Cursor::new(&mut file), format).unwrap();
    file
}

#[test]
fn native_copy_keeps_the_layout_of_the_file() {
    let colour = decode_image(&png_of(&gradient(3, 2))).unwrap().to_native().unwrap();
    assert_eq!(colour.layout(), PixelLayout::Rgba8);
    assert_eq!((colour.width(), colour.height()), (3, 2));
    assert_eq!(colour.data(), gradient(3, 2).as_raw());

    let grey = image::GrayImage::from_raw(2, 2, vec![0, 80, 160, 240]).unwrap();
    let file = file_of(image::DynamicImage::ImageLuma8(grey), image::ImageFormat::Png);
    let native = decode_image(&file).unwrap().to_native().unwrap();
    assert_eq!(native.layout(), PixelLayout::L8);
    assert_eq!(native.data(), &vec![0, 80, 160, 240]);
}

#[test]
fn native_copy_of_sixteen_bit_samples() {
    let deep = image::ImageBuffer::<image::Rgb<u16>, Vec<u16>>::from_raw(
        2,
        1,
        vec![0x0102, 0x0304, 0x0506, 0xa1a2, 0xa3a4, 0xa5a6],
    )
    .unwrap();
    let file = file_of(image::DynamicImage::ImageRgb16(deep.clone()), image::ImageFormat::Png);
    let decoded = decode_image(&file).unwrap();
    let native = decoded.to_native().unwrap();
    assert_eq!(native.layout(), PixelLayout::Rgb16);
    assert_eq!((native.width(), native.height()), (2, 1));
    assert_eq!(native.data().len(), 12);
    let mut expected: Vec<u8> = Vec::new();
    for sample in deep.as_raw() {
        expected.extend_from_slice(&sample.to_ne_bytes());
    }
    assert_eq!(native.data(), &expected);
}

#[test]
fn png_encoding_keeps_sixteen_bit_samples() {
    let deep = image::ImageBuffer::<image::Rgba<u16>, Vec<u16>>::from_raw(
        1,
        2,
        vec![1, 256, 65535, 40000, 513, 2, 3, 65534],
    )
    .unwrap();
    let file = file_of(image::DynamicImage::ImageRgba16(deep.clone()), image::ImageFormat::Png);
    let again = decode_image(&file).unwrap().encode_png().unwrap();
    let reread = image::load_from_memory(&again).unwrap();
    assert_eq!(reread.color(), image::ColorType::Rgba16);
    assert_eq!(reread.into_rgba16().as_raw(), deep.as_raw());
}

#[test]
fn png_encoding_is_what_the_image_crate_writes() {
    let picture = gradient(11, 7);
    let expected = file_of(image::DynamicImage::ImageRgba8(picture.clone()), image::ImageFormat::Png);
    let decoded = decode_image(&png_of(&picture)).unwrap();
    assert_eq!(decoded.encode_png().unwrap(), expected);
}

#[test]
fn png_encoding_of_pixels_in_each_integer_layout() {
    let layouts = [
        (PixelLayout::L8, image::ColorType::L8),
        (PixelLayout::La8, image::ColorType::La8),
        (PixelLayout::Rgb8, image::ColorType::Rgb8),
        (PixelLayout::Rgba8, image::ColorType::Rgba8),
        (PixelLayout::L16, image::ColorType::L16),
        (PixelLayout::La16, image::ColorType::La16),
        (PixelLayout::Rgb16, image::ColorType::Rgb16),
        (PixelLayout::Rgba16, image::ColorType::Rgba16),
    ];
    for (layout, color) in layouts {
        let bytes = 3 * 2 * layout.bytes_per_pixel() as usize;
        let data: Vec<u8> = (0..bytes).map(|i| (i * 7 % 256) as u8).collect();
        let pixels = PixelBuffer::from_raw(layout, 3, 2, data.clone()).unwrap();
        let file = encode_png_pixels(&pixels).unwrap();
        assert_ne!(file, data);
        let reread = image::load_from_memory(&file).unwrap();
        assert_eq!(reread.color(), color);
        assert_eq!((reread.width(), reread.height()), (3, 2));
        assert_eq!(reread.as_bytes(), data.as_slice());
    }
}

#[test]
fn png_encoding_refuses_floating_point_layouts() {
    for layout in [PixelLayout::Rgb32F, PixelLayout::Rgba32F] {
        let bytes = 2 * 2 * layout.bytes_per_pixel() as usize;
        let pixels = PixelBuffer::from_raw(layout, 2, 2, vec![0; bytes]).unwrap();
        let message = encode_png_pixels(&pixels).unwrap_err();
        assert!(!message.is_empty());
    }
}

#[test]
fn png_encoding_drops_bytes_beyond_the_size() {
    let mut data: Vec<u8> = (0..12).collect();
    let exact = PixelBuffer::from_raw(PixelLayout::Rgb8, 2, 2, data.clone()).unwrap();
    data.extend_from_slice(&[9, 9, 9, 9, 9]);
    let longer = PixelBuffer::from_raw(PixelLayout::Rgb8, 2, 2, data).unwrap();
    assert_eq!(encode_png_pixels(&longer).unwrap(), encode_png_pixels(&exact).unwrap());
}
