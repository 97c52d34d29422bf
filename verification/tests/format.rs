use image_converter::format::{detect_format, FormatError, OutputFormat};

#[test]
fn jpg_and_jpeg_name_jpeg() {
    assert_eq!(detect_format("photo.jpg"), Ok(OutputFormat::Jpeg));
    assert_eq!(detect_format("photo.jpeg"), Ok(OutputFormat::Jpeg));
}

#[test]
fn png_names_png() {
    assert_eq!(detect_format("photo.png"), Ok(OutputFormat::Png));
}

#[test]
fn webp_names_webp() {
    assert_eq!(detect_format("photo.webp"), Ok(OutputFormat::Webp));
}

#[test]
fn extension_case_does_not_matter() {
    assert_eq!(detect_format("output.JPG"), Ok(OutputFormat::Jpeg));
    assert_eq!(detect_format("output.jpg"), Ok(OutputFormat::Jpeg));
    assert_eq!(detect_format("output.Jpg"), Ok(OutputFormat::Jpeg));
    assert_eq!(detect_format("output.JpEg"), Ok(OutputFormat::Jpeg));
    assert_eq!(detect_format("output.PNG"), Ok(OutputFormat::Png));
    assert_eq!(detect_format("output.WebP"), Ok(OutputFormat::Webp));
}

#[test]
fn only_ascii_letters_are_lower_cased() {
    // U+212A KELVIN SIGN lower-cases to `k` in Unicode, not in ASCII.
    assert_eq!(detect_format("a.\u{212A}pg"), Err(FormatError::UnsupportedFormat));
    assert_eq!(detect_format("a.pn\u{121}"), Err(FormatError::UnsupportedFormat));
}

#[test]
fn path_without_dot_has_no_extension() {
    assert_eq!(detect_format("outfile"), Err(FormatError::MissingExtension));
    assert_eq!(detect_format(""), Err(FormatError::MissingExtension));
    assert_eq!(detect_format("dir/outfile"), Err(FormatError::MissingExtension));
    assert_eq!(detect_format("png"), Err(FormatError::MissingExtension));
}

#[test]
fn other_extensions_are_unsupported() {
    assert_eq!(detect_format("out.gif"), Err(FormatError::UnsupportedFormat));
    assert_eq!(detect_format("out.bmp"), Err(FormatError::UnsupportedFormat));
    assert_eq!(detect_format("out.jpe"), Err(FormatError::UnsupportedFormat));
    assert_eq!(detect_format("out.pngx"), Err(FormatError::UnsupportedFormat));
    assert_eq!(detect_format("out.xpng"), Err(FormatError::UnsupportedFormat));
    assert_eq!(detect_format("out.jpegs"), Err(FormatError::UnsupportedFormat));
}

#[test]
fn empty_extension_is_unsupported() {
    assert_eq!(detect_format("out."), Err(FormatError::UnsupportedFormat));
    assert_eq!(detect_format("."), Err(FormatError::UnsupportedFormat));
}

#[test]
fn only_the_text_after_the_last_dot_counts() {
    assert_eq!(detect_format("archive.tar.png"), Ok(OutputFormat::Png));
    assert_eq!(detect_format("photo.png.gif"), Err(FormatError::UnsupportedFormat));
    assert_eq!(detect_format(".png"), Ok(OutputFormat::Png));
    assert_eq!(detect_format("a..webp"), Ok(OutputFormat::Webp));
    assert_eq!(detect_format("dir.v2/outfile"), Err(FormatError::UnsupportedFormat));
    assert_eq!(detect_format("dir.png/outfile"), Err(FormatError::UnsupportedFormat));
}

#[test]
fn format_error_messages() {
    assert_eq!(
        FormatError::MissingExtension.message(),
        "Formato de saida nao reconhecido (sem extensao)."
    );
    assert_eq!(
        FormatError::UnsupportedFormat.message(),
        "Formato de saida nao suportado. Use JPEG, PNG ou WebP."
    );
}

#[test]
fn unsupported_message_names_the_three_formats() {
    let text = FormatError::UnsupportedFormat.message();
    assert!(text.contains("JPEG"));
    assert!(text.contains("PNG"));
    assert!(text.contains("WebP"));
    assert_ne!(text, FormatError::MissingExtension.message());
}
