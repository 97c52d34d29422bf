use image_converter::log::{log_line, log_stream, LogStream};

#[test]
fn line_without_data() {
    assert_eq!(log_line("ui", "started", None), "[frontend:ui] started");
}

#[test]
fn line_with_data() {
    assert_eq!(
        log_line("convert", "done", Some("{\"ms\":12}".to_string())),
        "[frontend:convert] done | {\"ms\":12}"
    );
}

#[test]
fn line_with_empty_data_has_no_separator() {
    assert_eq!(log_line("ui", "started", Some(String::new())), "[frontend:ui] started");
}

#[test]
fn line_with_empty_scope_and_message() {
    assert_eq!(log_line("", "", None), "[frontend:] ");
    assert_eq!(log_line("", "", Some("x".to_string())), "[frontend:]  | x");
}

#[test]
fn line_keeps_non_ascii_text() {
    assert_eq!(
        log_line("convers\u{e3}o", "conclu\u{ed}da", Some("\u{2713}".to_string())),
        "[frontend:convers\u{e3}o] conclu\u{ed}da | \u{2713}"
    );
}

#[test]
fn error_goes_to_the_error_stream_in_any_case() {
    assert_eq!(log_stream("error"), LogStream::Error);
    assert_eq!(log_stream("ERROR"), LogStream::Error);
    assert_eq!(log_stream("Error"), LogStream::Error);
    assert_eq!(log_stream("eRRoR"), LogStream::Error);
}

#[test]
fn other_levels_go_to_the_standard_stream() {
    assert_eq!(log_stream("info"), LogStream::Standard);
    assert_eq!(log_stream("warn"), LogStream::Standard);
    assert_eq!(log_stream("debug"), LogStream::Standard);
    assert_eq!(log_stream(""), LogStream::Standard);
    assert_eq!(log_stream("errors"), LogStream::Standard);
    assert_eq!(log_stream("erro"), LogStream::Standard);
    assert_eq!(log_stream(" error"), LogStream::Standard);
    assert_eq!(log_stream("fatal"), LogStream::Standard);
}
