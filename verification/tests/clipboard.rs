use equation_exporter::export::{clipboard_error, svg_clipboard_format};
use equation_exporter::error::AppError;
use equation_exporter::linux_clipboard::{
    file_copy_targets, file_uri, file_uri_outcome, gnome_copy_payload, uri_list_payload,
};

#[test]
fn selects_the_native_svg_clipboard_format() {
    assert_eq!(svg_clipboard_format(true), "public.svg-image");
    assert_eq!(svg_clipboard_format(false), "image/svg+xml");
}

#[test]
fn encodes_an_absolute_path_as_a_file_uri() {
    assert_eq!(
        file_uri("/tmp/equation with spaces.pdf").unwrap(),
        "file:///tmp/equation%20with%20spaces.pdf"
    );
}

#[test]
fn rejects_a_relative_clipboard_path() {
    assert_eq!(
        file_uri("equation.pdf").unwrap_err(),
        "剪贴板文件路径必须是绝对路径"
    );
}

#[test]
fn creates_the_gnome_file_copy_payload() {
    assert_eq!(
        gnome_copy_payload("file:///tmp/equation.pdf"),
        b"copy\nfile:///tmp/equation.pdf"
    );
}

#[test]
fn creates_the_uri_list_payload() {
    assert_eq!(
        uri_list_payload("file:///tmp/equation.pdf"),
        b"file:///tmp/equation.pdf\r\n"
    );
}

#[test]
fn file_copy_targets_include_standard_and_gnome_file_targets() {
    assert_eq!(
        file_copy_targets(),
        ["text/uri-list", "x-special/gnome-copied-files"]
    );
}

#[test]
fn svg_file_copy_uses_the_same_targets_as_pdf_file_copy() {
    assert_eq!(
        file_copy_targets(),
        ["text/uri-list", "x-special/gnome-copied-files"]
    );
}

#[test]
fn a_clipboard_failure_keeps_its_detail() {
    let error = clipboard_error("no display");
    assert!(matches!(
        &error,
        AppError::ClipboardFailed { message, detail: Some(detail) }
            if message == "无法写入剪贴板" && detail == "no display"
    ));
    assert_eq!(error.message(), "无法写入剪贴板");
}

#[test]
fn file_uri_answers_follow_the_path_checks() {
    assert_eq!(file_uri_outcome(false, Some("file:///x".to_string())).unwrap_err(), "剪贴板文件路径必须是绝对路径");
    assert_eq!(file_uri_outcome(true, None).unwrap_err(), "无法生成文件 URI");
    assert_eq!(file_uri_outcome(true, Some("file:///x".to_string())).unwrap(), "file:///x");
}
