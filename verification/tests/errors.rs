use equation_exporter::error::{AppError, StartFailure};
use std::io;

fn start_failure(kind: io::ErrorKind) -> StartFailure {
    let error = io::Error::from(kind);
    StartFailure {
        not_found: error.kind() == io::ErrorKind::NotFound,
        message: error.to_string(),
    }
}

#[test]
fn only_a_not_found_start_error_is_a_missing_dependency() {
    assert!(matches!(
        AppError::from_start_error(
            "pdflatex",
            "编译 LaTeX 公式",
            start_failure(io::ErrorKind::NotFound)
        ),
        AppError::MissingDependency { command, .. } if command == "pdflatex"
    ));
    assert!(matches!(
        AppError::from_start_error(
            "pdflatex",
            "编译 LaTeX 公式",
            start_failure(io::ErrorKind::PermissionDenied)
        ),
        AppError::IoError { .. }
    ));
}

#[test]
fn a_nonzero_process_result_stays_a_process_failure() {
    assert!(matches!(
        AppError::process_failed(
            "pdflatex",
            Some(1),
            "LaTeX 编译失败",
            "! LaTeX Error: File `x.sty' not found."
        ),
        AppError::ProcessFailed { command, exit_code: Some(1), .. } if command == "pdflatex"
    ));
}

#[test]
fn a_start_failure_other_than_not_found_names_the_command() {
    let error = AppError::from_start_error(
        "typst",
        "编译 Typst 公式",
        StartFailure { not_found: false, message: "permission denied".to_string() },
    );
    assert!(matches!(
        &error,
        AppError::IoError { operation, message }
            if operation == "启动 typst" && message == "permission denied"
    ));
    assert_eq!(error.message(), "启动 typst失败：permission denied");
}

#[test]
fn messages_shown_to_the_user() {
    let missing = AppError::from_start_error(
        "pdf2svg",
        "将 PDF 公式转换为 SVG",
        StartFailure { not_found: true, message: String::new() },
    );
    assert_eq!(missing.message(), "未找到 pdf2svg（将 PDF 公式转换为 SVG）");
    let failed = AppError::process_failed("typst", Some(2), "Typst 编译失败", "error: x");
    assert_eq!(failed.message(), "Typst 编译失败");
    let io = AppError::io("写入 Typst 源文件", "disk full");
    assert_eq!(io.message(), "写入 Typst 源文件失败：disk full");
    let invalid = AppError::InvalidInput { message: "bad".to_string() };
    assert_eq!(invalid.message(), "bad");
}
