//! Saving and copying rendered formulas: the clipboard format and errors.
use vstd::prelude::*;
use crate::error::{AppError, AppErrorView};

verus! {

/// The clipboard type of SVG data on macOS.
pub const MACOS_SVG_FORMAT: &'static str = "public.svg-image";

/// The clipboard type of SVG data elsewhere.
pub const SVG_MIME: &'static str = "image/svg+xml";

/// The clipboard type under which SVG data is offered, by platform.
pub fn svg_clipboard_format(on_macos: bool) -> (format: &'static str)
    ensures
        format@ == if on_macos {
            MACOS_SVG_FORMAT@
        } else {
            SVG_MIME@
        },
{
    if on_macos {
        MACOS_SVG_FORMAT
    } else {
        SVG_MIME
    }
}

/// The message of a clipboard failure.
pub const CLIPBOARD_FAILED: &'static str = "无法写入剪贴板";

/// The error for a clipboard that could not be written, with the clipboard's
/// own description of the failure.
pub fn clipboard_error(detail: &str) -> (error: AppError)
    ensures
        error@ == (AppErrorView::ClipboardFailed {
            message: CLIPBOARD_FAILED@,
            detail: Some(detail@),
        }),
{
    AppError::ClipboardFailed {
        message: String::from_str(CLIPBOARD_FAILED),
        detail: Some(String::from_str(detail)),
    }
}

} // verus!
