//! What goes on the Linux clipboard when a rendered file is copied: the file's
//! URI under the standard and the GNOME file-copy targets.
use vstd::prelude::*;
use vstd::string::StringSliceAdditionalSpecFns;
use std::path::Path;
use url::Url;

verus! {

pub const URI_LIST_MIME: &'static str = "text/uri-list";

pub const GNOME_COPY_MIME: &'static str = "x-special/gnome-copied-files";

/// The answer for a relative path.
pub const RELATIVE_PATH_ERROR: &'static str = "剪贴板文件路径必须是绝对路径";

/// The answer when no URI can be made of the path.
pub const NO_FILE_URI_ERROR: &'static str = "无法生成文件 URI";

/// `Path::is_absolute` for the path. What counts as absolute depends on the
/// platform, so nothing is stated.
#[verifier::external_body]
fn path_is_absolute(path: &str) -> bool {
    Path::new(path).is_absolute()
}

/// `Url::from_file_path` serialized as a string. On success the URL is built
/// on `file://`, as the url crate's source shows; the encoding of the path
/// depends on the platform and is not stated.
#[verifier::external_body]
fn file_url(path: &str) -> (r: Option<String>)
    ensures
        r matches Some(uri) ==> uri@.len() >= 7 && uri@.take(7) == "file://"@,
{
    match Url::from_file_path(Path::new(path)) {
        Ok(url) => Some(String::from(url)),
        Err(()) => None,
    }
}

/// The answer for a path, given whether it is absolute and the URL that the
/// url crate made of it: an error for a relative path, an error when no URL
/// could be made, and otherwise the URL.
pub fn file_uri_outcome(absolute: bool, url: Option<String>) -> (r: Result<String, String>)
    ensures
        !absolute ==> (r matches Err(message) && message@ == RELATIVE_PATH_ERROR@),
        absolute && url is None ==> (r matches Err(message) && message@ == NO_FILE_URI_ERROR@),
        absolute && url is Some ==> (r matches Ok(uri) && uri@ == url->0@),
{
    if !absolute {
        return Err(String::from_str(RELATIVE_PATH_ERROR));
    }
    match url {
        Some(uri) => Ok(uri),
        None => Err(String::from_str(NO_FILE_URI_ERROR)),
    }
}

/// The `file://` URI of an absolute path; an error for a relative path or a
/// path that makes no URI.
pub fn file_uri(path: &str) -> (r: Result<String, String>)
    ensures
        match r {
            Ok(uri) => uri@.len() >= 7 && uri@.take(7) == "file://"@,
            Err(message) => message@ == RELATIVE_PATH_ERROR@ || message@ == NO_FILE_URI_ERROR@,
        },
{
    if !path_is_absolute(path) {
        return file_uri_outcome(false, None);
    }
    file_uri_outcome(true, file_url(path))
}

/// The UTF-8 bytes of a text.
fn utf8_bytes(text: &str) -> (bytes: Vec<u8>)
    ensures
        bytes@ == text.spec_bytes(),
{
    text.as_bytes_vec()
}

/// The GNOME file-copy payload: `copy`, a line feed and the URI.
pub fn gnome_copy_payload(uri: &str) -> (payload: Vec<u8>)
    ensures
        payload@ == vstd::utf8::encode_utf8("copy\n"@ + uri@),
{
    let mut text = String::from_str("copy\n");
    text.append(uri);
    utf8_bytes(text.as_str())
}

/// The `text/uri-list` payload: the URI and a CRLF line end.
pub fn uri_list_payload(uri: &str) -> (payload: Vec<u8>)
    ensures
        payload@ == vstd::utf8::encode_utf8(uri@ + "\r\n"@),
{
    let mut text = String::from_str(uri);
    text.append("\r\n");
    utf8_bytes(text.as_str())
}

/// The clipboard targets of a copied file: the standard URI list first, then
/// GNOME's file copy. PDF and SVG files use the same targets.
pub fn file_copy_targets() -> (targets: [&'static str; 2])
    ensures
        targets[0]@ == URI_LIST_MIME@,
        targets[1]@ == GNOME_COPY_MIME@,
{
    [URI_LIST_MIME, GNOME_COPY_MIME]
}

} // verus!
