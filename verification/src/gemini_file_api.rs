//! Uploads to the Gemini file API: the resumable upload is started with the
//! file's name, size and type, and the bytes are then sent to the URL that the
//! service hands back.
use vstd::prelude::*;
use crate::json::{object1, Json, JsonV};
use crate::text::{copy_text, decimal, push_decimal, push_text};

verus! {

/// A file stored by the Gemini file API.
#[derive(Debug, PartialEq, Eq)]
pub struct GeminiFile {
    pub uri: String,
}

/// The header of the start response that holds the upload URL.
pub const UPLOAD_URL_HEADER: &'static str = "X-Goog-Upload-URL";

/// The error when the start response holds no upload URL.
pub const MISSING_UPLOAD_URL: &'static str = "Missing upload URL";

/// The endpoint that starts a resumable upload, for the key `api_key`.
pub open spec fn upload_start_url_text(api_key: Seq<char>) -> Seq<char> {
    "https://generativelanguage.googleapis.com/upload/v1beta/files?uploadType=resumable&key="@
        + api_key
}

/// The view of a list of header names and values.
pub open spec fn headers_view(h: Seq<(String, String)>) -> Seq<(Seq<char>, Seq<char>)> {
    h.map_values(|p: (String, String)| (p.0@, p.1@))
}

/// The endpoint that starts a resumable upload.
pub fn upload_start_url(api_key: &str) -> (r: String)
    ensures
        r@ == upload_start_url_text(api_key@),
{
    let mut s = copy_text(
        "https://generativelanguage.googleapis.com/upload/v1beta/files?uploadType=resumable&key=",
    );
    push_text(&mut s, api_key);
    s
}

/// The body that starts the upload: `{"file": {"display_name": file_path}}`.
pub fn upload_start_payload(file_path: &str) -> (r: Json)
    ensures
        r@ == JsonV::Object(
            seq![("file"@, JsonV::Object(seq![("display_name"@, JsonV::Str(file_path@))]))],
        ),
{
    object1("file", object1("display_name", Json::text(file_path)))
}

fn header(name: &str, value: &str) -> (r: (String, String))
    ensures
        r.0@ == name@,
        r.1@ == value@,
{
    (copy_text(name), copy_text(value))
}

/// The headers that start the upload of `content_length` bytes of type `mime_type`.
pub fn upload_start_headers(content_length: u64, mime_type: &str) -> (r: Vec<(String, String)>)
    ensures
        headers_view(r@) == seq![
            ("X-Goog-Upload-Protocol"@, "resumable"@),
            ("X-Goog-Upload-Command"@, "start"@),
            ("X-Goog-Upload-Header-Content-Length"@, decimal(content_length as nat)),
            ("X-Goog-Upload-Header-Content-Type"@, mime_type@),
            ("Content-Type"@, "application/json"@),
        ],
{
    let mut length = String::new();
    push_decimal(&mut length, content_length);
    let r = vec![
        header("X-Goog-Upload-Protocol", "resumable"),
        header("X-Goog-Upload-Command", "start"),
        header("X-Goog-Upload-Header-Content-Length", length.as_str()),
        header("X-Goog-Upload-Header-Content-Type", mime_type),
        header("Content-Type", "application/json"),
    ];
    assert(headers_view(r@) =~= seq![
        ("X-Goog-Upload-Protocol"@, "resumable"@),
        ("X-Goog-Upload-Command"@, "start"@),
        ("X-Goog-Upload-Header-Content-Length"@, decimal(content_length as nat)),
        ("X-Goog-Upload-Header-Content-Type"@, mime_type@),
        ("Content-Type"@, "application/json"@),
    ]);
    r
}

/// The headers that send `length` bytes and finish the upload.
pub fn upload_bytes_headers(length: usize) -> (r: Vec<(String, String)>)
    ensures
        headers_view(r@) == seq![
            ("Content-Length"@, decimal(length as nat)),
            ("X-Goog-Upload-Offset"@, "0"@),
            ("X-Goog-Upload-Command"@, "upload, finalize"@),
        ],
{
    let mut len_text = String::new();
    push_decimal(&mut len_text, length as u64);
    let r = vec![
        header("Content-Length", len_text.as_str()),
        header("X-Goog-Upload-Offset", "0"),
        header("X-Goog-Upload-Command", "upload, finalize"),
    ];
    assert(headers_view(r@) =~= seq![
        ("Content-Length"@, decimal(length as nat)),
        ("X-Goog-Upload-Offset"@, "0"@),
        ("X-Goog-Upload-Command"@, "upload, finalize"@),
    ]);
    r
}

} // verus!
