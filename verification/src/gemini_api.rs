//! The shapes of Gemini `generateContent` exchanges: the endpoint of a model,
//! a text-only request, the text of the first candidate of a reply, and the
//! `{"error": ...}` value that nodes hand on when a step fails.
use vstd::prelude::*;
use crate::json::{
    array1, object1, opt_at, opt_field, opt_str, Json, JsonV,
};
use crate::text::{copy_text, push_text};

verus! {

/// The model that writes the weekly digest.
pub const DIGEST_MODEL: &'static str = "gemini-1.5-pro";

/// The model that classifies incoming messages.
pub const CLASSIFIER_MODEL: &'static str = "gemini-1.5-flash";

/// The model that answers questions about the vault.
pub const ANSWER_MODEL: &'static str = "gemini-3.1-flash-lite-preview";

/// The `generateContent` endpoint of `model`, with the API key as query parameter.
pub open spec fn gemini_url(model: Seq<char>, api_key: Seq<char>) -> Seq<char> {
    "https://generativelanguage.googleapis.com/v1beta/models/"@ + model + ":generateContent?key="@
        + api_key
}

/// `{"text": t}`
pub open spec fn text_part(t: Seq<char>) -> JsonV {
    JsonV::Object(seq![("text"@, JsonV::Str(t))])
}

/// `{"contents": [{"parts": parts}]}`
pub open spec fn contents_of(parts: JsonV) -> JsonV {
    JsonV::Object(
        seq![("contents"@, JsonV::Array(seq![JsonV::Object(seq![("parts"@, parts)])]))],
    )
}

/// A request whose only content is the text `prompt`.
pub open spec fn text_request_view(prompt: Seq<char>) -> JsonV {
    contents_of(JsonV::Array(seq![text_part(prompt)]))
}

/// `candidates[0].content.parts[0].text` of a reply, when that is a string.
pub open spec fn candidate_text(body: JsonV) -> Option<Seq<char>> {
    opt_str(
        opt_field(
            opt_at(
                opt_field(opt_field(opt_at(opt_field(Some(body), "candidates"@), 0), "content"@), "parts"@),
                0,
            ),
            "text"@,
        ),
    )
}

/// `{"error": message}`
pub open spec fn error_view(message: Seq<char>) -> JsonV {
    JsonV::Object(seq![("error"@, JsonV::Str(message))])
}

/// The `generateContent` endpoint of `model` for the key `api_key`.
pub fn generate_content_url(model: &str, api_key: &str) -> (r: String)
    ensures
        r@ == gemini_url(model@, api_key@),
{
    let mut s = copy_text("https://generativelanguage.googleapis.com/v1beta/models/");
    push_text(&mut s, model);
    push_text(&mut s, ":generateContent?key=");
    push_text(&mut s, api_key);
    s
}

/// `{"text": t}`
pub fn text_part_of(t: &str) -> (r: Json)
    ensures
        r@ == text_part(t@),
{
    object1("text", Json::text(t))
}

/// `{"contents": [{"parts": parts}]}`
pub fn contents_with(parts: Json) -> (r: Json)
    ensures
        r@ == contents_of(parts@),
{
    object1("contents", array1(object1("parts", parts)))
}

/// A request whose only content is the text `prompt`.
pub fn text_request(prompt: &str) -> (r: Json)
    ensures
        r@ == text_request_view(prompt@),
{
    contents_with(array1(text_part_of(prompt)))
}

/// The text of the first part of the first candidate of a reply.
pub fn first_candidate_text(body: &Json) -> (r: Option<String>)
    ensures
        match r {
            Some(t) => candidate_text(body@) == Some(t@),
            None => candidate_text(body@) is None,
        },
{
    let candidates = match body.field("candidates") {
        Some(c) => c,
        None => return None,
    };
    let first = match candidates.at(0) {
        Some(c) => c,
        None => return None,
    };
    let content = match first.field("content") {
        Some(c) => c,
        None => return None,
    };
    let parts = match content.field("parts") {
        Some(p) => p,
        None => return None,
    };
    let part = match parts.at(0) {
        Some(p) => p,
        None => return None,
    };
    let text = match part.field("text") {
        Some(t) => t,
        None => return None,
    };
    match text.as_str() {
        Some(t) => Some(copy_text(t)),
        None => None,
    }
}

/// `{"error": message}`
pub fn error_value(message: &str) -> (r: Json)
    ensures
        r@ == error_view(message@),
{
    object1("error", Json::text(message))
}

} // verus!
