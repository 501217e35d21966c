//! The ingestion node: it asks Gemini to classify a message (and an attached
//! media file, sent inline as base64), and leaves the classification, or an
//! `{"error": ...}` value, in its state under `result`.
use vstd::prelude::*;
use crate::gemini_api::{
    candidate_text, error_value, error_view, first_candidate_text, gemini_url,
    generate_content_url, text_part, text_part_of, CLASSIFIER_MODEL,
};
use crate::gemini_client::str_or_empty;
use crate::json::{
    array, items_view, object1, object2, opt_at, opt_field, opt_str, Json, JsonV,
};
use crate::text::{copy_text, ends_with, has_suffix, push_text};

verus! {

/// The ingestion node.
pub struct GeminiIngestionNode;

/// How the request of the ingestion node went.
pub enum IngestionOutcome {
    /// No API key is configured.
    MissingKey,
    /// The request could not be sent; the text describes the error.
    SendError(String),
    /// The answer could not be read as JSON; the text describes the error.
    BodyError(String),
    /// The generated text is a classification; here it is as a JSON value.
    Parsed(Json),
    /// The generated text is no classification; the text describes why.
    SchemaError(String),
}

/// The character that stands for the six-bit value `v` in standard base64.
pub open spec fn b64_char(v: int) -> char {
    if v < 26 {
        (65 + v) as char
    } else if v < 52 {
        (97 + (v - 26)) as char
    } else if v < 62 {
        (48 + (v - 52)) as char
    } else if v == 62 {
        '+'
    } else {
        '/'
    }
}

/// Standard base64 (RFC 4648 alphabet, `=` padding) of `b`.
pub open spec fn base64_standard(b: Seq<u8>) -> Seq<char>
    decreases b.len(),
{
    if b.len() == 0 {
        Seq::empty()
    } else if b.len() == 1 {
        let b0 = b[0] as int;
        seq![b64_char(b0 / 4), b64_char((b0 % 4) * 16), '=', '=']
    } else if b.len() == 2 {
        let b0 = b[0] as int;
        let b1 = b[1] as int;
        seq![b64_char(b0 / 4), b64_char((b0 % 4) * 16 + b1 / 16), b64_char((b1 % 16) * 4), '=']
    } else {
        let b0 = b[0] as int;
        let b1 = b[1] as int;
        let b2 = b[2] as int;
        seq![
            b64_char(b0 / 4),
            b64_char((b0 % 4) * 16 + b1 / 16),
            b64_char((b1 % 16) * 4 + b2 / 64),
            b64_char(b2 % 64),
        ] + base64_standard(b.skip(3))
    }
}

/// base64's `STANDARD.encode` (the `Engine` trait): standard alphabet with
/// padding, as the crate's alphabet and padding configuration define it. The
/// buffer size computation panics only for inputs close to `usize::MAX`, which
/// the bound rules out.
#[verifier::external_body]
fn base64_encode(bytes: &[u8]) -> (r: String)
    requires
        bytes@.len() < usize::MAX / 2,
    ensures
        r@ == base64_standard(bytes@),
{
    base64::Engine::encode(&base64::engine::general_purpose::STANDARD, bytes)
}

/// The instruction and text sent for classification.
pub open spec fn ingestion_prompt_text(input_text: Seq<char>) -> Seq<char> {
    "Classify the following text into one of these intents: Note, Draft, Event, Disambiguate. Return JSON strictly matching this schema: { 'intent': '...', 'target_folder': '...', 'entities_found': [...], 'formatted_content': '...' }. Text: "@
        + input_text
}

/// The media type of a file, by its extension.
pub open spec fn mime_for(path: Seq<char>) -> Seq<char> {
    if has_suffix(path, ".png"@) {
        "image/png"@
    } else if has_suffix(path, ".ogg"@) {
        "audio/ogg"@
    } else if has_suffix(path, ".jpg"@) || has_suffix(path, ".jpeg"@) {
        "image/jpeg"@
    } else {
        "application/octet-stream"@
    }
}

/// `{"inlineData": {"mimeType": mime, "data": data}}`
pub open spec fn inline_part(mime: Seq<char>, data: Seq<char>) -> JsonV {
    JsonV::Object(
        seq![
            (
                "inlineData"@,
                JsonV::Object(seq![("mimeType"@, JsonV::Str(mime)), ("data"@, JsonV::Str(data))]),
            ),
        ],
    )
}

/// The path of the media file named in the node's input, if any.
pub open spec fn media_path_view(input: JsonV) -> Option<Seq<char>> {
    opt_str(input.field("media_path"@))
}

/// The parts of the ingestion request: the prompt with the input text, then the
/// media file inline when one is named and its bytes could be read.
pub open spec fn ingestion_parts_view(input: JsonV, media: Option<Seq<u8>>) -> Seq<JsonV> {
    let prompt = text_part(ingestion_prompt_text(str_or_empty(input.field("input_text"@))));
    match (media_path_view(input), media) {
        (Some(p), Some(b)) => seq![prompt, inline_part(mime_for(p), base64_standard(b))],
        _ => seq![prompt],
    }
}

/// The ingestion request with the given parts.
pub open spec fn ingestion_payload_view(parts: Seq<JsonV>) -> JsonV {
    JsonV::Object(
        seq![
            ("contents"@, JsonV::Array(seq![JsonV::Object(seq![("parts"@, JsonV::Array(parts))])])),
            (
                "generationConfig"@,
                JsonV::Object(seq![("response_mime_type"@, JsonV::Str("application/json"@))]),
            ),
        ],
    )
}

/// The text that is read as a classification: the first candidate's text, or
/// empty text.
pub open spec fn generated_text_view(body: JsonV) -> Seq<char> {
    match candidate_text(body) {
        Some(t) => t,
        None => Seq::empty(),
    }
}

/// The value the ingestion node hands on for an outcome.
pub open spec fn ingestion_result_view(outcome: IngestionOutcome) -> JsonV {
    match outcome {
        IngestionOutcome::MissingKey => error_view("Missing GEMINI_API_KEY"@),
        IngestionOutcome::SendError(e) => error_view(e@),
        IngestionOutcome::BodyError(e) => error_view(e@),
        IngestionOutcome::Parsed(v) => v@,
        IngestionOutcome::SchemaError(e) => error_view("Invalid JSON schema returned: "@ + e@),
    }
}

/// What the ingestion node takes from its parameters: all of them, as an object.
pub fn ingestion_prep(params: &Json) -> (r: Json)
    ensures
        r@ == params@,
{
    params.duplicate()
}

/// The path of the media file named in the node's input, if any.
pub fn media_path(input: &Json) -> (r: Option<String>)
    ensures
        match r {
            Some(p) => media_path_view(input@) == Some(p@),
            None => media_path_view(input@) is None,
        },
{
    match input.field("media_path") {
        Some(v) => match v.as_str() {
            Some(p) => Some(copy_text(p)),
            None => None,
        },
        None => None,
    }
}

/// The media type of a file, by its extension.
pub fn mime_type_for(path: &str) -> (r: &'static str)
    ensures
        r@ == mime_for(path@),
{
    if ends_with(path, ".png") {
        "image/png"
    } else if ends_with(path, ".ogg") {
        "audio/ogg"
    } else if ends_with(path, ".jpg") || ends_with(path, ".jpeg") {
        "image/jpeg"
    } else {
        "application/octet-stream"
    }
}

/// The inline part for the bytes of the media file at `path`.
pub fn inline_media_part(path: &str, bytes: &[u8]) -> (r: Json)
    requires
        bytes@.len() < usize::MAX / 2,
    ensures
        r@ == inline_part(mime_for(path@), base64_standard(bytes@)),
{
    let data = base64_encode(bytes);
    object1(
        "inlineData",
        object2("mimeType", Json::text(mime_type_for(path)), "data", Json::Str(data)),
    )
}

/// The parts of the ingestion request for the node's input and the bytes read
/// from the media file it names (`None` when none is named or it could not be
/// read).
pub fn ingestion_parts(input: &Json, media: Option<&[u8]>) -> (r: Vec<Json>)
    requires
        media matches Some(b) ==> b@.len() < usize::MAX / 2,
    ensures
        items_view(r@) == ingestion_parts_view(
            input@,
            match media {
                Some(b) => Some(b@),
                None => None,
            },
        ),
{
    let text = match input.field("input_text") {
        Some(v) => match v.as_str() {
            Some(t) => copy_text(t),
            None => String::new(),
        },
        None => String::new(),
    };
    let mut prompt = copy_text(
        "Classify the following text into one of these intents: Note, Draft, Event, Disambiguate. Return JSON strictly matching this schema: { 'intent': '...', 'target_folder': '...', 'entities_found': [...], 'formatted_content': '...' }. Text: ",
    );
    push_text(&mut prompt, text.as_str());
    let mut parts: Vec<Json> = Vec::new();
    parts.push(text_part_of(prompt.as_str()));
    let ghost first = parts@;
    assert(items_view(parts@) =~= seq![text_part(prompt@)]) by {
        crate::json::lemma_items_view(parts@);
    }
    match (media_path(input), media) {
        (Some(p), Some(b)) => {
            parts.push(inline_media_part(p.as_str(), b));
            assert(parts@.drop_last() =~= first);
            assert(items_view(parts@) =~= items_view(first).push(parts@.last()@));
        },
        _ => {},
    }
    parts
}

/// The endpoint and body of the ingestion request.
pub fn ingestion_request(api_key: &str, parts: Vec<Json>) -> (r: (String, Json))
    ensures
        r.0@ == gemini_url(CLASSIFIER_MODEL@, api_key@),
        r.1@ == ingestion_payload_view(items_view(parts@)),
{
    let url = generate_content_url(CLASSIFIER_MODEL, api_key);
    let contents = crate::json::array1(object1("parts", array(parts)));
    let config = object1("response_mime_type", Json::text("application/json"));
    (url, object2("contents", contents, "generationConfig", config))
}

/// The text of a reply that is read as a classification.
pub fn generated_text(body: &Json) -> (r: String)
    ensures
        r@ == generated_text_view(body@),
{
    match first_candidate_text(body) {
        Some(t) => t,
        None => String::new(),
    }
}

/// The value the ingestion node hands on for an outcome.
pub fn ingestion_result(outcome: IngestionOutcome) -> (r: Json)
    ensures
        r@ == ingestion_result_view(outcome),
{
    match outcome {
        IngestionOutcome::MissingKey => error_value("Missing GEMINI_API_KEY"),
        IngestionOutcome::SendError(e) => error_value(e.as_str()),
        IngestionOutcome::BodyError(e) => error_value(e.as_str()),
        IngestionOutcome::Parsed(v) => v,
        IngestionOutcome::SchemaError(e) => {
            let mut m = copy_text("Invalid JSON schema returned: ");
            push_text(&mut m, e.as_str());
            error_value(m.as_str())
        },
    }
}

/// Stores the node's result in its state under `result`.
pub fn ingestion_post(state: &mut Json, result: Json)
    ensures
        final(state)@ == old(state)@.with_field("result"@, result@),
{
    state.set_field("result", result);
}

/// The ingestion request sends every part it is given, all of them and in
/// order: the body's `contents[0].parts` is exactly that list.
pub proof fn lemma_ingestion_request_sends_every_part(parts: Seq<JsonV>)
    ensures
        opt_field(opt_at(ingestion_payload_view(parts).field("contents"@), 0), "parts"@) == Some(
            JsonV::Array(parts),
        ),
{
    reveal_strlit("contents");
    reveal_strlit("generationConfig");
    assert("contents"@.len() != "generationConfig"@.len());
    let entries = seq![
        ("contents"@, JsonV::Array(seq![JsonV::Object(seq![("parts"@, JsonV::Array(parts))])])),
        (
            "generationConfig"@,
            JsonV::Object(seq![("response_mime_type"@, JsonV::Str("application/json"@))]),
        ),
    ];
    assert(entries.drop_last() =~= seq![entries[0]]);
    assert(seq![entries[0]].drop_last() =~= Seq::<(Seq<char>, JsonV)>::empty());
    let inner = seq![("parts"@, JsonV::Array(parts))];
    assert(inner.drop_last() =~= Seq::<(Seq<char>, JsonV)>::empty());
    assert(entries.last().0 != "contents"@);
    assert(crate::json::lookup(entries, "contents"@) == crate::json::lookup(
        entries.drop_last(),
        "contents"@,
    ));
    assert(crate::json::lookup(seq![entries[0]], "contents"@) == Some(entries[0].1));
    assert(ingestion_payload_view(parts) == JsonV::Object(entries));
    assert(ingestion_payload_view(parts).field("contents"@) == Some(entries[0].1));
    assert(crate::json::lookup(inner, "parts"@) == Some(JsonV::Array(parts)));
    assert(JsonV::Object(inner).field("parts"@) == Some(JsonV::Array(parts)));
}

/// A message whose attachment could be read reaches Gemini with it: the
/// request sends two parts, the prompt with the message text and then the
/// attachment inline, as base64 of its bytes with the media type of its path.
pub proof fn lemma_attachment_reaches_request(input: JsonV, bytes: Seq<u8>)
    requires
        media_path_view(input) is Some,
    ensures
        opt_field(
            opt_at(
                ingestion_payload_view(ingestion_parts_view(input, Some(bytes))).field("contents"@),
                0,
            ),
            "parts"@,
        ) == Some(
            JsonV::Array(
                seq![
                    text_part(ingestion_prompt_text(str_or_empty(input.field("input_text"@)))),
                    inline_part(mime_for(media_path_view(input)->0), base64_standard(bytes)),
                ],
            ),
        ),
{
    lemma_ingestion_request_sends_every_part(ingestion_parts_view(input, Some(bytes)));
}

} // verus!
