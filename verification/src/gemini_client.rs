//! The classifier node: it takes a message and its uploaded media from the
//! shared state of a flow, asks Gemini for a classification in a fixed JSON
//! schema, and leaves the answer (or an `{"error": ...}` value) in the shared
//! state under `classification`.
use vstd::prelude::*;
use crate::gemini_api::{
    error_value, error_view, gemini_url, generate_content_url, text_part, text_part_of,
    CLASSIFIER_MODEL,
};
use crate::json::{
    array, array1, items_view, lemma_items_view, object1, object2, object3, object4,
    opt_at, opt_field, opt_str, Json, JsonV,
};
use crate::text::{copy_text, push_text};

verus! {

/// What a message asks for, as the classifier is told to answer.
#[derive(PartialEq, Eq, Structural, Clone, Copy, Debug)]
pub enum IntentEnum {
    Note,
    Draft,
    Event,
    Disambiguate,
}

/// How the classifier classified a message.
pub struct UrielClassification {
    pub intent: IntentEnum,
    pub target_folder: String,
    pub entities_found: Vec<String>,
    pub formatted_content: String,
}

/// The classifier node; it calls Gemini with `api_key`.
pub struct GeminiClassifierNode {
    pub api_key: String,
}

/// A reply of `generateContent`, as far as the classifier reads it.
pub struct GeminiResponse {
    pub candidates: Option<Vec<Candidate>>,
}

/// One candidate answer.
pub struct Candidate {
    pub content: Content,
}

/// The content of a candidate.
pub struct Content {
    pub parts: Vec<Part>,
}

/// One part of a content.
pub struct Part {
    pub text: String,
}

/// How the request of the classifier went.
pub enum ClassifierOutcome {
    /// The request could not be sent; the text describes the error.
    NetworkError(String),
    /// The service answered with an error status; the text describes it.
    ApiError(String),
    /// The answer was not a `generateContent` reply.
    UnreadableResponse,
    /// The reply's text read as JSON (`Some`), or did not (`None`).
    Reply(Option<Json>),
}

/// The instruction given to the classifier.
pub open spec fn instruction_text() -> Seq<char> {
    "Analyze the provided message. Classify its intent into one of: Note, Draft, Event, or Disambiguate.
Determine the appropriate target folder (e.g., Log, Projects, etc.).
Extract any named entities (people, projects, concepts) found in the text.
Format the content cleanly as Markdown."@
}

/// The text of a string value, or empty text.
pub open spec fn str_or_empty(v: Option<JsonV>) -> Seq<char> {
    match opt_str(v) {
        Some(s) => s,
        None => Seq::empty(),
    }
}

/// A value, or `null` when there is none.
pub open spec fn or_null(v: Option<JsonV>) -> JsonV {
    match v {
        Some(x) => x,
        None => JsonV::Null,
    }
}

/// What the classifier takes from the shared state: the message text and the
/// media list.
pub open spec fn classifier_prep_view(shared: JsonV) -> JsonV {
    JsonV::Object(
        seq![
            ("content"@, JsonV::Str(str_or_empty(shared.field("content"@)))),
            ("media_metadata"@, or_null(shared.field("media_metadata"@))),
        ],
    )
}

/// `{"fileData": {"fileUri": uri, "mimeType": mime}}`
pub open spec fn file_data_part(uri: Seq<char>, mime: Seq<char>) -> JsonV {
    JsonV::Object(
        seq![
            (
                "fileData"@,
                JsonV::Object(
                    seq![("fileUri"@, JsonV::Str(uri)), ("mimeType"@, JsonV::Str(mime))],
                ),
            ),
        ],
    )
}

/// The part for one media entry, when it has a string `uri` and `mime`.
pub open spec fn media_part_of(m: JsonV) -> Option<JsonV> {
    match (opt_str(m.field("uri"@)), opt_str(m.field("mime"@))) {
        (Some(u), Some(t)) => Some(file_data_part(u, t)),
        _ => None,
    }
}

/// The parts for a list of media entries; entries without a string `uri` or
/// `mime` are skipped.
pub open spec fn media_parts(items: Seq<JsonV>) -> Seq<JsonV>
    decreases items.len(),
{
    if items.len() == 0 {
        Seq::empty()
    } else {
        let rest = media_parts(items.drop_last());
        match media_part_of(items.last()) {
            Some(p) => rest.push(p),
            None => rest,
        }
    }
}

/// The parts of the classification request: one per media entry, then the text.
pub open spec fn classifier_parts_view(input: JsonV) -> Seq<JsonV> {
    let media = match or_null(input.field("media_metadata"@)) {
        JsonV::Array(items) => media_parts(items),
        _ => Seq::empty(),
    };
    media.push(text_part(str_or_empty(input.field("content"@))))
}

/// `{"type": t}`
pub open spec fn typed(t: Seq<char>) -> JsonV {
    JsonV::Object(seq![("type"@, JsonV::Str(t))])
}

/// The JSON schema that the classification must follow.
pub open spec fn classification_schema_view() -> JsonV {
    JsonV::Object(
        seq![
            ("type"@, JsonV::Str("object"@)),
            (
                "properties"@,
                JsonV::Object(
                    seq![
                        (
                            "intent"@,
                            JsonV::Object(
                                seq![
                                    ("type"@, JsonV::Str("string"@)),
                                    (
                                        "enum"@,
                                        JsonV::Array(
                                            seq![
                                                JsonV::Str("Note"@),
                                                JsonV::Str("Draft"@),
                                                JsonV::Str("Event"@),
                                                JsonV::Str("Disambiguate"@),
                                            ],
                                        ),
                                    ),
                                ],
                            ),
                        ),
                        ("target_folder"@, typed("string"@)),
                        (
                            "entities_found"@,
                            JsonV::Object(
                                seq![
                                    ("type"@, JsonV::Str("array"@)),
                                    ("items"@, typed("string"@)),
                                ],
                            ),
                        ),
                        ("formatted_content"@, typed("string"@)),
                    ],
                ),
            ),
            (
                "required"@,
                JsonV::Array(
                    seq![
                        JsonV::Str("intent"@),
                        JsonV::Str("target_folder"@),
                        JsonV::Str("entities_found"@),
                        JsonV::Str("formatted_content"@),
                    ],
                ),
            ),
        ],
    )
}

/// The classification request with the given parts.
pub open spec fn classifier_payload_view(parts: Seq<JsonV>) -> JsonV {
    JsonV::Object(
        seq![
            (
                "system_instruction"@,
                JsonV::Object(
                    seq![("parts"@, JsonV::Array(seq![text_part(instruction_text())]))],
                ),
            ),
            (
                "contents"@,
                JsonV::Array(seq![JsonV::Object(seq![("parts"@, JsonV::Array(parts))])]),
            ),
            (
                "generationConfig"@,
                JsonV::Object(
                    seq![
                        ("responseMimeType"@, JsonV::Str("application/json"@)),
                        ("responseSchema"@, classification_schema_view()),
                    ],
                ),
            ),
        ],
    )
}

/// The text that the classifier reads from a reply: the last part of the last
/// candidate, or `{}` when there is none.
pub open spec fn reply_text_view(resp: GeminiResponse) -> Seq<char> {
    match resp.candidates {
        Some(cs) => if cs@.len() > 0 && cs@.last().content.parts@.len() > 0 {
            cs@.last().content.parts@.last().text@
        } else {
            "{}"@
        },
        None => "{}"@,
    }
}

/// The value the classifier hands on for an outcome.
pub open spec fn classifier_result_view(outcome: ClassifierOutcome) -> JsonV {
    match outcome {
        ClassifierOutcome::NetworkError(e) => error_view("Network Error: "@ + e@),
        ClassifierOutcome::ApiError(e) => error_view("API Error: "@ + e@),
        ClassifierOutcome::UnreadableResponse => error_view("Failed to parse GeminiResponse"@),
        ClassifierOutcome::Reply(Some(v)) => v@,
        ClassifierOutcome::Reply(None) => error_view("Failed to parse inner JSON"@),
    }
}

/// The shared state that a classification starts from: the message and its
/// media as `{"uri", "mime"}` entries.
pub open spec fn classification_state_view(content: Seq<char>, media: Seq<(Seq<char>, Seq<char>)>) -> JsonV {
    JsonV::Object(
        seq![
            ("content"@, JsonV::Str(content)),
            ("media_metadata"@, JsonV::Array(media.map_values(|p: (Seq<char>, Seq<char>)| media_entry(p.0, p.1)))),
        ],
    )
}

/// `{"uri": uri, "mime": mime}`
pub open spec fn media_entry(uri: Seq<char>, mime: Seq<char>) -> JsonV {
    JsonV::Object(seq![("uri"@, JsonV::Str(uri)), ("mime"@, JsonV::Str(mime))])
}

/// The view of a list of (uri, mime) pairs.
pub open spec fn pairs_view(media: Seq<(String, String)>) -> Seq<(Seq<char>, Seq<char>)> {
    media.map_values(|p: (String, String)| (p.0@, p.1@))
}

/// What the classification left in the shared state (`null` when nothing).
pub open spec fn classification_value(state: JsonV) -> JsonV {
    or_null(state.field("classification"@))
}

fn str_field_or_empty(v: &Json, key: &str) -> (r: String)
    ensures
        r@ == str_or_empty(v@.field(key@)),
{
    match v.field(key) {
        Some(x) => match x.as_str() {
            Some(s) => copy_text(s),
            None => String::new(),
        },
        None => String::new(),
    }
}

fn field_or_null(v: &Json, key: &str) -> (r: Json)
    ensures
        r@ == or_null(v@.field(key@)),
{
    match v.field(key) {
        Some(x) => x.duplicate(),
        None => Json::Null,
    }
}

/// What the classifier takes from the shared state.
pub fn classifier_prep(shared: &Json) -> (r: Json)
    ensures
        r@ == classifier_prep_view(shared@),
{
    object2(
        "content",
        Json::Str(str_field_or_empty(shared, "content")),
        "media_metadata",
        field_or_null(shared, "media_metadata"),
    )
}

fn file_data_part_of(uri: &str, mime: &str) -> (r: Json)
    ensures
        r@ == file_data_part(uri@, mime@),
{
    object1("fileData", object2("fileUri", Json::text(uri), "mimeType", Json::text(mime)))
}

fn media_part(m: &Json) -> (r: Option<Json>)
    ensures
        match r {
            Some(p) => media_part_of(m@) == Some(p@),
            None => media_part_of(m@) is None,
        },
{
    let uri = match m.field("uri") {
        Some(u) => u.as_str(),
        None => None,
    };
    let mime = match m.field("mime") {
        Some(t) => t.as_str(),
        None => None,
    };
    match (uri, mime) {
        (Some(u), Some(t)) => Some(file_data_part_of(u, t)),
        _ => None,
    }
}

/// The parts of the classification request for the prepared input.
pub fn classifier_parts(input: &Json) -> (r: Vec<Json>)
    ensures
        items_view(r@) == classifier_parts_view(input@),
{
    let mut parts: Vec<Json> = Vec::new();
    let media = field_or_null(input, "media_metadata");
    let ghost wanted = match media@ {
        JsonV::Array(xs) => media_parts(xs),
        _ => Seq::empty(),
    };
    match &media {
        Json::Array(items) => {
            proof {
                lemma_items_view(items@);
            }
            let ghost iv = items_view(items@);
            let mut i: usize = 0;
            while i < items.len()
                invariant
                    i <= items.len(),
                    iv == items_view(items@),
                    iv.len() == items.len(),
                    forall|j: int| 0 <= j < items.len() ==> #[trigger] iv[j] == items@[j]@,
                    items_view(parts@) == media_parts(iv.take(i as int)),
                decreases items.len() - i,
            {
                let ghost before = parts@;
                assert(iv.take(i + 1).drop_last() =~= iv.take(i as int));
                match media_part(&items[i]) {
                    Some(p) => {
                        parts.push(p);
                        assert(parts@.drop_last() =~= before);
                    },
                    None => {},
                }
                i = i + 1;
            }
            assert(iv.take(items.len() as int) =~= iv);
            assert(media@ == JsonV::Array(iv));
            assert(items_view(parts@) == wanted);
        },
        _ => {
            assert(items_view(parts@) =~= wanted);
        },
    }
    let content = str_field_or_empty(input, "content");
    let ghost before = parts@;
    parts.push(text_part_of(content.as_str()));
    assert(parts@.drop_last() =~= before);
    parts
}

fn typed_of(t: &str) -> (r: Json)
    ensures
        r@ == typed(t@),
{
    object1("type", Json::text(t))
}

/// The JSON schema that the classification must follow.
pub fn classification_schema() -> (r: Json)
    ensures
        r@ == classification_schema_view(),
{
    let allowed_items = vec![
        Json::text("Note"),
        Json::text("Draft"),
        Json::text("Event"),
        Json::text("Disambiguate"),
    ];
    let required_items = vec![
        Json::text("intent"),
        Json::text("target_folder"),
        Json::text("entities_found"),
        Json::text("formatted_content"),
    ];
    proof {
        lemma_items_view(allowed_items@);
        lemma_items_view(required_items@);
        assert(items_view(allowed_items@) =~= seq![
            JsonV::Str("Note"@),
            JsonV::Str("Draft"@),
            JsonV::Str("Event"@),
            JsonV::Str("Disambiguate"@),
        ]);
        assert(items_view(required_items@) =~= seq![
            JsonV::Str("intent"@),
            JsonV::Str("target_folder"@),
            JsonV::Str("entities_found"@),
            JsonV::Str("formatted_content"@),
        ]);
    }
    let allowed = array(allowed_items);
    let required = array(required_items);
    let intent = object2("type", Json::text("string"), "enum", allowed);
    let entities = object2("type", Json::text("array"), "items", typed_of("string"));
    let properties = object4(
        "intent",
        intent,
        "target_folder",
        typed_of("string"),
        "entities_found",
        entities,
        "formatted_content",
        typed_of("string"),
    );
    let r = object3("type", Json::text("object"), "properties", properties, "required", required);
    r
}

/// The classification request with the given parts.
pub fn classifier_payload(parts: Vec<Json>) -> (r: Json)
    ensures
        r@ == classifier_payload_view(items_view(parts@)),
{
    let instruction = text_part_of(
        "Analyze the provided message. Classify its intent into one of: Note, Draft, Event, or Disambiguate.
Determine the appropriate target folder (e.g., Log, Projects, etc.).
Extract any named entities (people, projects, concepts) found in the text.
Format the content cleanly as Markdown.",
    );
    let system = object1("parts", array1(instruction));
    let contents = array1(object1("parts", array(parts)));
    let config = object2(
        "responseMimeType",
        Json::text("application/json"),
        "responseSchema",
        classification_schema(),
    );
    object3("system_instruction", system, "contents", contents, "generationConfig", config)
}

impl GeminiClassifierNode {
    /// The endpoint and body of the classification request for the prepared input.
    pub fn request(&self, input: &Json) -> (r: (String, Json))
        ensures
            r.0@ == gemini_url(CLASSIFIER_MODEL@, self.api_key@),
            r.1@ == classifier_payload_view(classifier_parts_view(input@)),
    {
        let url = generate_content_url(CLASSIFIER_MODEL, self.api_key.as_str());
        let parts = classifier_parts(input);
        (url, classifier_payload(parts))
    }
}

/// The text that the classifier reads from a reply.
pub fn reply_json_text(resp: &GeminiResponse) -> (r: String)
    ensures
        r@ == reply_text_view(*resp),
{
    match &resp.candidates {
        Some(cs) => {
            if cs.len() > 0 && cs[cs.len() - 1].content.parts.len() > 0 {
                let parts = &cs[cs.len() - 1].content.parts;
                copy_text(parts[parts.len() - 1].text.as_str())
            } else {
                copy_text("{}")
            }
        },
        None => copy_text("{}"),
    }
}

/// The value the classifier hands on for an outcome: the parsed reply, or an
/// `{"error": ...}` value that says what went wrong.
pub fn classifier_result(outcome: ClassifierOutcome) -> (r: Json)
    ensures
        r@ == classifier_result_view(outcome),
{
    match outcome {
        ClassifierOutcome::NetworkError(e) => {
            let mut m = copy_text("Network Error: ");
            push_text(&mut m, e.as_str());
            error_value(m.as_str())
        },
        ClassifierOutcome::ApiError(e) => {
            let mut m = copy_text("API Error: ");
            push_text(&mut m, e.as_str());
            error_value(m.as_str())
        },
        ClassifierOutcome::UnreadableResponse => error_value("Failed to parse GeminiResponse"),
        ClassifierOutcome::Reply(Some(v)) => v,
        ClassifierOutcome::Reply(None) => error_value("Failed to parse inner JSON"),
    }
}

/// Stores the classifier's result in the shared state under `classification`.
pub fn classifier_post(shared: &mut Json, exec_res: Json)
    ensures
        final(shared)@ == old(shared)@.with_field("classification"@, exec_res@),
{
    shared.set_field("classification", exec_res);
}

/// The shared state that a classification of `content` with `media` starts from.
pub fn classification_state(content: &str, media: &Vec<(String, String)>) -> (r: Json)
    ensures
        r@ == classification_state_view(content@, pairs_view(media@)),
{
    let mut entries: Vec<Json> = Vec::new();
    let mut i: usize = 0;
    while i < media.len()
        invariant
            i <= media.len(),
            items_view(entries@) == pairs_view(media@).take(i as int).map_values(
                |p: (Seq<char>, Seq<char>)| media_entry(p.0, p.1),
            ),
        decreases media.len() - i,
    {
        let ghost before = entries@;
        entries.push(object2("uri", Json::text(media[i].0.as_str()), "mime", Json::text(media[i].1.as_str())));
        assert(entries@.drop_last() =~= before);
        assert(pairs_view(media@).take(i + 1).map_values(
            |p: (Seq<char>, Seq<char>)| media_entry(p.0, p.1),
        ) =~= pairs_view(media@).take(i as int).map_values(
            |p: (Seq<char>, Seq<char>)| media_entry(p.0, p.1),
        ).push(media_entry(media@[i as int].0@, media@[i as int].1@)));
        i = i + 1;
    }
    assert(pairs_view(media@).take(media.len() as int) =~= pairs_view(media@));
    object2("content", Json::text(content), "media_metadata", array(entries))
}

/// What the classification left in the shared state: `Ok` with it, or `Err`
/// with it when it carries an `error` member.
pub fn classification_check(state: &Json) -> (r: Result<Json, Json>)
    ensures
        match r {
            Ok(v) => v@ == classification_value(state@) && classification_value(state@).field(
                "error"@,
            ) is None,
            Err(v) => v@ == classification_value(state@) && classification_value(state@).field(
                "error"@,
            ) is Some,
        },
{
    let value = field_or_null(state, "classification");
    if value.field("error").is_some() {
        Err(value)
    } else {
        Ok(value)
    }
}

proof fn lemma_media_parts_of_entries(media: Seq<(Seq<char>, Seq<char>)>)
    ensures
        media_parts(media.map_values(|p: (Seq<char>, Seq<char>)| media_entry(p.0, p.1)))
            == media.map_values(|p: (Seq<char>, Seq<char>)| file_data_part(p.0, p.1)),
    decreases media.len(),
{
    reveal_strlit("uri");
    reveal_strlit("mime");
    let entries = media.map_values(|p: (Seq<char>, Seq<char>)| media_entry(p.0, p.1));
    let parts = media.map_values(|p: (Seq<char>, Seq<char>)| file_data_part(p.0, p.1));
    if media.len() > 0 {
        let shorter = media.drop_last();
        lemma_media_parts_of_entries(shorter);
        assert(entries.drop_last() =~= shorter.map_values(
            |p: (Seq<char>, Seq<char>)| media_entry(p.0, p.1),
        ));
        assert(parts.drop_last() =~= shorter.map_values(
            |p: (Seq<char>, Seq<char>)| file_data_part(p.0, p.1),
        ));
        let last = media.last();
        let e = entries.last();
        assert(e == media_entry(last.0, last.1));
        let es = seq![("uri"@, JsonV::Str(last.0)), ("mime"@, JsonV::Str(last.1))];
        assert(es.drop_last() =~= seq![("uri"@, JsonV::Str(last.0))]);
        assert("mime"@.len() == 4 && "uri"@.len() == 3);
        assert("mime"@ != "uri"@);
        assert(crate::json::lookup(es, "uri"@) == crate::json::lookup(es.drop_last(), "uri"@));
        assert(e.field("uri"@) == Some(JsonV::Str(last.0)));
        assert(e.field("mime"@) == Some(JsonV::Str(last.1)));
        assert(media_part_of(e) == Some(file_data_part(last.0, last.1)));
        assert(parts =~= parts.drop_last().push(file_data_part(last.0, last.1)));
    } else {
        assert(entries =~= Seq::<JsonV>::empty());
        assert(parts =~= Seq::<JsonV>::empty());
    }
}

/// Every media entry a classification is started with reaches the request to
/// Gemini as a file part, in the order given, followed by the message text.
pub proof fn lemma_media_reach_request(content: Seq<char>, media: Seq<(Seq<char>, Seq<char>)>)
    ensures
        classifier_parts_view(classifier_prep_view(classification_state_view(content, media)))
            == media.map_values(|p: (Seq<char>, Seq<char>)| file_data_part(p.0, p.1)).push(
            text_part(content),
        ),
{
    reveal_strlit("content");
    reveal_strlit("media_metadata");
    let entries = media.map_values(|p: (Seq<char>, Seq<char>)| media_entry(p.0, p.1));
    let state = classification_state_view(content, media);
    let es = seq![("content"@, JsonV::Str(content)), ("media_metadata"@, JsonV::Array(entries))];
    assert(es.drop_last() =~= seq![("content"@, JsonV::Str(content))]);
    assert("content"@.len() == 7 && "media_metadata"@.len() == 14);
    assert("content"@ != "media_metadata"@);
    assert(crate::json::lookup(es, "content"@) == crate::json::lookup(es.drop_last(), "content"@));
    assert(state.field("content"@) == Some(JsonV::Str(content)));
    assert(state.field("media_metadata"@) == Some(JsonV::Array(entries)));
    let prep = classifier_prep_view(state);
    assert(prep == JsonV::Object(es));
    lemma_media_parts_of_entries(media);
}

/// The classification request sends every part it is given, all of them and
/// in order: the body's `contents[0].parts` is exactly that list.
pub proof fn lemma_classifier_request_sends_every_part(parts: Seq<JsonV>)
    ensures
        opt_field(opt_at(classifier_payload_view(parts).field("contents"@), 0), "parts"@) == Some(
            JsonV::Array(parts),
        ),
{
    reveal_strlit("contents");
    reveal_strlit("generationConfig");
    reveal_strlit("system_instruction");
    assert("contents"@.len() != "generationConfig"@.len());
    assert("contents"@.len() != "system_instruction"@.len());
    let contents = JsonV::Array(seq![JsonV::Object(seq![("parts"@, JsonV::Array(parts))])]);
    let entries = seq![
        (
            "system_instruction"@,
            JsonV::Object(seq![("parts"@, JsonV::Array(seq![text_part(instruction_text())]))]),
        ),
        ("contents"@, contents),
        (
            "generationConfig"@,
            JsonV::Object(
                seq![
                    ("responseMimeType"@, JsonV::Str("application/json"@)),
                    ("responseSchema"@, classification_schema_view()),
                ],
            ),
        ),
    ];
    assert(classifier_payload_view(parts) == JsonV::Object(entries));
    let front = entries.drop_last();
    assert(front =~= seq![entries[0], entries[1]]);
    assert(front.last() == entries[1]);
    assert(crate::json::lookup(entries, "contents"@) == crate::json::lookup(front, "contents"@));
    assert(crate::json::lookup(front, "contents"@) == Some(contents));
    let inner = seq![("parts"@, JsonV::Array(parts))];
    assert(inner.drop_last() =~= Seq::<(Seq<char>, JsonV)>::empty());
    assert(crate::json::lookup(inner, "parts"@) == Some(JsonV::Array(parts)));
    assert(JsonV::Object(inner).field("parts"@) == Some(JsonV::Array(parts)));
}

/// The media a classification is started with reach the request body: its
/// `contents[0].parts` holds one file part per media entry, with that entry's
/// uri and media type, in order, and then the message text.
pub proof fn lemma_media_reach_request_body(content: Seq<char>, media: Seq<(Seq<char>, Seq<char>)>)
    ensures
        ({
            let body = classifier_payload_view(
                classifier_parts_view(classifier_prep_view(classification_state_view(content, media))),
            );
            let sent = opt_field(opt_at(body.field("contents"@), 0), "parts"@);
            &&& sent is Some
            &&& sent->0 matches JsonV::Array(ps) && ps.len() == media.len() + 1
                && ps.last() == text_part(content)
                && (forall|i: int| 0 <= i < media.len() ==> #[trigger] ps[i] == file_data_part(
                media[i].0,
                media[i].1,
            ))
        }),
{
    lemma_media_reach_request(content, media);
    let parts = classifier_parts_view(classifier_prep_view(classification_state_view(content, media)));
    lemma_classifier_request_sends_every_part(parts);
}

/// The classification that the classifier stores in the shared state is the
/// one that is read back from it afterwards.
pub proof fn lemma_post_then_read(shared: JsonV, result: JsonV)
    ensures
        classification_value(shared.with_field("classification"@, result)) == result,
{
    crate::json::lemma_with_field_then_field(shared, "classification"@, result, "classification"@);
}

} // verus!
