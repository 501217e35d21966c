use uriel::annotator::{highlight, highlight_epub, HighlightType};
use uriel::gemini_client::{
    classification_check, classification_schema, classification_state, classifier_parts,
    classifier_post, classifier_prep, classifier_result, reply_json_text, Candidate,
    ClassifierOutcome, Content, GeminiClassifierNode, GeminiResponse, Part,
};
use uriel::json::Json;
use uriel::orichalcum_integration::{
    generated_text, ingestion_parts, ingestion_post, ingestion_prep, ingestion_request,
    ingestion_result, inline_media_part, media_path, mime_type_for, IngestionOutcome,
};

fn js(t: &str) -> Json {
    Json::Str(t.to_string())
}

fn jo(entries: Vec<(&str, Json)>) -> Json {
    Json::Object(entries.into_iter().map(|(k, v)| (k.to_string(), v)).collect())
}

#[test]
fn highlight_keeps_fields() {
    let h = highlight(HighlightType::KeyConcept, "ignored", "note", "/6/4", "/6/8");
    assert_eq!(h.highlight_type, HighlightType::KeyConcept);
    assert_eq!(h.comment, "note");
    assert_eq!(h.start_cfi, "/6/4");
    assert_eq!(h.end_cfi, "/6/8");
    highlight_epub();
}

#[test]
fn classifier_prep_takes_content_and_media() {
    let shared = jo(vec![("content", js("hi")), ("media_metadata", Json::Array(vec![])), ("other", js("x"))]);
    assert_eq!(classifier_prep(&shared), jo(vec![("content", js("hi")), ("media_metadata", Json::Array(vec![]))]));
    assert_eq!(classifier_prep(&jo(vec![])), jo(vec![("content", js("")), ("media_metadata", Json::Null)]));
    assert_eq!(
        classifier_prep(&jo(vec![("content", Json::Bool(true))])),
        jo(vec![("content", js("")), ("media_metadata", Json::Null)])
    );
}

#[test]
fn state_to_parts_carries_every_attachment() {
    let media = vec![("u1".to_string(), "image/png".to_string()), ("u2".to_string(), "audio/ogg".to_string())];
    let state = classification_state("text", &media);
    assert_eq!(
        state,
        jo(vec![
            ("content", js("text")),
            ("media_metadata", Json::Array(vec![
                jo(vec![("uri", js("u1")), ("mime", js("image/png"))]),
                jo(vec![("uri", js("u2")), ("mime", js("audio/ogg"))]),
            ])),
        ])
    );
    let parts = classifier_parts(&classifier_prep(&state));
    assert_eq!(
        parts,
        vec![
            jo(vec![("fileData", jo(vec![("fileUri", js("u1")), ("mimeType", js("image/png"))]))]),
            jo(vec![("fileData", jo(vec![("fileUri", js("u2")), ("mimeType", js("audio/ogg"))]))]),
            jo(vec![("text", js("text"))]),
        ]
    );
}

#[test]
fn parts_skip_incomplete_media() {
    let input = jo(vec![
        ("content", js("c")),
        ("media_metadata", Json::Array(vec![jo(vec![("uri", js("u"))]), js("junk")])),
    ]);
    assert_eq!(classifier_parts(&input), vec![jo(vec![("text", js("c"))])]);
}

#[test]
fn classifier_request_shape() {
    let node = GeminiClassifierNode { api_key: "K".to_string() };
    let (url, body) = node.request(&jo(vec![("content", js("m"))]));
    assert_eq!(url, "https://generativelanguage.googleapis.com/v1beta/models/gemini-1.5-flash:generateContent?key=K");
    let config = body.field("generationConfig").unwrap();
    assert_eq!(config.field("responseMimeType"), Some(&js("application/json")));
    assert_eq!(config.field("responseSchema"), Some(&classification_schema()));
    let instruction = body.field("system_instruction").unwrap().field("parts").unwrap().at(0).unwrap().field("text").unwrap();
    assert!(instruction.as_str().unwrap().starts_with("Analyze the provided message."));
    assert!(instruction.as_str().unwrap().ends_with("Format the content cleanly as Markdown."));
    let schema = classification_schema();
    assert_eq!(schema.field("type"), Some(&js("object")));
    let required = schema.field("required").unwrap();
    assert_eq!(required.at(3), Some(&js("formatted_content")));
    let intent = schema.field("properties").unwrap().field("intent").unwrap();
    assert_eq!(intent.field("enum").unwrap().at(3), Some(&js("Disambiguate")));
}

#[test]
fn reply_text_takes_last_candidate_last_part() {
    let part = |t: &str| Part { text: t.to_string() };
    let resp = GeminiResponse {
        candidates: Some(vec![
            Candidate { content: Content { parts: vec![part("a")] } },
            Candidate { content: Content { parts: vec![part("b"), part("c")] } },
        ]),
    };
    assert_eq!(reply_json_text(&resp), "c");
    assert_eq!(reply_json_text(&GeminiResponse { candidates: None }), "{}");
    assert_eq!(reply_json_text(&GeminiResponse { candidates: Some(vec![]) }), "{}");
    let empty_parts = GeminiResponse { candidates: Some(vec![Candidate { content: Content { parts: vec![] } }]) };
    assert_eq!(reply_json_text(&empty_parts), "{}");
}

#[test]
fn classifier_result_errors() {
    assert_eq!(classifier_result(ClassifierOutcome::NetworkError("down".to_string())), jo(vec![("error", js("Network Error: down"))]));
    assert_eq!(classifier_result(ClassifierOutcome::ApiError("403".to_string())), jo(vec![("error", js("API Error: 403"))]));
    assert_eq!(classifier_result(ClassifierOutcome::UnreadableResponse), jo(vec![("error", js("Failed to parse GeminiResponse"))]));
    assert_eq!(classifier_result(ClassifierOutcome::Reply(None)), jo(vec![("error", js("Failed to parse inner JSON"))]));
    assert_eq!(classifier_result(ClassifierOutcome::Reply(Some(js("v")))), js("v"));
}

#[test]
fn post_then_check_reads_classification() {
    let mut shared = jo(vec![("content", js("x"))]);
    classifier_post(&mut shared, jo(vec![("intent", js("Note"))]));
    assert_eq!(classification_check(&shared), Ok(jo(vec![("intent", js("Note"))])));
    let mut failed = jo(vec![]);
    classifier_post(&mut failed, jo(vec![("error", js("boom"))]));
    assert_eq!(classification_check(&failed), Err(jo(vec![("error", js("boom"))])));
    assert_eq!(classification_check(&jo(vec![])), Ok(Json::Null));
}

#[test]
fn mime_types_by_extension() {
    assert_eq!(mime_type_for("a.png"), "image/png");
    assert_eq!(mime_type_for("a.ogg"), "audio/ogg");
    assert_eq!(mime_type_for("a.jpg"), "image/jpeg");
    assert_eq!(mime_type_for("a.jpeg"), "image/jpeg");
    assert_eq!(mime_type_for("a.PNG"), "application/octet-stream");
    assert_eq!(mime_type_for("a"), "application/octet-stream");
}

#[test]
fn base64_inline_part() {
    let part = inline_media_part("x.png", b"Man");
    assert_eq!(part, jo(vec![("inlineData", jo(vec![("mimeType", js("image/png")), ("data", js("TWFu"))]))]));
    let data = |b: &[u8]| inline_media_part("f", b).field("inlineData").unwrap().field("data").unwrap().as_str().unwrap().to_string();
    assert_eq!(data(b"Ma"), "TWE=");
    assert_eq!(data(b"M"), "TQ==");
    assert_eq!(data(b""), "");
    assert_eq!(data(&[0xff, 0xfe, 0xfd, 0x00]), "//79AA==");
    assert_eq!(data(b"any carnal pleasure."), "YW55IGNhcm5hbCBwbGVhc3VyZS4=");
}

#[test]
fn ingestion_parts_with_and_without_media() {
    let input = jo(vec![("input_text", js("hello")), ("media_path", js("p.ogg"))]);
    assert_eq!(media_path(&input), Some("p.ogg".to_string()));
    let parts = ingestion_parts(&input, Some(&b"Man"[..]));
    assert_eq!(parts.len(), 2);
    let prompt = parts[0].field("text").unwrap().as_str().unwrap();
    assert!(prompt.starts_with("Classify the following text into one of these intents: Note, Draft, Event, Disambiguate."));
    assert!(prompt.contains("{ 'intent': '...', 'target_folder': '...', 'entities_found': [...], 'formatted_content': '...' }"));
    assert!(prompt.ends_with(". Text: hello"));
    assert_eq!(parts[1], jo(vec![("inlineData", jo(vec![("mimeType", js("audio/ogg")), ("data", js("TWFu"))]))]));
    assert_eq!(ingestion_parts(&input, None).len(), 1);
    let none = ingestion_parts(&jo(vec![]), None);
    assert!(none[0].field("text").unwrap().as_str().unwrap().ends_with("Text: "));
}

#[test]
fn ingestion_request_and_results() {
    let (url, body) = ingestion_request("K", vec![js("p")]);
    assert_eq!(url, "https://generativelanguage.googleapis.com/v1beta/models/gemini-1.5-flash:generateContent?key=K");
    assert_eq!(
        body,
        jo(vec![
            ("contents", Json::Array(vec![jo(vec![("parts", Json::Array(vec![js("p")]))])])),
            ("generationConfig", jo(vec![("response_mime_type", js("application/json"))])),
        ])
    );
    assert_eq!(ingestion_result(IngestionOutcome::MissingKey), jo(vec![("error", js("Missing GEMINI_API_KEY"))]));
    assert_eq!(ingestion_result(IngestionOutcome::SendError("e".to_string())), jo(vec![("error", js("e"))]));
    assert_eq!(ingestion_result(IngestionOutcome::BodyError("b".to_string())), jo(vec![("error", js("b"))]));
    assert_eq!(
        ingestion_result(IngestionOutcome::SchemaError("bad".to_string())),
        jo(vec![("error", js("Invalid JSON schema returned: bad"))])
    );
    assert_eq!(ingestion_result(IngestionOutcome::Parsed(js("ok"))), js("ok"));
    assert_eq!(generated_text(&Json::Null), "");
    let p = jo(vec![("a", js("b"))]);
    assert_eq!(ingestion_prep(&p), p);
    let mut state = jo(vec![]);
    ingestion_post(&mut state, js("r"));
    assert_eq!(state.field("result"), Some(&js("r")));
}
