use uriel::gemini::{IntentEnum, UrielClassification};
use uriel::handler::{
    debug_list_of, embed_line, entity_link, unwrap_pattern, wrap_pattern,
    answer_request, attachment_embeds, backlink_entities, channel_kind, crawl_prompt, debug_strings,
    entry_after, fallback_entry, ingestion_params, link_entity_in, needs_parent_lookup, plan_for,
    push_to_thread_window, query_prompt, should_ingest, slash_commands, thread_context,
    first_handling_step, next_handling_step, ChannelKind, HandlingStep, MessagePlan,
    CLARIFICATION_QUESTION, CLARIFICATION_THREAD_NAME,
    DIGEST_CHANNEL_ID, DISCUSS_CHANNEL_ID, DROPBOX_CHANNEL_ID, THREAD_WINDOW,
};
use uriel::json::Json;
use uriel::orichalcum_integration::{ingestion_parts, ingestion_prep};

fn text(t: &str) -> Json {
    Json::Str(t.to_string())
}

fn strings(v: &[&str]) -> Vec<String> {
    v.iter().map(|s| s.to_string()).collect()
}

fn classified(intent: IntentEnum, content: &str, entities: &[&str]) -> UrielClassification {
    UrielClassification {
        intent,
        target_folder: "Log".to_string(),
        entities_found: strings(entities),
        formatted_content: content.to_string(),
    }
}

#[test]
fn channel_kinds_direct_and_by_parent() {
    assert_eq!(channel_kind(DROPBOX_CHANNEL_ID, None), ChannelKind::Dropbox);
    assert_eq!(channel_kind(DISCUSS_CHANNEL_ID, Some(DROPBOX_CHANNEL_ID)), ChannelKind::Discuss);
    assert_eq!(channel_kind(42, Some(DROPBOX_CHANNEL_ID)), ChannelKind::Dropbox);
    assert_eq!(channel_kind(42, Some(DISCUSS_CHANNEL_ID)), ChannelKind::Discuss);
    assert_eq!(channel_kind(42, Some(7)), ChannelKind::Other);
    assert_eq!(channel_kind(42, None), ChannelKind::Other);
    assert!(!needs_parent_lookup(DROPBOX_CHANNEL_ID));
    assert!(needs_parent_lookup(DIGEST_CHANNEL_ID));
}

#[test]
fn only_human_messages_in_watched_channels_are_ingested() {
    assert!(should_ingest(ChannelKind::Dropbox, DROPBOX_CHANNEL_ID, false));
    assert!(should_ingest(ChannelKind::Discuss, 5, false));
    assert!(!should_ingest(ChannelKind::Dropbox, DROPBOX_CHANNEL_ID, true));
    assert!(!should_ingest(ChannelKind::Other, DIGEST_CHANNEL_ID, false));
    assert!(!should_ingest(ChannelKind::Other, 9, false));
}

#[test]
fn thread_window_keeps_five_newest_first() {
    let mut w: Vec<u32> = vec![];
    push_to_thread_window(&mut w, 1);
    assert_eq!(w, vec![1]);
    let mut w = vec![4, 3, 2, 1];
    push_to_thread_window(&mut w, 5);
    assert_eq!(w, vec![5, 4, 3, 2, 1]);
    push_to_thread_window(&mut w, 6);
    assert_eq!(w, vec![6, 5, 4, 3, 2]);
    let mut long = vec![9, 8, 7, 6, 5, 4, 3];
    push_to_thread_window(&mut long, 10);
    assert_eq!(long, vec![10, 9, 8, 7, 6]);
    assert_eq!(long.len(), THREAD_WINDOW);
}

#[test]
fn thread_context_matches_debug_format() {
    let msgs = strings(&["newest \"quoted\"", "older\nline", "tab\there"]);
    assert_eq!(debug_strings(&msgs), format!("{:?}", msgs));
    assert_eq!(
        thread_context(&msgs, "hello"),
        format!("Context: {:?}\nMessage: {}", msgs, "hello")
    );
    assert_eq!(debug_strings(&vec![]), "[]");
}

#[test]
fn ingestion_params_with_first_attachment() {
    let p = ingestion_params("msg", &strings(&["Alice"]), &strings(&["attachments/2024/03/a.png", "b"]));
    assert_eq!(p.field("input_text"), Some(&text("msg")));
    assert_eq!(p.field("known_entities"), Some(&Json::Array(vec![text("Alice")])));
    assert_eq!(p.field("media_path"), Some(&text("attachments/2024/03/a.png")));
    let q = ingestion_params("msg", &vec![], &vec![]);
    assert_eq!(q.field("media_path"), None);
}

#[test]
fn entity_links_are_normalized() {
    let out = link_entity_in("Alice met alice and [[Alice]] and [[[[Alice]]]]".to_string(), "Alice");
    assert_eq!(out, "[[Alice]] met [[Alice]] and [[Alice]] and [[Alice]]");
    let out = link_entity_in("Malice is not Alice".to_string(), "Alice");
    assert_eq!(out, "Malice is not [[Alice]]");
    let out = link_entity_in("uses C++ daily".to_string(), "C++");
    let expected = regex::Regex::new(&format!(r"(?i)\b{}\b", regex::escape("C++")))
        .unwrap()
        .replace_all("uses C++ daily", "[[C++]]")
        .to_string();
    assert_eq!(out, expected);
}

#[test]
fn backlinks_apply_every_entity() {
    let out = backlink_entities("Bob and Alice", &strings(&["Alice", "Bob"]));
    assert_eq!(out, "[[Bob]] and [[Alice]]");
    assert_eq!(backlink_entities("same", &vec![]), "same");
}

#[test]
fn embeds_name_the_stored_files() {
    let paths = strings(&["attachments/2024/03/a.png", "attachments/2024/03/b-1.ogg"]);
    assert_eq!(attachment_embeds(&paths), "\n![[a.png]]\n![[b-1.ogg]]");
    assert_eq!(attachment_embeds(&vec![]), "");
    assert_eq!(fallback_entry("raw", &paths), "raw\n![[a.png]]\n![[b-1.ogg]]");
}

#[test]
fn plans_by_intent() {
    let paths = strings(&["attachments/2024/03/a.png"]);
    assert_eq!(plan_for(&classified(IntentEnum::Disambiguate, "x", &[]), &paths), MessagePlan::AskClarification);
    assert_eq!(plan_for(&classified(IntentEnum::Query, "where?", &[]), &paths), MessagePlan::Query("where?".to_string()));
    assert_eq!(plan_for(&classified(IntentEnum::Crawl, "Alice", &[]), &paths), MessagePlan::Crawl("Alice".to_string()));
    assert_eq!(
        plan_for(&classified(IntentEnum::Note, "met Alice", &["Alice"]), &paths),
        MessagePlan::AppendLog("met [[Alice]]\n![[a.png]]".to_string())
    );
    assert_eq!(
        plan_for(&classified(IntentEnum::Event, "e", &[]), &vec![]),
        MessagePlan::AppendLog("e".to_string())
    );
}

#[test]
fn raw_entry_only_after_failure() {
    assert_eq!(entry_after(true, "t", &vec![]), None);
    assert_eq!(entry_after(false, "t", &strings(&["x/y.png"])), Some("t\n![[y.png]]".to_string()));
}

#[test]
fn prompts_and_answer_request() {
    assert_eq!(
        query_prompt("Q", "R"),
        "User asked: Q\n\nSearch Results:\nR\n\nSynthesize a helpful answer based on the search results. If the results are empty or irrelevant, say so."
    );
    assert_eq!(
        crawl_prompt("Q", "R"),
        "User asked to explore connections for: Q\n\nConnection Crawl Results:\nR\n\nSynthesize a helpful answer based on these connections. Describe what this note links to and what links back to it."
    );
    let (url, _) = answer_request("K", "P");
    assert_eq!(url, "https://generativelanguage.googleapis.com/v1beta/models/gemini-3.1-flash-lite-preview:generateContent?key=K");
    assert_eq!(CLARIFICATION_THREAD_NAME, "Clarification Needed");
    assert_eq!(CLARIFICATION_QUESTION, "Could you clarify which entity you mean?");
}

#[test]
fn slash_command_list() {
    let c = slash_commands();
    assert_eq!(c.len(), 3);
    assert_eq!(c[0], ("note".to_string(), "Create a note".to_string()));
    assert_eq!(c[2], ("event".to_string(), "Create an event".to_string()));
}

#[test]
fn params_reach_the_ingestion_request() {
    let params = ingestion_params("note text", &strings(&["Bob"]), &strings(&["attachments/2024/03/p.png"]));
    let input = ingestion_prep(&params);
    let parts = ingestion_parts(&input, Some(&b"Man"[..]));
    assert_eq!(parts.len(), 2);
    assert!(parts[0].field("text").unwrap().as_str().unwrap().ends_with("Text: note text"));
    let inline = parts[1].field("inlineData").unwrap();
    assert_eq!(inline.field("mimeType"), Some(&text("image/png")));
    assert_eq!(inline.field("data"), Some(&text("TWFu")));
}

#[test]
fn pattern_and_link_texts() {
    assert_eq!(unwrap_pattern(r"C\+\+"), r"(?i)\[+C\+\+\]+");
    assert_eq!(wrap_pattern("Alice"), r"(?i)\bAlice\b");
    assert_eq!(entity_link("Alice"), "[[Alice]]");
    assert_eq!(embed_line("a.png"), "\n![[a.png]]");
    assert_eq!(unwrap_pattern(&regex::escape("a.b")), format!(r"(?i)\[+{}\]+", regex::escape("a.b")));
}

#[test]
fn debug_list_framing() {
    let rendered = strings(&["\"a\"", "\"b\""]);
    assert_eq!(debug_list_of(&rendered), "[\"a\", \"b\"]");
    assert_eq!(debug_list_of(&strings(&["x"])), "[x]");
    assert_eq!(debug_list_of(&vec![]), "[]");
}

#[test]
fn handling_steps_fall_back_only_on_failure() {
    let paths = strings(&["attachments/2024/05/a.png"]);
    let raw = "hello\n![[a.png]]".to_string();

    let query = Some(classified(IntentEnum::Query, "cats", &[]));
    let step = first_handling_step(&query, "hello", &paths);
    assert_eq!(step, HandlingStep::Carry(MessagePlan::Query("cats".to_string())));
    assert_eq!(next_handling_step(&step, true, "hello", &paths), HandlingStep::Finish);
    let fallback = next_handling_step(&step, false, "hello", &paths);
    assert_eq!(fallback, HandlingStep::AppendFallback(raw.clone()));
    assert_eq!(next_handling_step(&fallback, false, "hello", &paths), HandlingStep::Finish);
    assert_eq!(next_handling_step(&fallback, true, "hello", &paths), HandlingStep::Finish);

    let ask = Some(classified(IntentEnum::Disambiguate, "who?", &[]));
    let step = first_handling_step(&ask, "hello", &paths);
    assert_eq!(step, HandlingStep::Carry(MessagePlan::AskClarification));
    assert_eq!(next_handling_step(&step, true, "hello", &paths), HandlingStep::Finish);
}

#[test]
fn unclassified_message_is_logged_raw() {
    let paths = strings(&["attachments/2024/05/a.png", "attachments/2024/05/b.pdf"]);
    let step = first_handling_step(&None, "hello", &paths);
    assert_eq!(step, HandlingStep::AppendFallback("hello\n![[a.png]]\n![[b.pdf]]".to_string()));
    assert_eq!(next_handling_step(&step, true, "hello", &paths), HandlingStep::Finish);
    assert_eq!(next_handling_step(&HandlingStep::Finish, false, "hello", &paths), HandlingStep::Finish);
}

#[test]
fn bracketed_entity_in_other_case_gets_one_pair() {
    assert_eq!(link_entity_in("see [[alice]]".to_string(), "Alice"), "see [[Alice]]");
    assert_eq!(link_entity_in("[[[ALICE]] and alice".to_string(), "Alice"), "[[Alice]] and [[Alice]]");
    let c = classified(IntentEnum::Note, "see [[alice]]", &["Alice"]);
    assert_eq!(plan_for(&c, &vec![]), MessagePlan::AppendLog("see [[Alice]]".to_string()));
}
