use uriel::gemini_file_api::{
    upload_bytes_headers, upload_start_headers, upload_start_payload, upload_start_url,
    GeminiFile, MISSING_UPLOAD_URL,
};
use uriel::indexer::{collect_entities, entity_folders, entity_name, INDEX_INTERVAL_SECS};
use uriel::json::Json;
use uriel::rag::{crawl_report, obsidian_args, ripgrep_args, search_report, CommandOutcome};

fn done(success: bool, code: Option<i32>, out: &str, err: &str) -> CommandOutcome {
    CommandOutcome::Finished {
        success,
        code,
        stdout: out.to_string(),
        stderr: err.to_string(),
    }
}

#[test]
fn ripgrep_arguments() {
    assert_eq!(
        ripgrep_args("-rf", "/vault"),
        vec!["-i", "-C", "2", "-m", "5", "--", "-rf", "/vault"]
    );
}

#[test]
fn search_report_cases() {
    assert_eq!(search_report(&done(true, Some(0), "hit\n", "")), "hit\n");
    assert_eq!(search_report(&done(false, Some(1), "", "")), "No matches found.");
    assert_eq!(search_report(&done(false, Some(1), "", "oops")), "Error running ripgrep: oops");
    assert_eq!(search_report(&done(false, Some(2), "", "")), "Error running ripgrep: ");
    assert_eq!(search_report(&done(false, None, "", "")), "Error running ripgrep: ");
    assert_eq!(
        search_report(&CommandOutcome::NotRun("no rg".to_string())),
        "Failed to execute ripgrep command: no rg"
    );
}

#[test]
fn crawl_report_sections() {
    let r = crawl_report(&done(true, Some(0), "A\n", ""), &done(false, Some(1), "", ""));
    assert_eq!(
        r,
        "=== Backlinks ===\nA\n\n=== Outgoing Links ===\nNo outgoing links found or error retrieving them.\n"
    );
    let r = crawl_report(&CommandOutcome::NotRun("x".to_string()), &CommandOutcome::NotRun("y".to_string()));
    assert_eq!(
        r,
        "=== Backlinks ===\nFailed to execute obsidian CLI for backlinks.\n\n=== Outgoing Links ===\nFailed to execute obsidian CLI for outgoing links.\n"
    );
    let r = crawl_report(&done(false, Some(3), "", "e"), &done(true, Some(0), "B", ""));
    assert_eq!(
        r,
        "=== Backlinks ===\nNo backlinks found or error retrieving them.\n\n=== Outgoing Links ===\nB"
    );
}

#[test]
fn obsidian_arguments() {
    assert_eq!(obsidian_args("backlinks", "Alice"), vec!["backlinks", "file=Alice"]);
}

#[test]
fn entity_names_from_markdown_files() {
    assert_eq!(entity_name("Alice.md"), Some("Alice".to_string()));
    assert_eq!(entity_name("a.md.md"), Some("a".to_string()));
    assert_eq!(entity_name(".md"), Some("".to_string()));
    assert_eq!(entity_name("notes.txt"), None);
    assert_eq!(entity_name("md"), None);
    assert_eq!(entity_name("x.md").unwrap(), "x.md".trim_end_matches(".md"));
}

#[test]
fn collect_entities_keeps_files_only() {
    let entries = vec![
        (true, "Alice.md".to_string()),
        (false, "Folder.md".to_string()),
        (true, "image.png".to_string()),
        (true, "Project X.md".to_string()),
    ];
    assert_eq!(collect_entities(&entries), vec!["Alice", "Project X"]);
    assert_eq!(entity_folders(), vec!["Person", "Projects"]);
    assert_eq!(INDEX_INTERVAL_SECS, 300);
}

#[test]
fn upload_requests() {
    assert_eq!(
        upload_start_url("K"),
        "https://generativelanguage.googleapis.com/upload/v1beta/files?uploadType=resumable&key=K"
    );
    assert_eq!(
        upload_start_payload("a.png"),
        Json::Object(vec![(
            "file".to_string(),
            Json::Object(vec![("display_name".to_string(), Json::Str("a.png".to_string()))])
        )])
    );
    let h = upload_start_headers(1234, "image/png");
    let expect: Vec<(String, String)> = vec![
        ("X-Goog-Upload-Protocol", "resumable"),
        ("X-Goog-Upload-Command", "start"),
        ("X-Goog-Upload-Header-Content-Length", "1234"),
        ("X-Goog-Upload-Header-Content-Type", "image/png"),
        ("Content-Type", "application/json"),
    ]
    .into_iter()
    .map(|(a, b)| (a.to_string(), b.to_string()))
    .collect();
    assert_eq!(h, expect);
    let h = upload_bytes_headers(0);
    assert_eq!(h[0], ("Content-Length".to_string(), "0".to_string()));
    assert_eq!(h[2], ("X-Goog-Upload-Command".to_string(), "upload, finalize".to_string()));
    assert_eq!(MISSING_UPLOAD_URL, "Missing upload URL");
    let f = GeminiFile { uri: "u".to_string() };
    assert_eq!(f.uri, "u");
}
