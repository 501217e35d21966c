use uriel::media_handler::{
    attachment_dir, sanitize_filename, too_large_message, vault_relative_path, AttachmentName,
    CreateOutcome, DownloadBuffer, DownloadError, NameStep, MAX_DOWNLOAD_SIZE,
};

#[test]
fn sanitize_replaces_both_separators() {
    assert_eq!(sanitize_filename("a/b\\c"), "a_b_c");
    assert_eq!(sanitize_filename("plain.png"), "plain.png");
    assert_eq!(sanitize_filename("../../etc/passwd"), ".._.._etc_passwd");
    assert_eq!(sanitize_filename(""), "");
}

#[test]
fn sanitize_twice_is_sanitize_once() {
    let once = sanitize_filename("x/y\\z/w");
    assert_eq!(sanitize_filename(&once), once);
}

#[test]
fn attempt_names_put_counter_before_extension() {
    let n = AttachmentName::new("photo.png");
    assert_eq!(n.attempt(0), "photo.png");
    assert_eq!(n.attempt(1), "photo-1.png");
    assert_eq!(n.attempt(12), "photo-12.png");
}

#[test]
fn attempt_names_split_at_last_dot() {
    let n = AttachmentName::new("archive.tar.gz");
    assert_eq!(n.attempt(2), "archive.tar-2.gz");
    let plain = AttachmentName::new("README");
    assert_eq!(plain.attempt(0), "README");
    assert_eq!(plain.attempt(3), "README-3");
    let hidden = AttachmentName::new(".hidden");
    assert_eq!(hidden.attempt(1), "-1.hidden");
}

#[test]
fn attempt_names_are_sanitized() {
    let n = AttachmentName::new("dir/evil\\name.txt");
    assert_eq!(n.attempt(0), "dir_evil_name.txt");
    assert_eq!(n.attempt(4), "dir_evil_name-4.txt");
}

#[test]
fn attempt_names_differ_for_each_counter() {
    let n = AttachmentName::new("a-1");
    let names: Vec<String> = (0..20).map(|c| n.attempt(c)).collect();
    for i in 0..names.len() {
        for j in 0..names.len() {
            if i != j {
                assert_ne!(names[i], names[j]);
            }
        }
    }
}

#[test]
fn attachment_dir_pads_month() {
    assert_eq!(attachment_dir(2024, 3), "attachments/2024/03");
    assert_eq!(attachment_dir(2024, 12), "attachments/2024/12");
    assert_eq!(attachment_dir(-5, 1), "attachments/-5/01");
    assert_eq!(attachment_dir(7, 100), "attachments/7/100");
}

#[test]
fn attachment_dir_matches_std_formatting() {
    for (y, m) in [(1999i32, 1u32), (2025, 9), (10000, 11), (0, 7)] {
        let expected = std::path::PathBuf::from("attachments")
            .join(y.to_string())
            .join(format!("{:02}", m));
        assert_eq!(attachment_dir(y, m), expected.to_string_lossy());
    }
}

#[test]
fn relative_path_joins_with_slash() {
    assert_eq!(vault_relative_path("attachments/2024/03", "photo-1.png"), "attachments/2024/03/photo-1.png");
    let expected = std::path::PathBuf::from("attachments/2024/03").join("x.ogg");
    assert_eq!(vault_relative_path("attachments/2024/03", "x.ogg"), expected.to_string_lossy());
}

#[test]
fn download_buffer_accepts_up_to_limit() {
    let mut b = DownloadBuffer::new();
    assert_eq!(b.push_chunk(&[1, 2, 3]), Ok(()));
    assert_eq!(b.push_chunk(&[4]), Ok(()));
    assert_eq!(b.into_bytes(), vec![1, 2, 3, 4]);
}

#[test]
fn download_buffer_refuses_over_limit() {
    let mut b = DownloadBuffer::new();
    let big = vec![0u8; MAX_DOWNLOAD_SIZE - 1];
    assert_eq!(b.push_chunk(&big), Ok(()));
    assert_eq!(b.push_chunk(&[7]), Ok(()));
    assert_eq!(b.push_chunk(&[8]), Err(DownloadError::TooLarge));
    let bytes = b.into_bytes();
    assert_eq!(bytes.len(), MAX_DOWNLOAD_SIZE);
    assert_eq!(bytes[bytes.len() - 1], 7);
}

#[test]
fn download_limit_is_twenty_mebibytes() {
    assert_eq!(MAX_DOWNLOAD_SIZE, 20 * 1024 * 1024);
    assert_eq!(too_large_message(), "downloaded file exceeds maximum allowed size");
}

#[test]
fn name_steps_store_retry_or_give_up() {
    let n = AttachmentName::new("photo.png");
    assert_eq!(n.after_attempt(0, CreateOutcome::Created), NameStep::Store("photo.png".to_string()));
    assert_eq!(n.after_attempt(0, CreateOutcome::NameTaken), NameStep::Retry(1, "photo-1.png".to_string()));
    assert_eq!(n.after_attempt(1, CreateOutcome::NameTaken), NameStep::Retry(2, "photo-2.png".to_string()));
    assert_eq!(n.after_attempt(2, CreateOutcome::Created), NameStep::Store("photo-2.png".to_string()));
    assert_eq!(n.after_attempt(3, CreateOutcome::Failed), NameStep::GiveUp);
}

#[test]
fn first_free_name_is_taken() {
    let n = AttachmentName::new("notes/scan.pdf");
    let taken = ["notes_scan.pdf", "notes_scan-1.pdf", "notes_scan-2.pdf"];
    let mut counter = 0;
    let mut candidate = n.attempt(counter);
    let stored = loop {
        let outcome = if taken.contains(&candidate.as_str()) {
            CreateOutcome::NameTaken
        } else {
            CreateOutcome::Created
        };
        match n.after_attempt(counter, outcome) {
            NameStep::Store(name) => break name,
            NameStep::Retry(next, name) => {
                counter = next;
                candidate = name;
            }
            NameStep::GiveUp => panic!("no failure was reported"),
        }
    };
    assert_eq!(stored, "notes_scan-3.pdf");
}
