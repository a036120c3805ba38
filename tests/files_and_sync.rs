use kiri::config::{default_model_path_in, join_path, models_dir_in, notes_dir_in, wake_model_path_in, wakewords_dir_in};
use kiri::notes::{note_entry, split_stamp};
use kiri::sync::{commit_message, push_notes, status, SyncError};

#[test]
fn paths_join_with_one_separator() {
    assert_eq!(join_path("/home/u", "kiri"), "/home/u/kiri");
    assert_eq!(join_path("/home/u/", "kiri"), "/home/u/kiri");
    assert_eq!(notes_dir_in("/home/u"), "/home/u/kiri");
    assert_eq!(models_dir_in("/d"), "/d/kiri/models");
    assert_eq!(default_model_path_in("/d"), "/d/kiri/models/ggml-medium.bin");
    assert_eq!(wake_model_path_in("/d/"), "/d/kiri/models/ggml-tiny.bin");
    assert_eq!(wakewords_dir_in("/d"), "/d/kiri/wakewords");
}

#[test]
fn note_entry_text() {
    let e = note_entry("2024-05-01", "09:30", "buy milk");
    assert_eq!(e.file_name, "2024-05-01.md");
    assert_eq!(e.header, "# 2024-05-01\n\n");
    assert_eq!(e.body, "<!-- 09:30 -->\nbuy milk\n\n");
}

#[test]
fn sync_status_report() {
    assert_eq!(status(false, "/home/u/kiri", ""), "Not a git repo: /home/u/kiri");
    assert_eq!(
        status(true, "/home/u/kiri", "abc first\n"),
        "Notes dir: /home/u/kiri\nRecent commits:\nabc first\n"
    );
}

#[test]
fn push_needs_a_repository() {
    assert_eq!(push_notes(false), Err(SyncError::NotARepo));
    assert_eq!(push_notes(true), Ok(vec!["push", "-u", "origin", "main"]));
    assert_eq!(SyncError::NotARepo.message(), "Not a git repo. Run: kiri sync --init <url>");
}

#[test]
fn commit_message_is_stamped() {
    assert_eq!(commit_message("2024-05-01 09:30"), "kiri: notes update 2024-05-01 09:30");
}

#[test]
fn stamps_split_at_first_space() {
    assert_eq!(split_stamp("2024-05-01 09:30"), ("2024-05-01".to_string(), "09:30".to_string()));
    assert_eq!(split_stamp("2024-05-01"), ("2024-05-01".to_string(), String::new()));
    assert_eq!(split_stamp("a b c"), ("a".to_string(), "b c".to_string()));
}
