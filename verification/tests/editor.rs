use muse::editor::{parse_job_status, EditorState, JobStatus, MAX_LOG_LINES};
use muse::log::LogLevel;
use muse::prompt::MuseMode;

fn is_clock_text(t: &str) -> bool {
    let b = t.as_bytes();
    b.len() == 8
        && b[2] == b':'
        && b[5] == b':'
        && [0, 1, 3, 4, 6, 7].iter().all(|&i| b[i].is_ascii_digit())
}

#[test]
fn new_editor_logs_start_line() {
    let e = EditorState::new();
    assert_eq!(e.logs.len(), 1);
    assert_eq!(e.logs[0].level, LogLevel::Info);
    assert_eq!(e.logs[0].message, "Muse initialized");
    assert!(is_clock_text(&e.logs[0].timestamp), "{}", e.logs[0].timestamp);
    assert!(!e.loaded_character && !e.loaded_motion);
    assert_eq!(e.prompt_panel.mode, MuseMode::TextToCharacter);
}

#[test]
fn push_log_keeps_newest_two_hundred_lines() {
    let mut e = EditorState::new();
    for i in 0..250 {
        e.push_log(LogLevel::Warn, &format!("line {i}"));
        assert!(e.logs.len() <= MAX_LOG_LINES);
    }
    assert_eq!(e.logs.len(), 200);
    assert_eq!(e.logs[0].message, "line 50");
    assert_eq!(e.logs[199].message, "line 249");
    assert_eq!(e.logs[199].level, LogLevel::Warn);
    assert!(is_clock_text(&e.logs[199].timestamp));
}

#[test]
fn push_log_at_uses_given_timestamp() {
    let mut e = EditorState::new();
    e.push_log_at(LogLevel::Error, "boom", "12:34:56".to_string());
    let last = e.logs.last().unwrap();
    assert_eq!(last.timestamp, "12:34:56");
    assert_eq!(last.message, "boom");
    assert_eq!(last.level, LogLevel::Error);
}

#[test]
fn take_generate_request_logs_and_returns_request() {
    let mut e = EditorState::new();
    assert!(e.take_generate_request().is_none());
    assert_eq!(e.logs.len(), 1);
    e.prompt_panel.mode = MuseMode::TextToMotion;
    e.prompt_panel.prompt = "walk".to_string();
    e.prompt_panel.generate_clicked = true;
    let r = e.take_generate_request().unwrap();
    assert_eq!(r.job_type, "text_to_motion");
    assert_eq!(r.prompt, "walk");
    assert_eq!(e.logs.len(), 2);
    assert_eq!(e.logs[1].message, "Sent generate request: text_to_motion");
    assert_eq!(e.logs[1].level, LogLevel::Info);
    assert!(!e.prompt_panel.generate_clicked);
    assert!(e.take_generate_request().is_none());
}

#[test]
fn loaded_results_set_flags_and_log() {
    let mut e = EditorState::new();
    e.character_loaded();
    assert!(e.loaded_character && !e.loaded_motion);
    assert_eq!(e.logs.last().unwrap().message, "Character loaded");
    assert_eq!(e.logs.last().unwrap().level, LogLevel::Success);
    e.motion_loaded();
    assert!(e.loaded_motion);
    assert_eq!(e.logs.last().unwrap().message, "Motion loaded");
}

#[test]
fn job_status_texts() {
    assert_eq!(parse_job_status("queued"), Some(JobStatus::Queued));
    assert_eq!(parse_job_status("running"), Some(JobStatus::Running));
    assert_eq!(parse_job_status("completed"), Some(JobStatus::Completed));
    assert_eq!(parse_job_status("failed"), Some(JobStatus::Failed));
    assert_eq!(parse_job_status("Queued"), None);
    assert_eq!(parse_job_status(""), None);
    assert_eq!(parse_job_status("running "), None);
}
