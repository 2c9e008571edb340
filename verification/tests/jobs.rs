use muse::jobs::{GenerationStatus, JobState, JobUpdate};

fn update(id: &str, status: &str, progress: f64, error: Option<&str>) -> JobUpdate {
    JobUpdate {
        id: id.to_string(),
        job_type: "mesh".to_string(),
        status: status.to_string(),
        progress_bits: progress.to_bits(),
        error: error.map(|e| e.to_string()),
    }
}

fn state_of<'a>(s: &'a GenerationStatus, id: &str) -> Option<&'a JobState> {
    s.jobs.iter().find(|j| j.id == id).map(|j| &j.state)
}

#[test]
fn queued_job_is_listed_last_once() {
    let mut s = GenerationStatus::new();
    s.apply_update(update("a", "queued", 0.0, None));
    s.apply_update(update("b", "queued", 0.0, None));
    s.apply_update(update("a", "queued", 0.0, None));
    let ids: Vec<&str> = s.jobs.iter().map(|j| j.id.as_str()).collect();
    assert_eq!(ids, vec!["b", "a"]);
    assert!(matches!(state_of(&s, "a"), Some(JobState::Queued)));
}

#[test]
fn running_completed_and_failed_updates_set_the_state() {
    let mut s = GenerationStatus::new();
    s.apply_update(update("a", "queued", 0.0, None));
    s.apply_update(update("b", "queued", 0.0, None));
    s.apply_update(update("a", "running", 0.3, None));
    match state_of(&s, "a") {
        Some(JobState::Running(p)) => assert_eq!(f32::from_bits(*p), 0.3f64 as f32),
        _ => panic!("not running"),
    }
    assert!(matches!(state_of(&s, "b"), Some(JobState::Queued)));
    s.apply_update(update("a", "completed", 1.0, None));
    assert!(matches!(state_of(&s, "a"), Some(JobState::Completed)));
    s.apply_update(update("b", "failed", 0.0, Some("out of memory")));
    match state_of(&s, "b") {
        Some(JobState::Failed(e)) => assert_eq!(e, "out of memory"),
        _ => panic!("not failed"),
    }
    s.apply_update(update("a", "failed", 0.0, None));
    match state_of(&s, "a") {
        Some(JobState::Failed(e)) => assert_eq!(e, ""),
        _ => panic!("not failed"),
    }
}

#[test]
fn updates_for_unknown_jobs_or_statuses_change_nothing() {
    let mut s = GenerationStatus::new();
    s.apply_update(update("x", "running", 0.5, None));
    assert!(s.jobs.is_empty());
    s.apply_update(update("a", "queued", 0.0, None));
    s.apply_update(update("a", "paused", 0.5, None));
    assert_eq!(s.jobs.len(), 1);
    assert!(matches!(state_of(&s, "a"), Some(JobState::Queued)));
}
