use muse::log::{push_bounded, LogEntry, LogLevel};

fn entry(i: usize) -> LogEntry {
    LogEntry { timestamp: "00:00:00".to_string(), level: LogLevel::Info, message: i.to_string() }
}

#[test]
fn bounded_push_keeps_at_most_cap_newest_last() {
    let mut logs = Vec::new();
    for i in 0..10 {
        push_bounded(&mut logs, entry(i), 3);
        assert!(logs.len() <= 3);
        assert_eq!(logs.last().unwrap().message, i.to_string());
    }
    let kept: Vec<&str> = logs.iter().map(|e| e.message.as_str()).collect();
    assert_eq!(kept, vec!["7", "8", "9"]);
}

#[test]
fn bounded_push_below_cap_only_appends() {
    let mut logs = vec![entry(0)];
    push_bounded(&mut logs, entry(1), 5);
    assert_eq!(logs.len(), 2);
    assert_eq!(logs[0].message, "0");
}
