use muse::live_editor::{equation_chips, EditorState, RightTab, SendOutcome, MAX_LOG_LINES};
use muse::text::trim_text;
use muse::log::LogLevel;

#[test]
fn new_equation_editor_state() {
    let e = EditorState::new();
    assert_eq!(e.equation, "sqrt(x**2 + y**2 + z**2) - 10.0");
    assert_eq!(e.logs.len(), 1);
    assert_eq!(e.logs[0].message, "Rationalist terminal initialized");
    assert_eq!(e.logs[0].timestamp.len(), 8);
    assert_eq!(e.active_tab, RightTab::Logs);
    assert!(e.uniforms.is_empty());
    assert!(e.error_msg.is_none());
    let names: Vec<&str> = e.templates.iter().map(|t| t.name).collect();
    assert_eq!(names, vec!["Torus knot", "Sphere hole", "Gyroid", "Orbital Tracking", "Mandelbulb", "Infinite Cylinder"]);
    assert_eq!(e.templates[4].equation, "pow(length(p), 8.0) - 1.0");
    assert_eq!(e.templates[3].tag, "physics");
}

#[test]
fn push_log_keeps_newest_hundred_lines() {
    let mut e = EditorState::new();
    for i in 0..150 {
        e.push_log(LogLevel::Info, &format!("{i}"));
    }
    assert_eq!(e.logs.len(), MAX_LOG_LINES);
    assert_eq!(e.logs[0].message, "50");
    assert_eq!(e.logs[99].message, "149");
}

#[test]
fn selecting_a_template_makes_it_active() {
    let mut e = EditorState::new();
    assert!(!e.template_is_active(2));
    e.select_template(2);
    assert_eq!(e.equation, "sin(x)*cos(y) + sin(y)*cos(z) + sin(z)*cos(x)");
    assert!(e.template_is_active(2));
    assert!(!e.template_is_active(0));
    e.append_chip(" ");
    assert!(!e.template_is_active(2));
}

#[test]
fn chips_append_to_equation() {
    let chips = equation_chips();
    assert_eq!(chips, vec!["length(p)", "sqrt(x**2+z**2)", "sin(x)*cos(y)", "max(a,b)", "min(a,b)", "abs(p)", "state.x"]);
    let mut e = EditorState::new();
    e.equation = "1 + ".to_string();
    e.append_chip(chips[6]);
    assert_eq!(e.equation, "1 + state.x");
}

#[test]
fn compile_equation_trims_like_str_trim() {
    let mut e = EditorState::new();
    for t in ["  x + 1 \n", "\u{3000}y\u{2029}", "", "   ", "a b", "\u{85}z\u{a0}", "\u{200b}q"] {
        e.equation = t.to_string();
        assert_eq!(e.compile_equation(), t.trim(), "{t:?}");
        assert_eq!(trim_text(t), t.trim());
    }
}

#[test]
fn send_outcomes_are_logged() {
    let mut e = EditorState::new();
    e.record_send(SendOutcome::Sent);
    assert_eq!(e.logs.last().unwrap().message, "structure broadcasted");
    assert_eq!(e.logs.last().unwrap().level, LogLevel::Success);
    e.record_send(SendOutcome::Failed("channel closed".to_string()));
    assert_eq!(e.logs.last().unwrap().message, "uplink failed: channel closed");
    assert_eq!(e.logs.last().unwrap().level, LogLevel::Error);
    e.record_send(SendOutcome::Disconnected);
    assert_eq!(e.logs.last().unwrap().message, "relay disconnected");
    assert_eq!(e.logs.last().unwrap().level, LogLevel::Warn);
}

#[test]
fn select_tab_switches_panel() {
    let mut e = EditorState::new();
    e.select_tab(RightTab::Uniforms);
    assert_eq!(e.active_tab, RightTab::Uniforms);
}

#[test]
fn relay_payload_is_the_trimmed_equation_as_json() {
    let mut s = EditorState::new();
    s.equation = "  a + \"b\"\n".to_string();
    let payload = s.relay_payload();
    assert_eq!(payload, r#"{"equation":"a + \"b\""}"#);
    let v: serde_json::Value = serde_json::from_str(&payload).unwrap();
    assert_eq!(v["equation"].as_str(), Some("a + \"b\""));
    let d = EditorState::new();
    assert_eq!(d.relay_payload(), r#"{"equation":"sqrt(x**2 + y**2 + z**2) - 10.0"}"#);
}

#[test]
fn relay_payload_escapes_control_characters() {
    let mut s = EditorState::new();
    s.equation = "a\u{1}\\b\u{7f}\t\u{8}\u{c}\u{1f}é".to_string();
    assert_eq!(s.relay_payload(), "{\"equation\":\"a\\u0001\\\\b\u{7f}\\t\\b\\f\\u001fé\"}");
}

#[test]
fn console_lines_are_stamped_hh_mm_ss() {
    let mut s = EditorState::new();
    s.push_log(LogLevel::Info, "x");
    for line in &s.logs {
        let t: Vec<char> = line.timestamp.chars().collect();
        assert_eq!(t.len(), 8);
        for (i, c) in t.iter().enumerate() {
            if i == 2 || i == 5 {
                assert_eq!(*c, ':');
            } else {
                assert!(c.is_ascii_digit());
            }
        }
    }
}
