use muse::prompt::{decimal_string, parse_seed, MuseMode, PromptPanel};

#[test]
fn parse_seed_reads_decimal_numbers() {
    assert_eq!(parse_seed("42"), Some(42));
    assert_eq!(parse_seed("+7"), Some(7));
    assert_eq!(parse_seed("0"), Some(0));
    assert_eq!(parse_seed("007"), Some(7));
    assert_eq!(parse_seed("18446744073709551615"), Some(u64::MAX));
}

#[test]
fn parse_seed_rejects_other_text() {
    for t in ["", "+", "-", "-1", "18446744073709551616", "99999999999999999999", "1a", " 1", "1 ", "++1", "١"] {
        assert_eq!(parse_seed(t), None, "{t:?}");
    }
}

#[test]
fn parse_seed_agrees_with_std_parse() {
    let cases = [
        "", "0", "+0", "-0", "12", "+", "+12", "1+2", "4294967296", "18446744073709551615",
        "18446744073709551616", "000000000000000000000001", "abc", "9 ", "٣",
    ];
    for t in cases {
        assert_eq!(parse_seed(t), t.parse::<u64>().ok(), "{t:?}");
    }
}

#[test]
fn seed_text_reads_back_as_the_seed() {
    for v in [0u64, 9, 10, 12345, u64::MAX] {
        let text = decimal_string(v);
        assert_eq!(text, v.to_string());
        assert_eq!(parse_seed(&text), Some(v));
    }
    let mut p = PromptPanel::new();
    assert_eq!(p.seed_text(), "");
    p.seed = Some(31337);
    let t = p.seed_text();
    p.set_seed_text(&t);
    assert_eq!(p.seed, Some(31337));
    p.set_seed_text("x");
    assert_eq!(p.seed, None);
}

#[test]
fn new_panel_defaults() {
    let p = PromptPanel::new();
    assert!(p.visible);
    assert_eq!(p.mode, MuseMode::TextToCharacter);
    assert!(p.prompt.is_empty() && p.style_prompt.is_empty());
    assert_eq!(p.seed, None);
    assert!(!p.generate_clicked);
}

#[test]
fn take_generate_consumes_the_click() {
    let mut p = PromptPanel::new();
    assert!(!p.take_generate());
    p.generate_clicked = true;
    assert!(p.take_generate());
    assert!(!p.take_generate());
}

#[test]
fn job_types_per_mode() {
    let mut p = PromptPanel::new();
    let cases = [
        (MuseMode::TextToCharacter, "text_to_mesh"),
        (MuseMode::TextToMotion, "text_to_motion"),
        (MuseMode::PoseStaging, "pose_interpolation"),
        (MuseMode::StyleTransfer, "style_transfer"),
        (MuseMode::Retarget, "retarget"),
    ];
    for (m, j) in cases {
        p.mode = m;
        assert_eq!(p.job_type(), j);
    }
}

#[test]
fn generate_request_carries_style_prompt_only_for_style_transfer() {
    let mut p = PromptPanel::new();
    p.prompt = "a knight".to_string();
    p.style_prompt = "noir".to_string();
    p.seed = Some(5);
    let r = p.generate_request();
    assert_eq!(r.job_type, "text_to_mesh");
    assert_eq!(r.prompt, "a knight");
    assert_eq!(r.seed, Some(5));
    assert!(r.style_prompt.is_none());
    p.mode = MuseMode::StyleTransfer;
    let r = p.generate_request();
    assert_eq!(r.job_type, "style_transfer");
    assert_eq!(r.style_prompt.as_deref(), Some("noir"));
}
