use mjai_batch::lines::render_lines;

#[test]
fn three_events_give_three_lines() {
    let events = vec![
        r#"{"type":"start_game"}"#.to_string(),
        r#"{"type":"start_kyoku"}"#.to_string(),
        r#"{"type":"end_game"}"#.to_string(),
    ];
    let text = render_lines(&events);
    assert_eq!(
        text,
        "{\"type\":\"start_game\"}\n{\"type\":\"start_kyoku\"}\n{\"type\":\"end_game\"}\n"
    );
    let back: Vec<&str> = text.lines().collect();
    assert_eq!(back.len(), 3);
    assert_eq!(back, events.iter().map(String::as_str).collect::<Vec<_>>());
}

#[test]
fn no_events_give_empty_text() {
    assert_eq!(render_lines(&Vec::new()), "");
}

#[test]
fn empty_line_is_kept() {
    let lines = vec![String::new(), "x".to_string()];
    assert_eq!(render_lines(&lines), "\nx\n");
}

#[test]
fn rendering_is_deterministic() {
    let lines = vec!["{\"a\":1}".to_string(), "{\"b\":2}".to_string()];
    assert_eq!(render_lines(&lines), render_lines(&lines.clone()));
}
