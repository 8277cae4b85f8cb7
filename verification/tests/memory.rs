use alice::memory::{
    build_turn_record, embedding_text, extract_keywords, render_recall_context, sanitize_fts_query,
    select_keywords, truncate, MemoryImportance, MemoryRecord, MemorySettings, MemoryValidationError,
};

fn record(topic: &str, summary: &str) -> MemoryRecord {
    MemoryRecord {
        id: "m1".to_string(),
        session_id: "s1".to_string(),
        topic: topic.to_string(),
        summary: summary.to_string(),
        raw_excerpt: String::new(),
        keywords: vec![],
        importance: MemoryImportance::Medium,
        created_at_epoch_ms: 0,
    }
}

#[test]
fn memory_importance_as_str() {
    assert_eq!(MemoryImportance::Low.as_str(), "low");
    assert_eq!(MemoryImportance::Medium.as_str(), "medium");
    assert_eq!(MemoryImportance::High.as_str(), "high");
}

#[test]
fn memory_importance_from_db_roundtrip() {
    for variant in [MemoryImportance::Low, MemoryImportance::Medium, MemoryImportance::High] {
        assert_eq!(MemoryImportance::from_db(variant.as_str()), Ok(variant));
    }
    assert!(MemoryImportance::from_db("unknown").is_err());
}

#[test]
fn unknown_importance_names_the_value() {
    assert_eq!(
        MemoryImportance::from_db("urgent"),
        Err(MemoryValidationError::InvalidImportance("urgent".to_string()))
    );
}

#[test]
fn sanitize_replaces_operators() {
    let sanitized = sanitize_fts_query("sqlite-vec + fts5");
    assert!(!sanitized.contains('-'));
    assert!(!sanitized.contains('+'));
}

#[test]
fn sanitize_empty_query() {
    let result = sanitize_fts_query("");
    assert!(result.is_empty());
}

#[test]
fn sanitize_unicode_input() {
    let result = sanitize_fts_query("\u{4F60}\u{597D} world");
    assert!(result.contains("\u{4F60}\u{597D}"));
    assert!(result.contains("world"));
}

#[test]
fn sanitize_quotes_each_word() {
    assert_eq!(sanitize_fts_query("sqlite-vec + fts5"), "\"sqlite\" \"vec\" \"fts5\"");
    assert_eq!(sanitize_fts_query("  (a:b)  \"c\" "), "\"a\" \"b\" \"c\"");
    assert_eq!(sanitize_fts_query("*-+~^"), "");
}

#[test]
fn render_empty_hits_returns_none() {
    assert!(render_recall_context(&[]).is_none());
}

#[test]
fn render_recall_context_with_hits() {
    let rendered = render_recall_context(&[record("rust", "ownership rules")]);
    assert!(rendered.is_some());
    let Ok(text) = rendered.ok_or("none") else {
        return;
    };
    assert!(text.contains("1."));
    assert!(text.contains("[rust]"));
    assert!(text.contains("ownership rules"));
}

#[test]
fn render_recall_context_numbers_lines() {
    let rendered = render_recall_context(&[record("a", "  first  "), record("b", "second")]);
    assert_eq!(
        rendered,
        Some("Relevant prior memory:\n1. [a] first\n2. [b] second\n".to_string())
    );
}

#[test]
fn recall_limit_must_be_positive() {
    assert_eq!(MemorySettings::new(0, 128, false), Err(MemoryValidationError::InvalidRecallLimit));
    let s = MemorySettings::new(5, 0, true).expect("valid");
    assert_eq!(s.vector_dimensions, 1);
    assert_eq!(s.recall_limit, 5);
}

#[test]
fn truncate_keeps_leading_characters() {
    assert_eq!(truncate("h\u{e9}llo", 2), "h\u{e9}");
    assert_eq!(truncate("abc", 10), "abc");
    assert_eq!(truncate("abc", 0), "");
}

#[test]
fn keywords_are_long_lowercase_unique_tokens() {
    let k = extract_keywords("Remember SQLite, sqlite!", "We use Rust and SQLite");
    assert_eq!(k, vec!["remember", "sqlite", "rust"]);
    assert_eq!(extract_keywords("hi", "ok"), vec!["conversation"]);
}

#[test]
fn keyword_selection_stops_at_twelve() {
    let tokens: Vec<String> = (0..20).map(|i| format!("word{i:02}")).collect();
    let selected = select_keywords(&tokens);
    assert_eq!(selected.len(), 12);
    assert_eq!(selected[0], "word00");
    assert_eq!(selected[11], "word11");
}

#[test]
fn turn_record_holds_the_turn() {
    let r = build_turn_record("s1", "  user asks ", " assistant answers ", 1_700, 7);
    assert_eq!(r.id, "mem-1700-0007");
    assert_eq!(r.session_id, "s1");
    assert_eq!(r.topic, "s1");
    assert_eq!(r.summary, "assistant answers");
    assert_eq!(r.raw_excerpt, "user: user asks\nassistant: assistant answers");
    assert_eq!(r.importance, MemoryImportance::Medium);
    assert_eq!(r.created_at_epoch_ms, 1_700);
    assert_eq!(embedding_text(" a ", " b "), "a b");
}

#[test]
fn turn_recorder_counts_records() {
    let mut rec = alice::memory::TurnRecorder::new();
    let a = rec.record_turn("s", "question here", "answer");
    let b = rec.record_turn("s", "q", "a");
    assert!(a.id.ends_with("-0001"));
    assert!(b.id.ends_with("-0002"));
    assert!(a.id.starts_with("mem-"));
}

#[test]
fn sanitizing_twice_changes_nothing() {
    for input in ["rust-lang (async) \"quoted\" x:y", "", "  plain words  ", "ünïcode ~tilde^"] {
        let once = sanitize_fts_query(input);
        assert_eq!(sanitize_fts_query(&once), once);
    }
}

#[test]
fn keywords_keep_first_occurrence_order() {
    let k = extract_keywords("Zeta alpha, ZETA! beta", "alpha gamma Delta");
    assert_eq!(k, vec!["zeta", "alpha", "beta", "gamma", "delta"]);
}
