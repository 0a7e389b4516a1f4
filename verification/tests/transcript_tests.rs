use deepcanvas_core::transcript::{
    aggregate_messages, build_agent_session, encode_cwd, transcript_lines, CacheBlock, TaskState,
    TimeBlock, TokenBlock, TranscriptAggregate, TranscriptMessage,
};

fn msg(role: &str, model: Option<&str>, input: u64, output: u64, cache: Option<(u64, u64)>, created: Option<i64>) -> TranscriptMessage {
    TranscriptMessage {
        role: Some(role.to_string()),
        model_id: model.map(|m| m.to_string()),
        tokens: Some(TokenBlock { input, output, cache: cache.map(|(read, write)| CacheBlock { read, write }) }),
        time: created.map(|created| TimeBlock { created }),
    }
}

#[test]
fn encode_cwd_replaces_separators() {
    assert_eq!(encode_cwd("/Users/uygun/work/foo"), "-Users-uygun-work-foo");
    assert_eq!(encode_cwd("C:\\work\\foo"), "C:-work-foo");
    assert_eq!(encode_cwd(""), "");
}

#[test]
fn transcript_lines_are_trimmed_and_non_empty() {
    let raw = "{\"a\":1}\n\n   \n  {\"b\":2}  \r\n{\"c\":3}";
    assert_eq!(transcript_lines(raw), vec!["{\"a\":1}", "{\"b\":2}", "{\"c\":3}"]);
    assert!(transcript_lines("").is_empty());
}

#[test]
fn aggregate_counts_assistant_messages_in_window() {
    let msgs = vec![
        msg("assistant", Some("model-beta"), 10, 20, Some((5, 1)), Some(150)),
        msg("user", Some("ignored-model"), 1000, 1000, None, Some(150)),
        msg("assistant", Some("model-alpha"), 1, 2, None, Some(200)),
        msg("assistant", Some("model-beta"), 3, 4, Some((0, 7)), Some(100)),
        msg("assistant", Some("too-late"), 100, 100, None, Some(201)),
        msg("assistant", Some("too-early"), 100, 100, None, Some(99)),
        msg("assistant", Some(""), 1, 1, None, Some(120)),
        msg("assistant", None, 1, 1, None, None),
    ];
    let agg = aggregate_messages(&msgs, 100, 200);
    assert_eq!(agg.input_tokens, 10 + 1 + 3 + 1);
    assert_eq!(agg.output_tokens, 20 + 2 + 4 + 1);
    assert_eq!(agg.cache_read_tokens, 5);
    assert_eq!(agg.cache_write_tokens, 8);
    assert_eq!(agg.message_count, 4);
    assert_eq!(agg.model_ids, vec!["model-alpha".to_string(), "model-beta".to_string()]);
    assert_eq!(agg.total_tokens(), 15 + 27 + 5 + 8);
}

#[test]
fn messages_without_time_count_from_epoch() {
    let msgs = vec![msg("assistant", Some("m"), 1, 1, None, None)];
    assert_eq!(aggregate_messages(&msgs, 0, 10).message_count, 1);
    assert_eq!(aggregate_messages(&msgs, 1, 10).message_count, 0);
    let no_role = TranscriptMessage { role: None, model_id: None, tokens: None, time: None };
    assert_eq!(aggregate_messages(&vec![no_role], 0, 10).message_count, 0);
}

fn agg() -> TranscriptAggregate {
    TranscriptAggregate {
        input_tokens: 1,
        output_tokens: 2,
        cache_read_tokens: 3,
        cache_write_tokens: 4,
        message_count: 5,
        model_ids: vec!["m".into()],
    }
}

#[test]
fn agent_session_from_state_and_usage() {
    let state = TaskState { started_at_ms: 1_000, transcript_dir: "/t".into() };
    let s = build_agent_session(Some(state.clone()), Some(agg()), 62_500, Some("/repo".into()), "agent-x".into()).unwrap();
    assert_eq!(s.agent_code, "agent-x");
    assert_eq!(s.local_repo, Some("/repo".to_string()));
    assert_eq!(s.duration_seconds, 61);
    assert_eq!(s.tokens_used, 10);
    assert_eq!(s.metadata.message_count, 5);
    assert_eq!(s.metadata.model_ids, vec!["m".to_string()]);
    assert_eq!(s.metadata.started_at_ms, 1_000);
    assert_eq!(s.metadata.ended_at_ms, 62_500);
    let s = build_agent_session(Some(state.clone()), Some(agg()), 500, None, "codex".into()).unwrap();
    assert_eq!(s.duration_seconds, 0);
    assert_eq!(s.agent_code, "codex");
    assert!(build_agent_session(None, Some(agg()), 0, None, String::new()).is_none());
    assert!(build_agent_session(Some(state), None, 0, None, String::new()).is_none());
}

#[test]
fn aggregate_ignores_message_order() {
    let msgs = vec![
        msg("assistant", Some("zeta"), 10, 20, Some((5, 1)), Some(150)),
        msg("assistant", Some("alpha"), 1, 2, None, Some(160)),
        msg("user", Some("beta"), 7, 7, None, Some(160)),
        msg("assistant", Some("zeta"), 3, 4, Some((2, 2)), Some(170)),
    ];
    let mut shuffled = vec![msgs[3].clone(), msgs[0].clone(), msgs[2].clone(), msgs[1].clone()];
    let a = aggregate_messages(&msgs, 100, 200);
    let b = aggregate_messages(&shuffled, 100, 200);
    assert_eq!(a.input_tokens, b.input_tokens);
    assert_eq!(a.output_tokens, b.output_tokens);
    assert_eq!(a.cache_read_tokens, b.cache_read_tokens);
    assert_eq!(a.cache_write_tokens, b.cache_write_tokens);
    assert_eq!(a.message_count, b.message_count);
    assert_eq!(a.model_ids, b.model_ids);
    assert_eq!(b.model_ids, vec!["alpha".to_string(), "zeta".to_string()]);
    shuffled.reverse();
    assert_eq!(aggregate_messages(&shuffled, 100, 200).input_tokens, 14);
}

#[test]
fn wider_window_counts_at_least_as_much() {
    let msgs = vec![
        msg("assistant", Some("a"), 1, 1, None, Some(100)),
        msg("assistant", Some("b"), 2, 2, Some((1, 1)), Some(150)),
        msg("assistant", Some("c"), 4, 4, None, Some(300)),
    ];
    let narrow = aggregate_messages(&msgs, 120, 200);
    let wide = aggregate_messages(&msgs, 50, 400);
    assert_eq!(narrow.message_count, 1);
    assert_eq!(wide.message_count, 3);
    assert!(narrow.input_tokens <= wide.input_tokens);
    assert!(narrow.model_ids.iter().all(|m| wide.model_ids.contains(m)));
}

#[test]
fn agent_session_without_transcripts_ignores_extreme_start() {
    let state = TaskState { started_at_ms: i64::MIN, transcript_dir: "/t".into() };
    assert!(build_agent_session(Some(state), None, i64::MAX, None, "agent-x".into()).is_none());
}
