use claurst::clock::Timestamp;
use claurst::compact::{
    CompactionReason, CompactionStrategy, TIME_BASED_MC_CLEARED_MESSAGE,
};
use claurst::engine::{
    apply_tool_result_budget, checked_tokens, checked_tool_result_chars, estimate_block_chars,
    estimate_message_tokens, format_compact_summary, QueryEngine, QueryEngineConfig,
    QueryEngineEvent, StopReason, TokenBudget, TokenWarningLevel, TurnResult, CLEARED_NOTICE,
};
use claurst::error::ClaudeError;
use claurst::json::JsonText;
use claurst::types::{ContentBlock, Message, MessageCost, ToolResultContent};

fn tool_result(text: &str) -> ContentBlock {
    ContentBlock::ToolResult {
        tool_use_id: "t".to_string(),
        content: ToolResultContent::Text(text.to_string()),
        is_error: None,
    }
}

fn results(messages: &[Message]) -> Vec<String> {
    let mut out = vec![];
    for m in messages {
        for b in m.get_tool_result_blocks() {
            if let ContentBlock::ToolResult { content: ToolResultContent::Text(t), .. } = b {
                out.push(t.clone());
            }
        }
    }
    out
}

fn text_of(m: &Message) -> String {
    m.get_text().unwrap_or("").to_string()
}

fn texts(engine: &QueryEngine) -> Vec<String> {
    engine.get_messages().iter().map(text_of).collect()
}

fn stop(r: Result<TurnResult, ClaudeError>) -> StopReason {
    let r = r.unwrap();
    assert!(r.message.is_none() && r.usage.is_none());
    r.stop_reason
}

fn shown(events: &[QueryEngineEvent]) -> Vec<String> {
    events
        .iter()
        .map(|e| match e {
            QueryEngineEvent::Status(text) => text.clone(),
            QueryEngineEvent::TokenUsage { used, remaining, .. } => {
                format!("used {} left {}", used, remaining)
            }
            QueryEngineEvent::TokenWarning { level, fraction } => {
                format!("{:?} {}/{}", level, fraction.numerator(), fraction.denominator())
            }
            QueryEngineEvent::AssistantMessage(m) => format!("message {}", text_of(m)),
            QueryEngineEvent::CompactionStart { reason } => format!("start {}", reason.describe()),
            QueryEngineEvent::CompactionComplete { messages_removed, .. } => {
                format!("removed {}", messages_removed)
            }
            QueryEngineEvent::TurnComplete { turn, stop_reason } => {
                format!("turn {} {:?}", turn, stop_reason)
            }
            QueryEngineEvent::BudgetStatus { cost_nanos, limit_nanos } => {
                format!("cost {} of {:?}", cost_nanos, limit_nanos)
            }
            other => format!("{:?}", other),
        })
        .collect()
}

fn engine_with(n: usize) -> QueryEngine {
    let mut engine = QueryEngine::new(QueryEngineConfig::default()).with_event_stream();
    for i in 0..n {
        engine.add_message(Message::user(&format!("m{}", i)));
    }
    engine
}

#[test]
fn test_query_engine_creation() {
    let config = QueryEngineConfig::default();
    let engine = QueryEngine::new(config);

    assert!(!engine.session_id().is_empty());
    assert_eq!(engine.message_count(), 0);
}

#[test]
fn test_add_message() {
    let config = QueryEngineConfig::default();
    let mut engine = QueryEngine::new(config);

    engine.add_message(Message::user("Hello"));
    assert_eq!(engine.message_count(), 1);
}

#[test]
fn query_engine_test_token_estimation() {
    let msg = Message::user("Hello, world! This is a test message.");
    let tokens = estimate_message_tokens(&msg);
    assert!(tokens > 0);
}

#[test]
fn test_compaction_trigger() {
    let config = QueryEngineConfig {
        context_window: 1000,
        auto_compact_enabled: true,
        ..Default::default()
    };
    let mut engine = QueryEngine::new(config);

    // Add many messages to trigger compaction
    for i in 0..20 {
        engine.add_message(Message::user(&format!("Message {}", i).repeat(50)));
    }

    // Should trigger auto-compact at 90%
    let should_compact = engine.should_auto_compact();
    // This depends on the exact estimation, but with 20 long messages,
    // we should be approaching the limit
    assert!(should_compact || engine.estimate_tokens() > 0);
}

#[test]
fn test_pending_messages() {
    let config = QueryEngineConfig::default();
    let mut engine = QueryEngine::new(config);

    engine.queue_pending_message("Pending 1".to_string());
    engine.queue_pending_message("Pending 2".to_string());

    let drained = engine.drain_pending_messages();
    assert_eq!(drained.len(), 2);
}

#[test]
fn test_permission_denials() {
    let config = QueryEngineConfig::default();
    let mut engine = QueryEngine::new(config);

    engine.record_permission_denial("Bash".to_string(), "User denied".to_string());

    let denials = engine.get_permission_denials();
    assert_eq!(denials.len(), 1);
    assert_eq!(denials[0].tool_name, "Bash");
}

#[test]
fn test_clear_conversation() {
    let config = QueryEngineConfig::default();
    let mut engine = QueryEngine::new(config);

    engine.add_message(Message::user("Hello"));
    engine.clear();

    assert_eq!(engine.message_count(), 0);
}

#[test]
fn default_configuration() {
    let config = QueryEngineConfig::default();
    assert_eq!(config.model, "sonnet-4-6");
    assert_eq!(config.max_tokens, 4096);
    assert_eq!(config.max_turns, 100);
    assert_eq!(config.context_window, 200_000);
    assert_eq!(config.tool_result_budget, 50_000);
    assert!(config.auto_compact_enabled);
    assert!(config.max_budget_nanos.is_none() && config.session_id.is_none());
    assert_eq!(config.clone().model, config.model);
    let other = QueryEngineConfig::for_model("opus-4".to_string());
    assert_eq!(other.model, "opus-4");
    assert_eq!(other.max_turns, config.max_turns);
}

#[test]
fn session_ids() {
    let engine = QueryEngine::new(QueryEngineConfig::default());
    let id: Vec<char> = engine.session_id().chars().collect();
    assert_eq!(id.len(), 36);
    for (i, c) in id.iter().enumerate() {
        if [8, 13, 18, 23].contains(&i) {
            assert_eq!(*c, '-');
        } else {
            assert!(c.is_ascii_digit() || ('a'..='f').contains(c));
        }
    }
    assert_eq!(id[14], '4');
    assert!("89ab".contains(id[19]));
    let other = QueryEngine::new(QueryEngineConfig::default());
    assert_ne!(engine.session_id(), other.session_id());
    let config = QueryEngineConfig { session_id: Some("mine".to_string()), ..Default::default() };
    assert_eq!(QueryEngine::new(config).session_id(), "mine");
}

#[test]
fn window_levels() {
    let level = |used, window| TokenBudget::new(used, window).warning_level();
    assert_eq!(level(79, 100), TokenWarningLevel::Normal);
    assert_eq!(level(80, 100), TokenWarningLevel::Warning);
    assert_eq!(level(94, 100), TokenWarningLevel::Warning);
    assert_eq!(level(949, 1000), TokenWarningLevel::Warning);
    assert_eq!(level(95, 100), TokenWarningLevel::Critical);
    assert_eq!(level(95, 0), TokenWarningLevel::Normal);
    let over = TokenBudget::new(150, 100);
    assert_eq!(over.tokens_remaining, 0);
    assert!(over.compaction_due());
    assert_eq!(TokenBudget::new(30, 100).tokens_remaining, 70);
    assert!(!TokenBudget::new(89, 100).compaction_due());
    assert!(TokenBudget::new(90, 100).compaction_due());
}

#[test]
fn token_estimates() {
    assert_eq!(estimate_message_tokens(&Message::user("12345678901")), 8 / 3);
    let image = ContentBlock::Image { source: JsonText::parse("{}").unwrap() };
    assert_eq!(estimate_block_chars(&image), 200);
    let other = ContentBlock::Other {
        block_type: "x".to_string(),
        payload: JsonText::parse("1").unwrap(),
    };
    assert_eq!(estimate_block_chars(&other), 200);
    // Each message is rounded by itself.
    let messages = vec![Message::user("abc"), Message::user("abc")];
    assert_eq!(checked_tokens(&messages), Some(0));
    let mut engine = engine_with(0);
    engine.add_message(Message::user(&"x".repeat(400)));
    engine.add_message(Message::user(&"x".repeat(399)));
    assert_eq!(engine.estimate_tokens(), 133 + 132);
}

#[test]
fn budgets_are_reported() {
    let config = QueryEngineConfig { context_window: 1000, ..Default::default() };
    let mut engine = QueryEngine::new(config).with_event_stream();
    engine.check_token_budget(900);
    assert!(engine.should_auto_compact());
    assert_eq!(engine.token_budget().tokens_remaining, 100);
    assert_eq!(
        shown(&engine.take_events()),
        vec!["used 900 left 100", "Warning 900/1000"]
    );
    assert!(engine.take_events().is_empty());
    let config = QueryEngineConfig {
        context_window: 1000,
        auto_compact_enabled: false,
        ..Default::default()
    };
    let mut engine = QueryEngine::new(config);
    engine.check_token_budget(999);
    assert!(!engine.should_auto_compact());
    assert!(engine.take_events().is_empty());
}

#[test]
fn tool_result_budget() {
    let build = || {
        vec![
            Message::user_blocks(vec![tool_result("aaa"), tool_result(""), tool_result("bb")]),
            Message::assistant_blocks(vec![tool_result("assistant")]),
            Message::user_blocks(vec![tool_result("cccccc"), tool_result("dddd")]),
        ]
    };
    assert_eq!(checked_tool_result_chars(&build()), Some(15));
    let mut messages = build();
    assert_eq!(apply_tool_result_budget(&mut messages, 15), 0);
    assert_eq!(results(&messages), vec!["aaa", "", "bb", "assistant", "cccccc", "dddd"]);
    // Three characters too many: the first result is enough.
    let mut messages = build();
    assert_eq!(apply_tool_result_budget(&mut messages, 12), 1);
    assert_eq!(
        results(&messages),
        vec![CLEARED_NOTICE, "", "bb", "assistant", "cccccc", "dddd"]
    );
    // Five too many: the first that is as large as that ends it.
    let mut messages = build();
    assert_eq!(apply_tool_result_budget(&mut messages, 10), 3);
    assert_eq!(
        results(&messages),
        vec![CLEARED_NOTICE, "", CLEARED_NOTICE, "assistant", CLEARED_NOTICE, "dddd"]
    );
    let mut messages = build();
    assert_eq!(apply_tool_result_budget(&mut messages, 0), 4);
    assert_eq!(
        results(&messages),
        vec![CLEARED_NOTICE, "", CLEARED_NOTICE, "assistant", CLEARED_NOTICE, CLEARED_NOTICE]
    );
}

#[test]
fn nested_results_count_their_texts() {
    let nested = ContentBlock::ToolResult {
        tool_use_id: "t".to_string(),
        content: ToolResultContent::Blocks(vec![
            ContentBlock::Text { text: "abc".to_string() },
            tool_result("not counted"),
        ]),
        is_error: Some(true),
    };
    let mut messages = vec![Message::user_blocks(vec![nested])];
    assert_eq!(checked_tool_result_chars(&messages), Some(3));
    assert_eq!(apply_tool_result_budget(&mut messages, 2), 1);
    assert_eq!(results(&messages), vec![CLEARED_NOTICE]);
}

#[test]
fn summaries_quote_five_user_messages() {
    let mut messages: Vec<Message> =
        (0..7).map(|i| Message::user(&format!("q{}", i))).collect();
    messages[1] = Message::user_blocks(vec![tool_result("r")]);
    messages.insert(
        1,
        Message::assistant_blocks(vec![ContentBlock::ToolUse {
            id: "1".to_string(),
            name: "n".to_string(),
            input: JsonText::parse("{}").unwrap(),
        }]),
    );
    assert_eq!(
        format_compact_summary(&messages),
        "Previous conversation summary:\n\n- 7 user messages\n- 1 assistant responses\n\
         - 1 tool uses\n\nKey topics discussed:\n1. q0...\n3. q2...\n4. q3...\n5. q4...\n"
    );
    let long = format_compact_summary(&[Message::user(&"z".repeat(101))]);
    assert!(long.ends_with(&format!("\n1. {}...\n", "z".repeat(100))));
}

#[test]
fn requested_compaction() {
    let mut engine = engine_with(12);
    assert!(engine.can_compact(CompactionStrategy::Full));
    let result = engine.compact(CompactionStrategy::Partial { keep_recent: 3 }).unwrap();
    assert_eq!(result.messages_removed, 9);
    assert_eq!(result.messages_preserved, 3);
    assert_eq!(result.reason, CompactionReason::UserRequested);
    // Nine messages of two bytes.
    assert_eq!(result.tokens_saved, 18 / 4 * 4 / 3);
    let now = texts(&engine);
    assert_eq!(now.len(), 4);
    assert!(now[0].starts_with("<compact_summary>\nPrevious conversation summary:\n\n- 9 user"));
    assert_eq!(now[1..], ["m9", "m10", "m11"]);
    assert_eq!(shown(&engine.take_events()), vec!["start user requested", "removed 9"]);

    let mut full = engine_with(12);
    assert_eq!(full.compact(CompactionStrategy::Full).unwrap().messages_preserved, 10);
    let mut keep_all = engine_with(11);
    let all = keep_all.compact(CompactionStrategy::Partial { keep_recent: 50 }).unwrap();
    assert_eq!(all.messages_removed, 0);
    assert_eq!(keep_all.message_count(), 12);
}

#[test]
fn clearing_on_request() {
    for strategy in [CompactionStrategy::MicroCompact, CompactionStrategy::ToolResultsOnly] {
        let mut engine = QueryEngine::new(QueryEngineConfig::default()).with_event_stream();
        for _ in 0..12 {
            engine.add_message(Message::user("m"));
        }
        assert!(engine.can_compact(strategy));
        let result = engine.compact(strategy).unwrap();
        assert_eq!(result.messages_removed, 0);
        assert_eq!(result.messages_preserved, 12);
        assert_eq!(result.tokens_saved, 0);
        assert!(result.summary_message.is_none());
        assert_eq!(texts(&engine), vec!["m"; 12]);
        assert_eq!(shown(&engine.take_events()), vec!["start user requested", "removed 0"]);
    }
    let mut engine = engine_with(0);
    engine.add_message(Message::user_blocks(vec![tool_result(&"x".repeat(3033))]));
    for _ in 0..9 {
        engine.add_message(Message::user(""));
    }
    engine.add_message(Message::user_blocks(vec![tool_result("recent")]));
    let result = engine.compact(CompactionStrategy::MicroCompact).unwrap();
    assert_eq!(
        results(&engine.get_messages()),
        vec![TIME_BASED_MC_CLEARED_MESSAGE, "recent"]
    );
    // 3039 bytes before, 39 after.
    assert_eq!(result.tokens_saved, 3036 / 3 - 36 / 3);
    assert_eq!(results(&result.messages), results(&engine.get_messages()));
}

#[test]
fn refused_compaction() {
    let mut engine = engine_with(10);
    match engine.compact(CompactionStrategy::Full) {
        Err(ClaudeError::Other(text)) => assert_eq!(text, "Not enough messages to compact"),
        other => panic!("{:?}", other),
    }
    assert!(engine.take_events().is_empty());
    let mut engine = engine_with(11);
    match engine.compact(CompactionStrategy::Nothing) {
        Err(ClaudeError::Other(text)) => assert_eq!(text, "No compaction strategy"),
        other => panic!("{:?}", other),
    }
    assert_eq!(engine.message_count(), 11);
    assert_eq!(shown(&engine.take_events()), vec!["start user requested"]);
}

#[test]
fn turns_take_pending_messages() {
    let mut engine = engine_with(0);
    engine.queue_pending_message("later".to_string());
    engine.queue_pending_message("latest".to_string());
    assert!(engine.can_submit("now"));
    assert_eq!(stop(engine.submit_message("now", 0)), StopReason::EndTurn);
    assert_eq!(texts(&engine), vec!["now", "later", "latest"]);
    assert!(engine.drain_pending_messages().is_empty());
    assert_eq!(
        shown(&engine.take_events()),
        vec!["message now", "used 2 left 199998", "Normal 2/200000"]
    );
}

#[test]
fn turns_run_out() {
    let config = QueryEngineConfig { max_turns: 1, ..Default::default() };
    let mut engine = QueryEngine::new(config).with_event_stream();
    assert_eq!(stop(engine.execute_turn(0)), StopReason::EndTurn);
    engine.take_events();
    engine.queue_pending_message("kept".to_string());
    engine.cancel();
    assert!(engine.can_execute_turn());
    assert_eq!(stop(engine.execute_turn(0)), StopReason::MaxTurns);
    assert_eq!(shown(&engine.take_events()), vec!["turn 2 MaxTurns"]);
    assert_eq!(engine.drain_pending_messages(), vec!["kept"]);
    engine.clear();
    assert!(matches!(engine.execute_turn(0), Err(ClaudeError::Cancelled)));
}

#[test]
fn cancelled_turns() {
    let mut engine = engine_with(1);
    engine.queue_pending_message("kept".to_string());
    engine.cancel();
    assert!(matches!(engine.execute_turn(0), Err(ClaudeError::Cancelled)));
    assert_eq!(engine.message_count(), 1);
    assert!(engine.take_events().is_empty());
    assert_eq!(engine.drain_pending_messages(), vec!["kept"]);
}

#[test]
fn spend_caps() {
    let config = QueryEngineConfig { max_budget_nanos: Some(500), ..Default::default() };
    let mut engine = QueryEngine::new(config).with_event_stream();
    assert_eq!(stop(engine.execute_turn(499)), StopReason::EndTurn);
    engine.take_events();
    assert_eq!(stop(engine.execute_turn(500)), StopReason::BudgetExceeded);
    assert_eq!(shown(&engine.take_events())[2], "cost 500 of Some(500)");
}

#[test]
fn turns_trim_tool_results() {
    let config = QueryEngineConfig { tool_result_budget: 4, ..Default::default() };
    let mut engine = QueryEngine::new(config).with_event_stream();
    engine.add_message(Message::user_blocks(vec![tool_result("abc"), tool_result("def")]));
    assert_eq!(stop(engine.execute_turn(0)), StopReason::EndTurn);
    assert_eq!(results(&engine.get_messages()), vec![CLEARED_NOTICE, "def"]);
    assert_eq!(
        shown(&engine.take_events())[0],
        "[1 older tool result(s) truncated to save context]"
    );
}

#[test]
fn turns_compact_full_windows() {
    let mut engine = engine_with(0);
    engine.add_message(Message::user(&"x".repeat(600_000)));
    for i in 0..12 {
        engine.add_message(Message::assistant(&format!("a{}", i)));
    }
    assert!(engine.can_execute_turn());
    assert_eq!(stop(engine.execute_turn(0)), StopReason::EndTurn);
    let now = texts(&engine);
    assert_eq!(now.len(), 11);
    assert_eq!(now[1], "a2");
    assert_eq!(now[10], "a11");
    assert_eq!(
        shown(&engine.take_events())[2],
        "Context window approaching limit, compacting..."
    );
}

#[test]
fn turns_fail_where_compaction_does() {
    let mut engine = engine_with(0);
    engine.add_message(Message::user(&"x".repeat(600_000)));
    for _ in 0..3 {
        match engine.execute_turn(0) {
            Err(ClaudeError::Other(text)) => assert_eq!(text, "Not enough messages to compact"),
            other => panic!("{:?}", other),
        }
    }
    // The breaker is open: turns go on without compaction.
    assert_eq!(stop(engine.execute_turn(0)), StopReason::EndTurn);
    assert_eq!(engine.message_count(), 1);
}

#[test]
fn small_windows_wait_for_the_large_threshold() {
    // The engine's window is full, but the compaction looks at the window of
    // the model.
    let config = QueryEngineConfig { context_window: 10, ..Default::default() };
    let mut engine = QueryEngine::new(config).with_event_stream();
    for i in 0..20 {
        engine.add_message(Message::user(&format!("message {}", i)));
    }
    assert!(engine.auto_compact_if_needed().unwrap().is_none());
    assert_eq!(stop(engine.execute_turn(0)), StopReason::EndTurn);
    assert_eq!(engine.message_count(), 20);
    let events = shown(&engine.take_events());
    assert_eq!(events[1], "Critical 40/10");
    assert_eq!(events[2], "Context window approaching limit, compacting...");
}

#[test]
fn usage_is_summed() {
    let mut engine = engine_with(1);
    for n in 1..3 {
        let mut m = Message::assistant("a");
        m.cost = Some(MessageCost {
            input_tokens: n,
            output_tokens: 10 * n,
            cache_read_input_tokens: 100 * n,
            cache_creation_input_tokens: 1000 * n,
        });
        engine.add_message(m);
    }
    let usage = engine.total_usage();
    assert_eq!(usage.input_tokens, 3);
    assert_eq!(usage.output_tokens, 30);
    assert_eq!(usage.cache_read_input_tokens, 300);
    assert_eq!(usage.cache_creation_input_tokens, 3000);
    let mut m = Message::assistant("a");
    m.cost = Some(MessageCost {
        input_tokens: u64::MAX,
        output_tokens: 0,
        cache_read_input_tokens: 0,
        cache_creation_input_tokens: 0,
    });
    engine.add_message(m);
    assert!(engine.checked_total_usage().is_none());
}

#[test]
fn clearing_and_resuming() {
    let mut engine = engine_with(3);
    let saved = engine.get_messages();
    engine.queue_pending_message("p".to_string());
    engine.record_permission_denial_at(
        "Bash".to_string(),
        "no".to_string(),
        Timestamp { seconds: 7, nanos: 8 },
    );
    engine.clear();
    assert_eq!(engine.message_count(), 0);
    engine.resume_session(saved);
    assert_eq!(texts(&engine), vec!["m0", "m1", "m2"]);
    assert_eq!(
        shown(&engine.take_events()),
        vec!["Conversation cleared", "Resumed session with 3 messages"]
    );
    assert_eq!(engine.drain_pending_messages(), vec!["p"]);
    let denials = engine.get_permission_denials();
    assert_eq!(denials[0].reason, "no");
    assert_eq!(denials[0].timestamp, Timestamp { seconds: 7, nanos: 8 });
}

#[test]
fn nobody_listens() {
    let mut engine = QueryEngine::new(QueryEngineConfig::default());
    for i in 0..12 {
        engine.add_message(Message::user(&format!("m{}", i)));
    }
    engine.compact(CompactionStrategy::Full).unwrap();
    engine.submit_message("x", 0).unwrap();
    engine.clear();
    engine.resume_session(vec![]);
    assert!(engine.take_events().is_empty());
}
