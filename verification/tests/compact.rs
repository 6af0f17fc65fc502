use claurst::clock::Timestamp;
use claurst::compact::{
    adjust_index_to_preserve_invariants, analyze_tokens, auto_compact_if_needed,
    build_summary_from_groups, calculate_messages_to_keep_index, calculate_token_warning_state,
    can_auto_compact, can_collapse, checked_cleared, choose_tool_topic, compact_conversation, context_collapse,
    context_window_for_model, estimate_block_chars, estimate_message_chars,
    estimate_tokens_for_messages, evaluate_time_based_trigger, extract_topic_hint,
    format_compact_summary, get_compact_prompt, group_messages_by_api_round,
    micro_compact_messages, reactive_compact, should_auto_compact, should_compact,
    should_context_collapse, snip_compact, time_based_trigger_due, AutoCompactState,
    CompactConfig, CompactionReason, CompactionStrategy, ContentType, ContextCollapseConfig,
    MessageGroup, MicroCompactConfig, TokenWarningState, DEFAULT_CONTEXT_WINDOW,
    KEEP_RECENT_MESSAGES, MAX_CONSECUTIVE_FAILURES, NO_TOOLS_PREAMBLE,
    TIME_BASED_MC_CLEARED_MESSAGE,
};
use claurst::error::ClaudeError;
use claurst::fraction::Fraction;
use claurst::json::JsonText;
use claurst::types::{ContentBlock, Message, MessageContent, Role, ToolResultContent};

fn json(s: &str) -> JsonText {
    JsonText::parse(s).unwrap()
}

fn tool_use(name: &str, input: &str) -> ContentBlock {
    ContentBlock::ToolUse { id: "t".to_string(), name: name.to_string(), input: json(input) }
}

fn tool_result(text: &str) -> ContentBlock {
    ContentBlock::ToolResult {
        tool_use_id: "t".to_string(),
        content: ToolResultContent::Text(text.to_string()),
        is_error: None,
    }
}

fn text_block(text: &str) -> ContentBlock {
    ContentBlock::Text { text: text.to_string() }
}

fn conversation(rounds: usize) -> Vec<Message> {
    let mut messages = vec![];
    for i in 0..rounds {
        messages.push(Message::user(&format!("question {}", i)));
        messages.push(Message::assistant(&format!("answer {}", i)));
    }
    messages
}

fn text_of(m: &Message) -> String {
    m.get_text().unwrap_or("").to_string()
}

fn error_text(e: ClaudeError) -> String {
    match e {
        ClaudeError::Other(text) => text,
        ClaudeError::Cancelled => "cancelled".to_string(),
    }
}

#[test]
fn compact_test_token_estimation() {
    let msg = Message::user("Hello, world!");
    let chars = estimate_message_chars(&msg);
    assert!(chars > 0);

    let tokens = estimate_tokens_for_messages(&[msg]);
    assert!(tokens > 0);
}

#[test]
fn test_context_window_for_model() {
    assert_eq!(context_window_for_model("sonnet-4-6"), 200_000);
    assert_eq!(context_window_for_model("3-5-sonnet"), 200_000);
    assert_eq!(context_window_for_model("3-opus"), 200_000);
    assert_eq!(context_window_for_model("unknown"), DEFAULT_CONTEXT_WINDOW);
}

#[test]
fn test_message_grouping() {
    let messages = vec![
        Message::user("Hello"),
        Message::assistant("Hi there"),
        Message::user("How are you?"),
        Message::assistant("I'm well"),
    ];

    let groups = group_messages_by_api_round(&messages);
    assert_eq!(groups.len(), 2);
}

#[test]
fn test_should_auto_compact() {
    let config = CompactConfig::default();

    assert!(should_auto_compact(190_000, 200_000, &config));
    assert!(!should_auto_compact(100_000, 200_000, &config));
}

#[test]
fn test_token_warning_state() {
    assert_eq!(calculate_token_warning_state(100_000, 200_000), TokenWarningState::Normal);
    assert_eq!(calculate_token_warning_state(170_000, 200_000), TokenWarningState::Warning);
    assert_eq!(calculate_token_warning_state(195_000, 200_000), TokenWarningState::Critical);
}

#[test]
fn test_micro_compact() {
    let mut messages = vec![
        Message::user("Hello"),
        Message::user_blocks(vec![ContentBlock::ToolResult {
            tool_use_id: "1".to_string(),
            content: ToolResultContent::Text("Result".to_string()),
            is_error: Some(false),
        }]),
        Message::user("More"),
        Message::assistant("Response"),
    ];

    let cleared = micro_compact_messages(&mut messages, 2);
    assert_eq!(cleared, 1);
}

#[test]
fn test_calculate_keep_index() {
    let messages: Vec<Message> =
        (0..20).map(|i| Message::user(&format!("Message {}", i).repeat(50))).collect();

    let index = calculate_messages_to_keep_index(&messages, None, 1000, 5000);
    // Should keep some messages
    assert!(index < 20);
}

#[test]
fn test_snip_compact() {
    let mut messages = vec![
        Message {
            role: Role::User,
            content: MessageContent::Text("First".into()),
            uuid: Some("1".into()),
            cost: None,
        },
        Message {
            role: Role::User,
            content: MessageContent::Text("Second".into()),
            uuid: Some("2".into()),
            cost: None,
        },
        Message {
            role: Role::User,
            content: MessageContent::Text("Third".into()),
            uuid: Some("3".into()),
            cost: None,
        },
    ];

    let removed = snip_compact(&mut messages, "1");
    assert_eq!(removed, 2); // Removes messages after uuid "1"
    assert_eq!(messages.len(), 1);
}

#[test]
fn test_analyze_tokens() {
    let messages = vec![Message::user("Hello world"), Message::assistant("Response")];

    let analysis = analyze_tokens(&messages);
    assert!(analysis.total_tokens > 0);
    assert!(analysis.by_role.contains_key(&Role::User));
    assert!(analysis.by_role.contains_key(&Role::Assistant));
}

#[test]
fn test_compact_circuit_breaker() {
    let mut state = AutoCompactState::new();

    // Simulate failures
    for _ in 0..MAX_CONSECUTIVE_FAILURES {
        state.on_failure();
    }

    assert!(state.disabled);
    assert!(!state.is_enabled());
}

#[test]
fn sizes_of_blocks() {
    assert_eq!(estimate_block_chars(&text_block("caf\u{e9}")), 5);
    assert_eq!(estimate_block_chars(&tool_use("Bash", "{ \"a\" : 1 }")), 4 + 7);
    assert_eq!(estimate_block_chars(&tool_result("12345")), 5);
    let nested = ContentBlock::ToolResult {
        tool_use_id: "t".to_string(),
        content: ToolResultContent::Blocks(vec![
            text_block("abc"),
            ContentBlock::Image { source: json("{}") },
        ]),
        is_error: None,
    };
    assert_eq!(estimate_block_chars(&nested), 2003);
    let thinking = ContentBlock::Thinking {
        thinking: "hmm".to_string(),
        signature: "long signature".to_string(),
    };
    assert_eq!(estimate_block_chars(&thinking), 3);
    assert_eq!(
        estimate_block_chars(&ContentBlock::RedactedThinking { data: "xx".to_string() }),
        2
    );
    assert_eq!(estimate_block_chars(&ContentBlock::Document { source: json("1") }), 2000);
    let other = ContentBlock::Other { block_type: "b".to_string(), payload: json("1") };
    assert_eq!(estimate_block_chars(&other), 100);
}

#[test]
fn estimates_round_down_twice() {
    assert_eq!(estimate_tokens_for_messages(&[Message::user("Hello, world!")]), 4);
    assert_eq!(estimate_tokens_for_messages(&[Message::user("abc")]), 0);
    let two = [Message::user("abc"), Message::user("abcdef")];
    assert_eq!(estimate_tokens_for_messages(&two), 2);
    assert_eq!(estimate_tokens_for_messages(&[]), 0);
}

#[test]
fn thresholds_are_exact() {
    assert_eq!(calculate_token_warning_state(159_999, 200_000), TokenWarningState::Normal);
    assert_eq!(calculate_token_warning_state(160_000, 200_000), TokenWarningState::Warning);
    assert_eq!(calculate_token_warning_state(189_999, 200_000), TokenWarningState::Warning);
    assert_eq!(calculate_token_warning_state(190_000, 200_000), TokenWarningState::Warning);
    assert_eq!(calculate_token_warning_state(190_001, 200_000), TokenWarningState::Critical);
    assert_eq!(calculate_token_warning_state(5, 0), TokenWarningState::Normal);
    assert!(should_context_collapse(194_000, 200_000));
    assert!(!should_context_collapse(193_999, 200_000));
    assert!(should_context_collapse(1, 0));
    assert!(!should_context_collapse(0, 0));
    let config = CompactConfig::default();
    assert!(should_auto_compact(180_000, 200_000, &config));
    assert!(!should_auto_compact(179_999, 200_000, &config));
    assert!(should_auto_compact(1, 0, &config));
    assert!(!should_auto_compact(0, 0, &config));
    assert_eq!(config.keep_recent_messages, 10);
    assert_eq!(config.target_buffer_tokens, 13_000);
}

#[test]
fn recommendations_escalate() {
    let low = should_compact(149_999, 200_000);
    assert!(!low.should_compact);
    assert_eq!(low.recommended_strategy, CompactionStrategy::Nothing);
    let mid = should_compact(150_000, 200_000);
    assert_eq!(mid.recommended_strategy, CompactionStrategy::MicroCompact);
    let high = should_compact(180_000, 200_000);
    assert!(high.should_compact);
    assert_eq!(high.recommended_strategy, CompactionStrategy::Partial { keep_recent: 10 });
    assert_eq!((high.fraction_used.numerator(), high.fraction_used.denominator()), (180_000, 200_000));
    let none = should_compact(7, 0);
    assert!(!none.should_compact);
    assert_eq!(none.fraction_used.numerator(), 0);
    assert!(TokenWarningState::Critical.should_compact());
    assert!(!TokenWarningState::Warning.should_compact());
    assert_eq!(TokenWarningState::Normal.color_hint(), "green");
    assert_eq!(TokenWarningState::Warning.color_hint(), "yellow");
    assert_eq!(TokenWarningState::Critical.color_hint(), "red");
    assert_eq!(MicroCompactConfig::default().summary_target_tokens, 2048);
    assert!(Fraction::new(1, 0).is_none());
}

#[test]
fn rounds_hold_all_messages_in_order() {
    let mut messages = conversation(2);
    messages.push(Message::assistant("again"));
    messages.push(Message::user("open"));
    messages.push(Message::user("end"));
    let groups = group_messages_by_api_round(&messages);
    let sizes: Vec<usize> = groups.iter().map(|g| g.messages.len()).collect();
    assert_eq!(sizes, vec![2, 2, 1, 2]);
    let joined: Vec<String> =
        groups.iter().flat_map(|g| g.messages.iter().map(text_of)).collect();
    assert_eq!(joined, messages.iter().map(text_of).collect::<Vec<_>>());
    assert_eq!(groups[0].token_estimate, 4 * 4 / 3);
    assert!(group_messages_by_api_round(&[]).is_empty());
}

#[test]
fn topics() {
    let hint = |blocks: Vec<ContentBlock>| extract_topic_hint(&[Message::assistant_blocks(blocks)]);
    assert_eq!(
        hint(vec![tool_use("Edit", "{\"file_path\":\"a.rs\",\"command\":\"ls\"}")]),
        Some("a.rs".to_string())
    );
    assert_eq!(
        hint(vec![tool_use("Bash", "{\"file_path\":1,\"command\":\"  cargo  test\"}")]),
        Some("cargo".to_string())
    );
    assert_eq!(hint(vec![tool_use("Bash", "{\"command\":\"  \"}")]), Some("  ".to_string()));
    assert_eq!(hint(vec![tool_use("Bash", "[]")]), Some("Bash".to_string()));
    assert_eq!(hint(vec![text_block(&"x".repeat(199))]), Some("x".repeat(50)));
    assert_eq!(
        hint(vec![text_block(&"x".repeat(200)), text_block("short")]),
        Some("short".to_string())
    );
    assert_eq!(hint(vec![tool_result("r")]), None);
    assert_eq!(extract_topic_hint(&[Message::user("plain")]), None);
    assert_eq!(
        extract_topic_hint(&[Message::user("plain"), Message::user_blocks(vec![text_block("b")])]),
        Some("b".to_string())
    );
    assert_eq!(choose_tool_topic("n", None, Some("a\u{3000}b".to_string())), "a");
    assert_eq!(choose_tool_topic("n", None, None), "n");
}

#[test]
fn split_points_are_safe() {
    let messages: Vec<Message> =
        (0..20).map(|i| Message::user(&format!("Message {}", i).repeat(50))).collect();
    // Ten messages of 450 bytes, then ten of 500: 112 and 125 tokens each.
    assert_eq!(calculate_messages_to_keep_index(&messages, None, 1000, 5000), 9);
    assert_eq!(calculate_messages_to_keep_index(&messages, None, 100, 600), 5);
    assert_eq!(calculate_messages_to_keep_index(&messages, None, 9999, 99999), 0);
    assert_eq!(calculate_messages_to_keep_index(&messages, Some(15), 0, 0), 15);
    assert_eq!(calculate_messages_to_keep_index(&messages[..19], None, 1, 5000), 0);
}

#[test]
fn cuts_step_back_over_tool_uses() {
    let messages = vec![
        Message::user("a"),
        Message::assistant_blocks(vec![tool_use("A", "{}")]),
        Message::assistant_blocks(vec![tool_use("B", "{}")]),
        Message::user("no result"),
        Message::assistant_blocks(vec![tool_use("C", "{}")]),
        Message::user_blocks(vec![tool_result("r")]),
    ];
    assert_eq!(adjust_index_to_preserve_invariants(&messages, 3), 1);
    assert_eq!(adjust_index_to_preserve_invariants(&messages, 5), 4);
    assert_eq!(adjust_index_to_preserve_invariants(&messages, 4), 4);
    assert_eq!(adjust_index_to_preserve_invariants(&messages, 0), 0);
    assert_eq!(adjust_index_to_preserve_invariants(&messages, 6), 6);
    assert_eq!(adjust_index_to_preserve_invariants(&messages, 99), 99);
}

#[test]
fn tool_uses_stay_with_their_results() {
    let messages = vec![
        Message::user("q"),
        Message::assistant_blocks(vec![tool_use("Bash", "{}")]),
        Message::user_blocks(vec![tool_result("ok")]),
        Message::assistant("done"),
    ];
    assert_eq!(adjust_index_to_preserve_invariants(&messages, 2), 1);
    assert_eq!(adjust_index_to_preserve_invariants(&messages, 3), 3);
}

#[test]
fn prompts() {
    let group = MessageGroup::from_messages(vec![
        Message::user("Hi"),
        Message::user_blocks(vec![tool_result("r")]),
        Message::assistant_blocks(vec![tool_use("Bash", "{\"command\":\"ls -l\"}")]),
    ]);
    let second = MessageGroup::from_messages(vec![Message::assistant(&"y".repeat(201))]);
    let mut expected = NO_TOOLS_PREAMBLE.to_string();
    expected.push_str("Summarize the following conversation history (partial):\n\n");
    expected.push_str("Round 1:\n  Topic: ls\n  User: Hi...\n  Assistant: used 1 tool(s)\n\n");
    expected.push_str(&format!("Round 2:\n  Assistant: {}...\n\n", "y".repeat(200)));
    expected.push_str("\nProvide a concise summary of the key points, decisions, and current state.");
    assert_eq!(get_compact_prompt(&[group, second], true), expected);
    assert!(get_compact_prompt(&[], false)
        .contains("Summarize the following conversation history:\n\n\nProvide"));
}

#[test]
fn summaries() {
    let round = |path: &str| {
        MessageGroup::from_messages(vec![
            Message::user("q"),
            Message::assistant_blocks(vec![tool_use(
                "Edit",
                &format!("{{\"file_path\":\"{}\"}}", path),
            )]),
        ])
    };
    let groups = vec![round("a"), round("b"), round("a"), round("c"), round("d"), round("e")];
    assert_eq!(
        build_summary_from_groups(&groups),
        "Previous conversation summary:\n\n- 6 user messages\n- 6 assistant responses\n\
         - 6 tool invocations\n\nKey topics:\n1. a\n2. b\n4. c\n5. d\n"
    );
    assert_eq!(
        build_summary_from_groups(&[]),
        "Previous conversation summary:\n\n- 0 user messages\n- 0 assistant responses\n\
         \nKey topics:\n"
    );
    let message = format_compact_summary("s");
    assert_eq!(text_of(&message), "<compact_summary>\ns\n</compact_summary>");
    assert_eq!(message.role, Role::User);
}

#[test]
fn micro_compaction_is_stable() {
    let mut messages = vec![
        Message::user_blocks(vec![tool_result("a"), text_block("keep"), tool_result("b")]),
        Message::assistant_blocks(vec![tool_result("assistant")]),
        Message::user_blocks(vec![tool_result("recent")]),
    ];
    assert_eq!(micro_compact_messages(&mut messages, 1), 2);
    let shown = format!("{:?}", messages);
    assert!(shown.contains("keep") && shown.contains("assistant") && shown.contains("recent"));
    assert_eq!(shown.matches(TIME_BASED_MC_CLEARED_MESSAGE).count(), 2);
    assert_eq!(micro_compact_messages(&mut messages, 1), 2);
    assert_eq!(format!("{:?}", messages), shown);
    assert_eq!(checked_cleared(&messages, 1), Some(2));
    assert_eq!(micro_compact_messages(&mut messages, 3), 0);
}

#[test]
fn idle_gaps() {
    assert!(time_based_trigger_due(11, 120, 2));
    assert!(!time_based_trigger_due(11, 119, 2));
    assert!(!time_based_trigger_due(10, 120, 2));
    let messages = conversation(6);
    assert!(!evaluate_time_based_trigger(&messages, None, 0));
    let now = std::time::Instant::now();
    assert!(evaluate_time_based_trigger(&messages, Some(now), 0));
    assert!(!evaluate_time_based_trigger(&messages, Some(now), 60));
    assert!(!evaluate_time_based_trigger(&messages[..10], Some(now), 0));
}

#[test]
fn full_compaction() {
    let messages = conversation(6);
    let result = compact_conversation(&messages, 2).unwrap();
    assert_eq!(result.messages_removed, 8);
    assert_eq!(result.messages_preserved, 4);
    assert_eq!(result.messages.len(), 5);
    assert_eq!(result.reason, CompactionReason::AutoCompactThreshold);
    // Each round holds "question n" and "answer n": 18 bytes, 5 tokens.
    assert_eq!(result.tokens_saved, 4 * 5);
    assert_eq!(
        text_of(&result.messages[0]),
        "<compact_summary>\nPrevious conversation summary:\n\n- 4 user messages\n\
         - 4 assistant responses\n\nKey topics:\n\n</compact_summary>"
    );
    let kept: Vec<String> = result.messages[1..].iter().map(text_of).collect();
    assert_eq!(kept, vec!["question 4", "answer 4", "question 5", "answer 5"]);
    assert_eq!(text_of(&result.summary_message.unwrap()), text_of(&result.messages[0]));
}

#[test]
fn compaction_needs_messages() {
    let e = compact_conversation(&conversation(1), 2).unwrap_err();
    assert_eq!(error_text(e), "Not enough messages to compact");
    // Enough messages but few rounds: all rounds stay, behind a summary.
    let all = compact_conversation(&conversation(2), 3).unwrap();
    assert_eq!(all.messages_removed, 0);
    assert_eq!(all.messages_preserved, 4);
    assert_eq!(all.messages.len(), 5);
}

#[test]
fn reactive_compaction() {
    let mut messages = conversation(8);
    let result = reactive_compact(&mut messages).unwrap();
    assert_eq!(result.reason, CompactionReason::ReactiveCompact);
    assert_eq!(result.messages_removed, 6);
    assert_eq!(messages.len(), 11);
    let mut few = conversation(2);
    assert!(reactive_compact(&mut few).is_err());
    assert_eq!(few.len(), 4);
}

#[test]
fn auto_compaction() {
    let config = CompactConfig::default();
    let mut state = AutoCompactState::new();
    let mut small = conversation(12);
    assert!(auto_compact_if_needed(&mut small, "m", &mut state, &config).unwrap().is_none());
    assert_eq!(small.len(), 24);

    let mut large = conversation(12);
    large[0] = Message::user(&"x".repeat(540_000));
    assert!(can_auto_compact(&large, "m", &state, &config));
    let result = auto_compact_if_needed(&mut large, "m", &mut state, &config).unwrap().unwrap();
    assert_eq!(result.messages_removed, 4);
    assert_eq!(large.len(), 21);
    assert_eq!(state.compaction_count, 1);
    assert_eq!(state.last_reason, Some(CompactionReason::AutoCompactThreshold));

    let mut short = vec![Message::user(&"x".repeat(600_000))];
    for failures in 1..=MAX_CONSECUTIVE_FAILURES {
        assert!(auto_compact_if_needed(&mut short, "m", &mut state, &config).is_err());
        assert_eq!(state.consecutive_failures, failures);
    }
    assert!(!state.is_enabled());
    assert!(auto_compact_if_needed(&mut short, "m", &mut state, &config).unwrap().is_none());
}

#[test]
fn breaker_stays_open() {
    let mut state = AutoCompactState::new();
    state.on_failure();
    state.on_failure();
    state.on_success(CompactionReason::UserRequested);
    assert_eq!(state.consecutive_failures, 0);
    state.on_failure();
    state.on_failure();
    assert!(state.is_enabled());
    state.on_failure();
    state.on_success(CompactionReason::TimeBased);
    assert!(!state.is_enabled());
}

#[test]
fn time_since_compactions() {
    let mut state = AutoCompactState::new();
    assert!(state.time_since_last().is_none());
    let at = Timestamp { seconds: 100, nanos: 5 };
    state.on_success_at(CompactionReason::CacheEdits, at);
    let later = Timestamp { seconds: 102, nanos: 1 };
    assert_eq!(state.time_since(later), Some(1_999_999_996));
    assert_eq!(state.time_since(Timestamp { seconds: 99, nanos: 5 }), Some(-1_000_000_000));
    assert!(state.time_since_last().unwrap() > 0);
    let mut now = AutoCompactState::new();
    now.on_success(CompactionReason::UserRequested);
    let gap = now.time_since_last().unwrap();
    assert!(gap >= -1_000_000_000 && gap < 3_600_000_000_000);
    assert!(now.last_compaction_at.unwrap().seconds > 1_600_000_000);
}

#[test]
fn reasons_in_words() {
    let words: Vec<&str> = vec![
        CompactionReason::AutoCompactThreshold.describe(),
        CompactionReason::ContextWindowExceeded.describe(),
        CompactionReason::ReactiveCompact.describe(),
        CompactionReason::UserRequested.describe(),
        CompactionReason::TimeBased.describe(),
        CompactionReason::CacheEdits.describe(),
    ];
    assert_eq!(
        words,
        vec![
            "auto-compact threshold",
            "context window exceeded",
            "reactive compact",
            "user requested",
            "time-based",
            "cache edits",
        ]
    );
}

#[test]
fn collapse() {
    let thinking = || ContentBlock::Thinking { thinking: "t".to_string(), signature: String::new() };
    let build = |size: usize| {
        let mut messages = vec![
            Message::user_blocks(vec![tool_result(&"x".repeat(size))]),
            Message::assistant_blocks(vec![thinking(), text_block("said"), thinking()]),
        ];
        messages.extend(conversation(2));
        messages
    };
    let config = ContextCollapseConfig::default();
    let mut below = build(500_000);
    assert_eq!(context_collapse(&mut below, &config).unwrap(), 0);
    let mut over = build(600_000);
    assert_eq!(context_collapse(&mut over, &config).unwrap(), 0);
    assert!(format!("{:?}", over).contains("Thinking"));
    let aggressive =
        ContextCollapseConfig { trigger_fraction: config.trigger_fraction, aggressive: true };
    assert_eq!(context_collapse(&mut over, &aggressive).unwrap(), 1);
    let shown = format!("{:?}", over);
    // Clearing was enough: the thinking stays.
    assert!(shown.contains("Thinking") && shown.contains("said"));
    assert!(shown.contains(TIME_BASED_MC_CLEARED_MESSAGE));
    assert_eq!(over.len(), 6);
    let mut still_over = build(10);
    still_over.push(Message::user(&"x".repeat(600_000)));
    assert!(can_collapse(&still_over, &aggressive));
    assert_eq!(context_collapse(&mut still_over, &aggressive).unwrap(), 1);
    let shown = format!("{:?}", still_over);
    assert!(!shown.contains("Thinking") && shown.contains("said"));
    assert_eq!(still_over.len(), 7);
}

#[test]
fn collapse_limit_is_exact() {
    // 582 000 characters are 194 000 tokens, which is 97 percent.
    let config = ContextCollapseConfig { trigger_fraction: Fraction::percent(97), aggressive: true };
    let build = |size: usize| {
        let mut messages = vec![Message::user_blocks(vec![tool_result(&"x".repeat(size))])];
        messages.extend((0..3).map(|_| Message::user("")));
        messages
    };
    assert_eq!(context_collapse(&mut build(582_000), &config).unwrap(), 1);
    assert_eq!(context_collapse(&mut build(581_996), &config).unwrap(), 0);
}

#[test]
fn snips() {
    let at = |uuid: Option<&str>| Message {
        role: Role::User,
        content: MessageContent::Text(String::new()),
        uuid: uuid.map(|u| u.to_string()),
        cost: None,
    };
    let mut messages = vec![at(None), at(Some("a")), at(Some("b")), at(Some("a"))];
    assert_eq!(snip_compact(&mut messages, "missing"), 0);
    assert_eq!(messages.len(), 4);
    assert_eq!(snip_compact(&mut messages, "a"), 2);
    assert_eq!(messages.len(), 2);
    assert_eq!(snip_compact(&mut messages, "a"), 0);
    assert_eq!(messages.len(), 2);
}

#[test]
fn analysis() {
    let messages = vec![
        Message::user("12345678"),
        Message::assistant_blocks(vec![
            text_block("1234"),
            tool_use("Bash", "{}"),
            ContentBlock::RedactedThinking { data: "12345678".to_string() },
            ContentBlock::Image { source: json("{}") },
        ]),
    ];
    let analysis = analyze_tokens(&messages);
    assert_eq!(analysis.by_role.get(&Role::User), Some(2));
    // 4 + 6 + 8 + 2000 characters.
    assert_eq!(analysis.by_role.get(&Role::Assistant), Some(504));
    assert_eq!(analysis.total_tokens, 506);
    assert_eq!(analysis.by_content_type.get(&ContentType::Text), Some(3));
    assert_eq!(analysis.by_content_type.get(&ContentType::ToolUse), Some(1));
    assert_eq!(analysis.by_content_type.get(&ContentType::Image), Some(500));
    assert_eq!(analysis.by_content_type.get(&ContentType::Document), None);
    assert_eq!(analysis.warning_state, TokenWarningState::Normal);
    assert_eq!(
        (analysis.fraction_used.numerator(), analysis.fraction_used.denominator()),
        (506, 200_000)
    );
    assert_eq!(KEEP_RECENT_MESSAGES, 10);
    let copy = analysis.clone();
    assert_eq!(copy.total_tokens, 506);
    assert_eq!(copy.by_role.get(&Role::Assistant), Some(504));
    assert_eq!(copy.by_content_type.get(&ContentType::Image), Some(500));
    let silent = analyze_tokens(&[]);
    assert!(!silent.by_role.contains_key(&Role::User));
}
