//! Context compaction: keeping a conversation within the context window.

pub mod analysis;
pub mod conversation;
pub mod estimate;
pub mod grouping;
pub mod laws;
pub mod micro;
pub mod prompt;
pub mod prompt_laws;
pub mod split;
pub mod state;
pub mod threshold;

pub use analysis::{analyze_tokens, ContentType, TokenAnalysis};
pub use conversation::{
    auto_compact_if_needed, can_auto_compact, compact_conversation, is_summable, reactive_compact,
    CompactResult,
};
pub use estimate::{
    chars_fit, context_window_for_model, estimate_block_chars, estimate_message_chars,
    estimate_tokens_for_messages, DEFAULT_CONTEXT_WINDOW,
};
pub use grouping::{
    choose_tool_topic, extract_block_topic, extract_topic_hint, group_messages_by_api_round,
    MessageGroup,
};
pub use micro::{
    can_collapse, checked_cleared, context_collapse, micro_compact_messages, snip_compact, TIME_BASED_MC_CLEARED_MESSAGE,
};
pub use prompt::{
    build_summary_from_groups, format_compact_summary, get_compact_prompt, NO_TOOLS_PREAMBLE,
};
pub use split::{adjust_index_to_preserve_invariants, calculate_messages_to_keep_index};
pub use state::{
    evaluate_time_based_trigger, time_based_trigger_due, AutoCompactState, CompactionReason,
    MAX_CONSECUTIVE_FAILURES,
};
pub use threshold::{
    calculate_token_warning_state, should_auto_compact, should_compact, should_context_collapse,
    CompactConfig, CompactTrigger, CompactionStrategy, ContextCollapseConfig, MicroCompactConfig,
    TokenWarningState, AUTOCOMPACT_BUFFER_TOKENS, AUTOCOMPACT_TRIGGER_PERCENT,
    COLLAPSE_TRIGGER_PERCENT, CRITICAL_THRESHOLD_PERCENT, DEFAULT_SUMMARY_TARGET_TOKENS,
    KEEP_RECENT_MESSAGES, MICROCOMPACT_TRIGGER_PERCENT, WARNING_THRESHOLD_PERCENT,
};
