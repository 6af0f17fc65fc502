//! The query engine: a conversation, its budgets and its turns.

pub mod budget;
pub mod config;
pub mod content_laws;
pub mod engine_laws;
pub mod estimate;
pub mod events;
pub mod laws;
pub mod model;
pub mod query_engine;
pub mod session;
pub mod summary;
pub mod tool_budget;
pub mod turn;

pub use budget::{TokenBudget, TokenWarningLevel};
pub use config::{
    QueryEngineConfig, DEFAULT_MAX_TURNS, DEFAULT_TOOL_RESULT_BUDGET,
    MAX_OUTPUT_TOKENS_RECOVERY_LIMIT,
};
pub use estimate::{checked_tokens, estimate_block_chars, estimate_message_tokens};
pub use events::{QueryEngineEvent, StopReason};
pub use query_engine::QueryEngine;
pub use summary::format_compact_summary;
pub use tool_budget::{apply_tool_result_budget, checked_tool_result_chars, CLEARED_NOTICE};
pub use turn::{PermissionDenial, ToolUseRecord, TurnResult, TurnState};
