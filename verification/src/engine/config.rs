//! The configuration of a query engine.

use crate::compact::estimate::DEFAULT_CONTEXT_WINDOW;
use crate::text::{clone_opt_text, opt_text};
use vstd::prelude::*;

verus! {

/// The model that is used where none is named, without the name of its family.
pub const DEFAULT_MODEL: &'static str = "sonnet-4-6";

/// Max turns before forcing the end of a turn.
pub const DEFAULT_MAX_TURNS: u32 = 100;

/// Max output tokens recovery attempts.
pub const MAX_OUTPUT_TOKENS_RECOVERY_LIMIT: u32 = 3;

/// Default tool result budget in characters.
pub const DEFAULT_TOOL_RESULT_BUDGET: usize = 50_000;

/// Configuration for the query engine.
#[derive(Debug)]
pub struct QueryEngineConfig {
    /// Model identifier.
    pub model: String,
    /// Maximum tokens per response.
    pub max_tokens: u32,
    /// Maximum turns per conversation.
    pub max_turns: u32,
    /// Context window size (varies by model).
    pub context_window: u64,
    /// System prompt text.
    pub system_prompt: Option<String>,
    /// Additional system prompt to append.
    pub append_system_prompt: Option<String>,
    /// Thinking budget tokens (for extended thinking).
    pub thinking_budget: Option<u32>,
    /// Max cumulative tool result characters before truncation.
    pub tool_result_budget: usize,
    /// Optional spend cap, in billionths of a dollar.
    pub max_budget_nanos: Option<u64>,
    /// Fallback model for retry.
    pub fallback_model: Option<String>,
    /// Enable auto-compact.
    pub auto_compact_enabled: bool,
    /// Session ID (generated if not provided).
    pub session_id: Option<String>,
    /// Parent session ID for lineage.
    pub parent_session_id: Option<String>,
}

/// The model of a configuration.
pub struct ConfigModel {
    pub model: Seq<char>,
    pub max_tokens: u32,
    pub max_turns: u32,
    pub context_window: u64,
    pub system_prompt: Option<Seq<char>>,
    pub append_system_prompt: Option<Seq<char>>,
    pub thinking_budget: Option<u32>,
    pub tool_result_budget: usize,
    pub max_budget_nanos: Option<u64>,
    pub fallback_model: Option<Seq<char>>,
    pub auto_compact_enabled: bool,
    pub session_id: Option<Seq<char>>,
    pub parent_session_id: Option<Seq<char>>,
}

/// The usual configuration for a model.
pub open spec fn usual_config(model: Seq<char>) -> ConfigModel {
    ConfigModel {
        model,
        max_tokens: 4096,
        max_turns: DEFAULT_MAX_TURNS,
        context_window: DEFAULT_CONTEXT_WINDOW,
        system_prompt: None,
        append_system_prompt: None,
        thinking_budget: None,
        tool_result_budget: DEFAULT_TOOL_RESULT_BUDGET,
        max_budget_nanos: None,
        fallback_model: None,
        auto_compact_enabled: true,
        session_id: None,
        parent_session_id: None,
    }
}

impl View for QueryEngineConfig {
    type V = ConfigModel;

    open spec fn view(&self) -> ConfigModel {
        ConfigModel {
            model: self.model@,
            max_tokens: self.max_tokens,
            max_turns: self.max_turns,
            context_window: self.context_window,
            system_prompt: opt_text(self.system_prompt),
            append_system_prompt: opt_text(self.append_system_prompt),
            thinking_budget: self.thinking_budget,
            tool_result_budget: self.tool_result_budget,
            max_budget_nanos: self.max_budget_nanos,
            fallback_model: opt_text(self.fallback_model),
            auto_compact_enabled: self.auto_compact_enabled,
            session_id: opt_text(self.session_id),
            parent_session_id: opt_text(self.parent_session_id),
        }
    }
}

impl Clone for QueryEngineConfig {
    fn clone(&self) -> (r: Self)
        ensures
            r@ == self@,
    {
        QueryEngineConfig {
            model: self.model.clone(),
            max_tokens: self.max_tokens,
            max_turns: self.max_turns,
            context_window: self.context_window,
            system_prompt: clone_opt_text(&self.system_prompt),
            append_system_prompt: clone_opt_text(&self.append_system_prompt),
            thinking_budget: self.thinking_budget,
            tool_result_budget: self.tool_result_budget,
            max_budget_nanos: self.max_budget_nanos,
            fallback_model: clone_opt_text(&self.fallback_model),
            auto_compact_enabled: self.auto_compact_enabled,
            session_id: clone_opt_text(&self.session_id),
            parent_session_id: clone_opt_text(&self.parent_session_id),
        }
    }
}

impl Default for QueryEngineConfig {
    fn default() -> (r: Self)
        ensures
            r@ == usual_config(DEFAULT_MODEL@),
    {
        QueryEngineConfig::for_model(DEFAULT_MODEL.to_owned())
    }
}

impl QueryEngineConfig {
    /// The usual configuration for a model.
    pub fn for_model(model: String) -> (r: QueryEngineConfig)
        ensures
            r@ == usual_config(model@),
    {
        QueryEngineConfig {
            model,
            max_tokens: 4096,
            max_turns: DEFAULT_MAX_TURNS,
            context_window: DEFAULT_CONTEXT_WINDOW,
            system_prompt: None,
            append_system_prompt: None,
            thinking_budget: None,
            tool_result_budget: DEFAULT_TOOL_RESULT_BUDGET,
            max_budget_nanos: None,
            fallback_model: None,
            auto_compact_enabled: true,
            session_id: None,
            parent_session_id: None,
        }
    }
}

} // verus!
