//! What an engine reports while it works.

use crate::compact::state::CompactionReason;
use crate::engine::budget::TokenWarningLevel;
use crate::fraction::Fraction;
use crate::json::JsonText;
use crate::types::{Message, MessageModel};
use vstd::prelude::*;

verus! {

/// Stop reasons for a turn.
#[derive(Debug, Clone, Copy, PartialEq, Eq, Structural)]
pub enum StopReason {
    EndTurn,
    MaxTokens,
    StopSequence,
    ToolUse,
    Error,
    Cancelled,
    BudgetExceeded,
    MaxTurns,
}

/// Events emitted by the query engine during streaming.
#[derive(Debug)]
pub enum QueryEngineEvent {
    /// Stream chunk received from API.
    StreamChunk(String),
    /// Tool execution started.
    ToolStart { tool_name: String, tool_id: String, input: JsonText },
    /// Tool execution completed.
    ToolEnd { tool_name: String, tool_id: String, result: String, is_error: bool },
    /// A complete message received.
    AssistantMessage(Message),
    /// Token usage update.
    TokenUsage { used: u64, remaining: u64, fraction: Fraction },
    /// Token warning state changed.
    TokenWarning { level: TokenWarningLevel, fraction: Fraction },
    /// Compaction started.
    CompactionStart { reason: CompactionReason },
    /// Compaction completed.
    CompactionComplete { summary: String, messages_removed: usize },
    /// Turn completed.
    TurnComplete { turn: u32, stop_reason: StopReason },
    /// Budget status update, in billionths of a dollar.
    BudgetStatus { cost_nanos: u64, limit_nanos: Option<u64> },
    /// Status/information message.
    Status(String),
    /// Error occurred.
    Error(String),
}

/// The model of an event.
pub enum EventModel {
    StreamChunk(Seq<char>),
    ToolStart { tool_name: Seq<char>, tool_id: Seq<char>, input: Seq<char> },
    ToolEnd { tool_name: Seq<char>, tool_id: Seq<char>, result: Seq<char>, is_error: bool },
    AssistantMessage(MessageModel),
    TokenUsage { used: u64, remaining: u64, fraction: Fraction },
    TokenWarning { level: TokenWarningLevel, fraction: Fraction },
    CompactionStart { reason: CompactionReason },
    CompactionComplete { summary: Seq<char>, messages_removed: nat },
    TurnComplete { turn: u32, stop_reason: StopReason },
    BudgetStatus { cost_nanos: u64, limit_nanos: Option<u64> },
    Status(Seq<char>),
    Error(Seq<char>),
}

impl View for QueryEngineEvent {
    type V = EventModel;

    open spec fn view(&self) -> EventModel {
        match *self {
            QueryEngineEvent::StreamChunk(text) => EventModel::StreamChunk(text@),
            QueryEngineEvent::ToolStart { tool_name, tool_id, input } => EventModel::ToolStart {
                tool_name: tool_name@,
                tool_id: tool_id@,
                input: input@,
            },
            QueryEngineEvent::ToolEnd { tool_name, tool_id, result, is_error } =>
            EventModel::ToolEnd {
                tool_name: tool_name@,
                tool_id: tool_id@,
                result: result@,
                is_error,
            },
            QueryEngineEvent::AssistantMessage(message) => EventModel::AssistantMessage(message@),
            QueryEngineEvent::TokenUsage { used, remaining, fraction } => EventModel::TokenUsage {
                used,
                remaining,
                fraction,
            },
            QueryEngineEvent::TokenWarning { level, fraction } => EventModel::TokenWarning {
                level,
                fraction,
            },
            QueryEngineEvent::CompactionStart { reason } => EventModel::CompactionStart { reason },
            QueryEngineEvent::CompactionComplete { summary, messages_removed } =>
            EventModel::CompactionComplete {
                summary: summary@,
                messages_removed: messages_removed as nat,
            },
            QueryEngineEvent::TurnComplete { turn, stop_reason } => EventModel::TurnComplete {
                turn,
                stop_reason,
            },
            QueryEngineEvent::BudgetStatus { cost_nanos, limit_nanos } =>
            EventModel::BudgetStatus { cost_nanos, limit_nanos },
            QueryEngineEvent::Status(text) => EventModel::Status(text@),
            QueryEngineEvent::Error(text) => EventModel::Error(text@),
        }
    }
}

/// The models of a sequence of events.
pub open spec fn events_view(events: Seq<QueryEngineEvent>) -> Seq<EventModel> {
    Seq::new(events.len(), |i: int| events[i]@)
}

impl Clone for QueryEngineEvent {
    fn clone(&self) -> (r: Self)
        ensures
            r@ == self@,
    {
        match self {
            QueryEngineEvent::StreamChunk(text) => QueryEngineEvent::StreamChunk(text.clone()),
            QueryEngineEvent::ToolStart { tool_name, tool_id, input } =>
            QueryEngineEvent::ToolStart {
                tool_name: tool_name.clone(),
                tool_id: tool_id.clone(),
                input: input.clone(),
            },
            QueryEngineEvent::ToolEnd { tool_name, tool_id, result, is_error } =>
            QueryEngineEvent::ToolEnd {
                tool_name: tool_name.clone(),
                tool_id: tool_id.clone(),
                result: result.clone(),
                is_error: *is_error,
            },
            QueryEngineEvent::AssistantMessage(message) => QueryEngineEvent::AssistantMessage(
                message.clone(),
            ),
            QueryEngineEvent::TokenUsage { used, remaining, fraction } =>
            QueryEngineEvent::TokenUsage {
                used: *used,
                remaining: *remaining,
                fraction: *fraction,
            },
            QueryEngineEvent::TokenWarning { level, fraction } => QueryEngineEvent::TokenWarning {
                level: *level,
                fraction: *fraction,
            },
            QueryEngineEvent::CompactionStart { reason } => QueryEngineEvent::CompactionStart {
                reason: *reason,
            },
            QueryEngineEvent::CompactionComplete { summary, messages_removed } =>
            QueryEngineEvent::CompactionComplete {
                summary: summary.clone(),
                messages_removed: *messages_removed,
            },
            QueryEngineEvent::TurnComplete { turn, stop_reason } =>
            QueryEngineEvent::TurnComplete { turn: *turn, stop_reason: *stop_reason },
            QueryEngineEvent::BudgetStatus { cost_nanos, limit_nanos } =>
            QueryEngineEvent::BudgetStatus { cost_nanos: *cost_nanos, limit_nanos: *limit_nanos },
            QueryEngineEvent::Status(text) => QueryEngineEvent::Status(text.clone()),
            QueryEngineEvent::Error(text) => QueryEngineEvent::Error(text.clone()),
        }
    }
}

} // verus!
