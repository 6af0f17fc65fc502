//! The state of a turn and its result.

use crate::clock::{instant_now, Timestamp};
use crate::engine::events::StopReason;
use crate::error::{ClaudeError, ErrorModel};
use crate::json::JsonText;
use crate::text::{clone_opt_text, opt_text};
use crate::types::{Message, MessageModel, UsageInfo};
use std::time::Instant;
use vstd::prelude::*;

verus! {

/// Record of a tool use.
#[derive(Debug)]
pub struct ToolUseRecord {
    pub tool_id: String,
    pub tool_name: String,
    pub input: JsonText,
    pub result: Option<String>,
    pub is_error: bool,
    pub duration_ms: u64,
}

/// The model of a tool use record.
pub struct ToolUseModel {
    pub tool_id: Seq<char>,
    pub tool_name: Seq<char>,
    pub input: Seq<char>,
    pub result: Option<Seq<char>>,
    pub is_error: bool,
    pub duration_ms: u64,
}

impl View for ToolUseRecord {
    type V = ToolUseModel;

    open spec fn view(&self) -> ToolUseModel {
        ToolUseModel {
            tool_id: self.tool_id@,
            tool_name: self.tool_name@,
            input: self.input@,
            result: opt_text(self.result),
            is_error: self.is_error,
            duration_ms: self.duration_ms,
        }
    }
}

impl Clone for ToolUseRecord {
    fn clone(&self) -> (r: Self)
        ensures
            r@ == self@,
    {
        ToolUseRecord {
            tool_id: self.tool_id.clone(),
            tool_name: self.tool_name.clone(),
            input: self.input.clone(),
            result: clone_opt_text(&self.result),
            is_error: self.is_error,
            duration_ms: self.duration_ms,
        }
    }
}

/// State tracked per turn.
#[derive(Debug)]
pub struct TurnState {
    /// Current turn number.
    pub turn_number: u32,
    /// Input tokens for this turn.
    pub input_tokens: u64,
    /// Output tokens for this turn.
    pub output_tokens: u64,
    /// Cache read tokens.
    pub cache_read_tokens: u64,
    /// Cache write tokens.
    pub cache_write_tokens: u64,
    /// Cost for this turn, in billionths of a dollar.
    pub cost_nanos: u64,
    /// Tool uses in this turn.
    pub tool_uses: Vec<ToolUseRecord>,
    /// Start time of the turn.
    pub started_at: Instant,
}

/// The model of a turn's state: all of it but the time at which it started.
pub struct TurnModel {
    pub turn_number: u32,
    pub input_tokens: u64,
    pub output_tokens: u64,
    pub cache_read_tokens: u64,
    pub cache_write_tokens: u64,
    pub cost_nanos: u64,
    pub tool_uses: Seq<ToolUseModel>,
}

impl View for TurnState {
    type V = TurnModel;

    open spec fn view(&self) -> TurnModel {
        TurnModel {
            turn_number: self.turn_number,
            input_tokens: self.input_tokens,
            output_tokens: self.output_tokens,
            cache_read_tokens: self.cache_read_tokens,
            cache_write_tokens: self.cache_write_tokens,
            cost_nanos: self.cost_nanos,
            tool_uses: Seq::new(self.tool_uses@.len(), |i: int| self.tool_uses@[i]@),
        }
    }
}

impl TurnModel {
    /// The state before the first turn.
    pub open spec fn fresh() -> TurnModel {
        TurnModel {
            turn_number: 0,
            input_tokens: 0,
            output_tokens: 0,
            cache_read_tokens: 0,
            cache_write_tokens: 0,
            cost_nanos: 0,
            tool_uses: Seq::empty(),
        }
    }

    /// The state at the start of the next turn.
    pub open spec fn next(self) -> TurnModel {
        TurnModel {
            turn_number: (self.turn_number + 1) as u32,
            tool_uses: Seq::empty(),
            ..self
        }
    }
}

impl Default for TurnState {
    fn default() -> (r: Self)
        ensures
            r@ == TurnModel::fresh(),
    {
        let r = TurnState {
            turn_number: 0,
            input_tokens: 0,
            output_tokens: 0,
            cache_read_tokens: 0,
            cache_write_tokens: 0,
            cost_nanos: 0,
            tool_uses: Vec::new(),
            started_at: instant_now(),
        };
        assert(r@.tool_uses =~= TurnModel::fresh().tool_uses);
        r
    }
}

impl TurnState {
    /// Starts the next turn, now.
    pub fn start_next(&mut self)
        requires
            old(self).turn_number < u32::MAX,
        ensures
            final(self)@ == old(self)@.next(),
    {
        self.turn_number = self.turn_number + 1;
        self.started_at = instant_now();
        self.tool_uses = Vec::new();
        assert(self@.tool_uses =~= Seq::empty());
    }
}

/// Record of a permission denial.
#[derive(Debug)]
pub struct PermissionDenial {
    pub tool_name: String,
    pub timestamp: Timestamp,
    pub reason: String,
}

/// The model of a permission denial.
pub struct DenialModel {
    pub tool_name: Seq<char>,
    pub timestamp: Timestamp,
    pub reason: Seq<char>,
}

impl View for PermissionDenial {
    type V = DenialModel;

    open spec fn view(&self) -> DenialModel {
        DenialModel {
            tool_name: self.tool_name@,
            timestamp: self.timestamp,
            reason: self.reason@,
        }
    }
}

impl Clone for PermissionDenial {
    fn clone(&self) -> (r: Self)
        ensures
            r@ == self@,
    {
        PermissionDenial {
            tool_name: self.tool_name.clone(),
            timestamp: self.timestamp,
            reason: self.reason.clone(),
        }
    }
}

/// The models of a sequence of denials.
pub open spec fn denials_view(denials: Seq<PermissionDenial>) -> Seq<DenialModel> {
    Seq::new(denials.len(), |i: int| denials[i]@)
}

/// Result of a turn execution.
#[derive(Debug)]
pub struct TurnResult {
    pub stop_reason: StopReason,
    pub message: Option<Message>,
    pub usage: Option<UsageInfo>,
}

/// The model of a turn's result.
pub struct TurnResultModel {
    pub stop_reason: StopReason,
    pub message: Option<MessageModel>,
    pub usage: Option<UsageInfo>,
}

impl View for TurnResult {
    type V = TurnResultModel;

    open spec fn view(&self) -> TurnResultModel {
        TurnResultModel {
            stop_reason: self.stop_reason,
            message: match self.message {
                Some(m) => Some(m@),
                None => None,
            },
            usage: self.usage,
        }
    }
}

/// A turn that stopped without a message.
pub open spec fn stopped(stop_reason: StopReason) -> TurnResultModel {
    TurnResultModel { stop_reason, message: None, usage: None }
}

/// What a turn came to, as a model.
pub open spec fn turn_outcome(r: Result<TurnResult, ClaudeError>) -> Result<
    TurnResultModel,
    ErrorModel,
> {
    match r {
        Ok(t) => Ok(t@),
        Err(e) => Err(e@),
    }
}

} // verus!
