//! The engine as a state machine: what each operation does to its state.

use crate::compact::conversation::{
    auto_compact_fits, auto_compact_step, compaction, AutoCompactStep, CompactionModel,
};
use crate::compact::estimate::chars_in;
use crate::compact::micro::{micro_cleared, micro_compacted};
use crate::compact::prompt::summary_message;
use crate::compact::state::{CompactStateModel, CompactionReason};
use crate::compact::threshold::{
    default_compact_config, CompactionStrategy, AUTOCOMPACT_TRIGGER_PERCENT, KEEP_RECENT_MESSAGES,
};
use crate::counting::{count_in, Counted};
use crate::engine::budget::{budget_of, TokenBudget};
use crate::engine::config::ConfigModel;
use crate::engine::estimate::{conversation_tokens, estimable};
use crate::engine::events::{EventModel, StopReason};
use crate::engine::summary::messages_summary;
use crate::engine::tool_budget::{budget_cost, tool_result_chars, within_budget};
use crate::engine::turn::{stopped, DenialModel, TurnModel, TurnResultModel};
use crate::error::ErrorModel;
use crate::estimate::padded_tokens;
use crate::seqs::sum_of;
use crate::text::decimal;
use crate::types::{text_message, MessageCost, MessageModel, Role};
use vstd::prelude::*;

verus! {

/// The state of an engine.
pub struct EngineModel {
    pub config: ConfigModel,
    pub session_id: Seq<char>,
    /// The conversation.
    pub messages: Seq<MessageModel>,
    /// The current turn.
    pub turn: TurnModel,
    /// Whether someone listens for events.
    pub streaming: bool,
    /// The events that wait to be handed out.
    pub events: Seq<EventModel>,
    pub cancelled: bool,
    /// The context window, as last measured.
    pub budget: TokenBudget,
    pub denials: Seq<DenialModel>,
    pub compact_state: CompactStateModel,
    /// What the user wrote while a turn was running.
    pub pending: Seq<Seq<char>>,
}

/// User messages with the given texts.
pub open spec fn as_user_messages(texts: Seq<Seq<char>>) -> Seq<MessageModel> {
    Seq::new(texts.len(), |i: int| text_message(Role::User, texts[i]))
}

/// What the engine says after truncating tool results.
pub open spec fn truncation_notice(count: nat) -> Seq<char> {
    "["@ + decimal(count) + " older tool result(s) truncated to save context]"@
}

/// What the engine says after resuming a session.
pub open spec fn resume_notice(count: nat) -> Seq<char> {
    "Resumed session with "@ + decimal(count) + " messages"@
}

/// What a strategy does to a conversation.
#[derive(Debug, Clone, Copy, PartialEq, Eq, Structural)]
pub enum CompactionPlan {
    /// Nothing.
    Refuse,
    /// Clear the tool results of all but the recent messages.
    ClearResults,
    /// Summarize all but so many messages.
    Summarize { keep_recent: usize },
}

/// What a strategy does to a conversation: two of them touch tool results
/// only, and full compaction keeps the recent messages.
pub open spec fn plan_of(strategy: CompactionStrategy) -> CompactionPlan {
    match strategy {
        CompactionStrategy::Full => CompactionPlan::Summarize {
            keep_recent: KEEP_RECENT_MESSAGES,
        },
        CompactionStrategy::Partial { keep_recent } => CompactionPlan::Summarize { keep_recent },
        CompactionStrategy::MicroCompact => CompactionPlan::ClearResults,
        CompactionStrategy::ToolResultsOnly => CompactionPlan::ClearResults,
        CompactionStrategy::Nothing => CompactionPlan::Refuse,
    }
}

/// A conversation with the tool results of all but the recent messages
/// cleared.
pub open spec fn results_cleared(messages: Seq<MessageModel>) -> Seq<MessageModel> {
    micro_compacted(messages, KEEP_RECENT_MESSAGES as nat)
}

/// How many tokens clearing saves: none where the notices are no smaller than
/// the results.
pub open spec fn tokens_freed(before: Seq<MessageModel>, after: Seq<MessageModel>) -> nat {
    let had = padded_tokens(chars_in(before));
    let has = padded_tokens(chars_in(after));
    if had <= has {
        0
    } else {
        (had - has) as nat
    }
}

/// A compaction on request that touches tool results only: every message
/// stays, and there is no summary.
pub open spec fn clearing_compaction(messages: Seq<MessageModel>) -> CompactionModel {
    CompactionModel {
        messages: results_cleared(messages),
        summary_message: None,
        messages_removed: 0,
        messages_preserved: messages.len() as int,
        tokens_saved: tokens_freed(messages, results_cleared(messages)),
        reason: CompactionReason::UserRequested,
    }
}

/// Where a conversation is cut to keep so many messages.
pub open spec fn cut_at(len: nat, keep_recent: nat) -> int {
    if len <= keep_recent {
        0
    } else {
        len - keep_recent
    }
}

/// A compaction on request: a summary in front of the messages that are kept.
pub open spec fn requested_compaction(
    messages: Seq<MessageModel>,
    keep_recent: nat,
) -> CompactionModel {
    let at = cut_at(messages.len(), keep_recent);
    let summary = summary_message(messages_summary(messages.take(at)));
    CompactionModel {
        messages: seq![summary] + messages.skip(at),
        summary_message: Some(summary),
        messages_removed: at,
        messages_preserved: messages.len() - at,
        tokens_saved: padded_tokens(chars_in(messages.take(at))),
        reason: CompactionReason::UserRequested,
    }
}

/// Which of a message's token counts is meant.
#[derive(Debug, Clone, Copy, PartialEq, Eq, Structural)]
pub enum UsageKind {
    Input,
    Output,
    CacheRead,
    CacheCreation,
}

/// The tokens that a cost says of a kind.
pub open spec fn cost_tokens(cost: MessageCost, kind: UsageKind) -> nat {
    match kind {
        UsageKind::Input => cost.input_tokens as nat,
        UsageKind::Output => cost.output_tokens as nat,
        UsageKind::CacheRead => cost.cache_read_input_tokens as nat,
        UsageKind::CacheCreation => cost.cache_creation_input_tokens as nat,
    }
}

/// The tokens of a kind that a message was billed for.
pub open spec fn billed(kind: UsageKind) -> spec_fn(MessageModel) -> nat {
    |m: MessageModel|
        match m.cost {
            Some(cost) => cost_tokens(cost, kind),
            None => 0,
        }
}

/// The tokens of a kind that a conversation was billed for.
pub open spec fn billed_total(messages: Seq<MessageModel>, kind: UsageKind) -> nat {
    sum_of(messages, billed(kind))
}

impl EngineModel {
    /// A new engine.
    pub open spec fn fresh(config: ConfigModel, session_id: Seq<char>) -> EngineModel {
        EngineModel {
            config,
            session_id,
            messages: Seq::empty(),
            turn: TurnModel::fresh(),
            streaming: false,
            events: Seq::empty(),
            cancelled: false,
            budget: budget_of(0, config.context_window),
            denials: Seq::empty(),
            compact_state: CompactStateModel::fresh(),
            pending: Seq::empty(),
        }
    }

    /// The engine after an event, which waits where someone listens.
    pub open spec fn emitted(self, event: EventModel) -> EngineModel {
        if self.streaming {
            EngineModel { events: self.events.push(event), ..self }
        } else {
            self
        }
    }

    /// The engine with one message more.
    pub open spec fn with_message(self, message: MessageModel) -> EngineModel {
        EngineModel { messages: self.messages.push(message), ..self }
    }

    /// The engine after measuring the context window, which it reports.
    pub open spec fn measured(self, tokens_used: u64) -> EngineModel {
        let budget = budget_of(tokens_used, self.config.context_window);
        EngineModel { budget, ..self }.emitted(
            EventModel::TokenUsage {
                used: budget.tokens_used,
                remaining: budget.tokens_remaining,
                fraction: budget.fill_fraction,
            },
        ).emitted(
            EventModel::TokenWarning { level: budget.level(), fraction: budget.fill_fraction },
        )
    }

    /// Whether the window is so full, as last measured, that the engine
    /// compacts on its own.
    pub open spec fn compaction_due(self) -> bool {
        self.config.auto_compact_enabled && self.budget.filled_to(
            AUTOCOMPACT_TRIGGER_PERCENT as nat,
        )
    }

    /// What the compaction that the engine does on its own comes to.
    pub open spec fn auto_step(self) -> AutoCompactStep {
        auto_compact_step(self.messages, self.compact_state, default_compact_config())
    }

    /// The engine after compacting on its own, where that is due.
    pub open spec fn auto_compacted(self) -> EngineModel {
        if !self.compaction_due() {
            self
        } else {
            let told = self.emitted(
                EventModel::Status("Context window approaching limit, compacting..."@),
            );
            match self.auto_step() {
                AutoCompactStep::Idle => told,
                AutoCompactStep::TooShort => EngineModel {
                    compact_state: self.compact_state.after_failure(),
                    ..told
                },
                AutoCompactStep::Compacts => EngineModel {
                    messages: compaction(
                        self.messages,
                        KEEP_RECENT_MESSAGES as nat,
                        CompactionReason::AutoCompactThreshold,
                    ).messages,
                    compact_state: self.compact_state.after_success(
                        CompactionReason::AutoCompactThreshold,
                    ),
                    ..told
                },
            }
        }
    }

    /// What the engine reports of compacting on its own.
    pub open spec fn auto_compact_result(self) -> Result<Option<CompactionModel>, ErrorModel> {
        if !self.compaction_due() {
            Ok(None)
        } else {
            match self.auto_step() {
                AutoCompactStep::Idle => Ok(None),
                AutoCompactStep::TooShort => Err(
                    ErrorModel::Other("Not enough messages to compact"@),
                ),
                AutoCompactStep::Compacts => Ok(
                    Some(
                        compaction(
                            self.messages,
                            KEEP_RECENT_MESSAGES as nat,
                            CompactionReason::AutoCompactThreshold,
                        ),
                    ),
                ),
            }
        }
    }

    /// Whether the counters have room for compacting on its own.
    pub open spec fn auto_compact_fits(self) -> bool {
        self.compaction_due() ==> auto_compact_fits(
            self.messages,
            self.compact_state,
            default_compact_config(),
        )
    }

    /// The engine after compacting on request.
    pub open spec fn compacted(self, strategy: CompactionStrategy) -> EngineModel {
        if self.messages.len() <= KEEP_RECENT_MESSAGES {
            self
        } else {
            let told = self.emitted(
                EventModel::CompactionStart { reason: CompactionReason::UserRequested },
            );
            match plan_of(strategy) {
                CompactionPlan::Refuse => told,
                CompactionPlan::ClearResults => EngineModel {
                    messages: results_cleared(self.messages),
                    compact_state: self.compact_state.after_success(
                        CompactionReason::UserRequested,
                    ),
                    ..told
                }.emitted(
                    EventModel::CompactionComplete {
                        summary: Seq::empty(),
                        messages_removed: 0,
                    },
                ),
                CompactionPlan::Summarize { keep_recent } => {
                    let c = requested_compaction(self.messages, keep_recent as nat);
                    EngineModel {
                        messages: c.messages,
                        compact_state: self.compact_state.after_success(
                            CompactionReason::UserRequested,
                        ),
                        ..told
                    }.emitted(
                        EventModel::CompactionComplete {
                            summary: messages_summary(
                                self.messages.take(
                                    cut_at(self.messages.len(), keep_recent as nat),
                                ),
                            ),
                            messages_removed: c.messages_removed as nat,
                        },
                    )
                },
            }
        }
    }

    /// What the engine reports of compacting on request.
    pub open spec fn compact_result(self, strategy: CompactionStrategy) -> Result<
        CompactionModel,
        ErrorModel,
    > {
        if self.messages.len() <= KEEP_RECENT_MESSAGES {
            Err(ErrorModel::Other("Not enough messages to compact"@))
        } else {
            match plan_of(strategy) {
                CompactionPlan::Refuse => Err(ErrorModel::Other("No compaction strategy"@)),
                CompactionPlan::ClearResults => Ok(clearing_compaction(self.messages)),
                CompactionPlan::Summarize { keep_recent } => Ok(
                    requested_compaction(self.messages, keep_recent as nat),
                ),
            }
        }
    }

    /// Whether the counters have room for compacting on request.
    pub open spec fn compact_fits(self, strategy: CompactionStrategy) -> bool {
        self.messages.len() > KEEP_RECENT_MESSAGES ==> match plan_of(strategy) {
            CompactionPlan::Refuse => true,
            CompactionPlan::ClearResults => {
                &&& chars_in(self.messages) <= usize::MAX
                &&& micro_cleared(self.messages, KEEP_RECENT_MESSAGES as nat) <= usize::MAX
                &&& chars_in(results_cleared(self.messages)) <= usize::MAX
                &&& self.compact_state.compaction_count < u32::MAX
            },
            CompactionPlan::Summarize { keep_recent } => {
                let old_messages = self.messages.take(
                    cut_at(self.messages.len(), keep_recent as nat),
                );
                &&& chars_in(old_messages) <= usize::MAX
                &&& count_in(old_messages, Counted::ToolUses) <= usize::MAX
                &&& self.compact_state.compaction_count < u32::MAX
            },
        }
    }

    /// The engine at the start of the next turn.
    pub open spec fn started(self) -> EngineModel {
        EngineModel { turn: self.turn.next(), ..self }
    }

    /// The engine after taking what the user wrote meanwhile into the
    /// conversation.
    pub open spec fn refilled(self) -> EngineModel {
        EngineModel {
            messages: self.messages + as_user_messages(self.pending),
            pending: Seq::empty(),
            ..self
        }
    }

    /// The engine after applying the budget for tool results.
    pub open spec fn within_result_budget(self) -> EngineModel {
        EngineModel {
            messages: within_budget(self.messages, self.config.tool_result_budget as nat),
            ..self
        }
    }

    /// How many tool results the budget costs.
    pub open spec fn result_budget_cost(self) -> nat {
        budget_cost(self.messages, self.config.tool_result_budget as nat)
    }

    /// The engine after applying the budget for tool results, which it
    /// reports where results went.
    pub open spec fn trimmed(self) -> EngineModel {
        if self.result_budget_cost() > 0 {
            self.within_result_budget().emitted(
                EventModel::Status(truncation_notice(self.result_budget_cost())),
            )
        } else {
            self.within_result_budget()
        }
    }

    /// The engine of a turn that goes on, before it compacts: with pending
    /// messages, tool results within budget, and the window measured.
    pub open spec fn prepared(self) -> EngineModel {
        let trimmed = self.refilled().trimmed();
        trimmed.measured(conversation_tokens(trimmed.messages) as u64)
    }

    /// Whether a turn ends before it looks at the conversation: there were
    /// too many, or it was cancelled.
    pub open spec fn ends_early(self) -> bool {
        self.turn.turn_number > self.config.max_turns || self.cancelled
    }

    /// Whether so much money reaches the spend cap.
    pub open spec fn cap_reached(self, spent_nanos: u64) -> bool {
        self.config.max_budget_nanos matches Some(limit) && spent_nanos >= limit
    }

    /// The engine after a turn.
    pub open spec fn after_turn(self, spent_nanos: u64) -> EngineModel {
        let started = self.started();
        if started.turn.turn_number > self.config.max_turns {
            started.emitted(
                EventModel::TurnComplete {
                    turn: started.turn.turn_number,
                    stop_reason: StopReason::MaxTurns,
                },
            )
        } else if self.cancelled {
            started
        } else {
            let prepared = started.prepared();
            let compacted = prepared.auto_compacted();
            if prepared.auto_compact_result() is Ok && self.cap_reached(spent_nanos) {
                compacted.emitted(
                    EventModel::BudgetStatus {
                        cost_nanos: spent_nanos,
                        limit_nanos: self.config.max_budget_nanos,
                    },
                )
            } else {
                compacted
            }
        }
    }

    /// What a turn comes to.
    pub open spec fn turn_result(self, spent_nanos: u64) -> Result<TurnResultModel, ErrorModel> {
        let started = self.started();
        if started.turn.turn_number > self.config.max_turns {
            Ok(stopped(StopReason::MaxTurns))
        } else if self.cancelled {
            Err(ErrorModel::Cancelled)
        } else {
            match started.prepared().auto_compact_result() {
                Err(e) => Err(e),
                Ok(_) => if self.cap_reached(spent_nanos) {
                    Ok(stopped(StopReason::BudgetExceeded))
                } else {
                    Ok(stopped(StopReason::EndTurn))
                },
            }
        }
    }

    /// Whether the sizes, estimates and counters of a turn that goes on are
    /// machine numbers.
    pub open spec fn preparation_fits(self) -> bool {
        &&& tool_result_chars(self.refilled().messages) <= usize::MAX
        &&& estimable(self.refilled().trimmed().messages)
        &&& self.prepared().auto_compact_fits()
    }

    /// Whether the sizes, estimates and counters of a turn are machine
    /// numbers.
    pub open spec fn turn_fits(self) -> bool {
        &&& self.turn.turn_number < u32::MAX
        &&& self.started().ends_early() || self.started().preparation_fits()
    }

    /// The engine after the user submitted a message, before the turn.
    pub open spec fn submitted(self, content: Seq<char>) -> EngineModel {
        self.with_message(text_message(Role::User, content)).emitted(
            EventModel::AssistantMessage(text_message(Role::User, content)),
        )
    }

    /// The engine after clearing the conversation.
    pub open spec fn cleared(self) -> EngineModel {
        EngineModel {
            messages: Seq::empty(),
            turn: TurnModel::fresh(),
            compact_state: CompactStateModel::fresh(),
            ..self
        }.emitted(EventModel::Status("Conversation cleared"@))
    }

    /// The engine after resuming a session.
    pub open spec fn resumed(self, messages: Seq<MessageModel>) -> EngineModel {
        EngineModel { messages, ..self }.emitted(
            EventModel::Status(resume_notice(messages.len())),
        )
    }
}

} // verus!
