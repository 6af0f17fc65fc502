//! The query engine.

use crate::clock::{utc_now, Timestamp};
use crate::compact::conversation::{
    auto_compact_if_needed, can_auto_compact, CompactResult, CompactionModel,
};
use crate::compact::estimate::{chars_fit, chars_in, estimate_tokens_for_messages};
use crate::compact::micro::{checked_cleared, micro_cleared, micro_compact_messages};
use crate::compact::prompt::format_compact_summary as summary_as_message;
use crate::compact::state::{AutoCompactState, CompactionReason};
use crate::compact::threshold::{CompactConfig, CompactionStrategy, KEEP_RECENT_MESSAGES};
use crate::counting::{checked_count, Counted};
use crate::engine::budget::TokenBudget;
use crate::engine::config::QueryEngineConfig;
use crate::engine::estimate::{checked_tokens, conversation_tokens, estimable};
use crate::engine::events::{events_view, EventModel, QueryEngineEvent, StopReason};
use crate::engine::model::{
    as_user_messages, billed, billed_total, clearing_compaction, plan_of, results_cleared,
    CompactionPlan, EngineModel, UsageKind,
};
use crate::engine::session::{new_session_id, random_uuid_text};
use crate::engine::summary::format_compact_summary;
use crate::engine::tool_budget::{
    apply_tool_result_budget, checked_tool_result_chars, tool_result_chars,
};
use crate::engine::turn::{
    denials_view, turn_outcome, DenialModel, PermissionDenial, TurnResult, TurnState,
};
use crate::error::{ClaudeError, ErrorModel};
use crate::seqs::{lemma_sum_prefix, lemma_sum_step};
use crate::text::{clone_opt_text, push_decimal};
use crate::types::{clone_messages, messages_view, Message, MessageModel, UsageInfo};
use vstd::prelude::*;
use vstd::slice::slice_subrange;
use vstd::string::StringExecFns;

verus! {

/// The query engine, which keeps the state of a conversation: its messages,
/// its turns, its budgets and its compactions.
pub struct QueryEngine {
    config: QueryEngineConfig,
    messages: Vec<Message>,
    turn_state: TurnState,
    streaming: bool,
    events: Vec<QueryEngineEvent>,
    cancelled: bool,
    token_budget: TokenBudget,
    permission_denials: Vec<PermissionDenial>,
    session_id: String,
    auto_compact_state: AutoCompactState,
    pending_messages: Vec<String>,
}

/// The views of texts.
pub open spec fn texts_view(texts: Seq<String>) -> Seq<Seq<char>> {
    Seq::new(texts.len(), |i: int| texts[i]@)
}

/// What a compaction on its own came to, as a model.
pub open spec fn auto_compact_outcome(r: Result<Option<CompactResult>, ClaudeError>) -> Result<
    Option<CompactionModel>,
    ErrorModel,
> {
    match r {
        Ok(Some(c)) => Ok(Some(c@)),
        Ok(None) => Ok(None),
        Err(e) => Err(e@),
    }
}

/// What a compaction on request came to, as a model.
pub open spec fn compact_outcome(r: Result<CompactResult, ClaudeError>) -> Result<
    CompactionModel,
    ErrorModel,
> {
    match r {
        Ok(c) => Ok(c@),
        Err(e) => Err(e@),
    }
}

impl View for QueryEngine {
    type V = EngineModel;

    closed spec fn view(&self) -> EngineModel {
        EngineModel {
            config: self.config@,
            session_id: self.session_id@,
            messages: messages_view(self.messages@),
            turn: self.turn_state@,
            streaming: self.streaming,
            events: events_view(self.events@),
            cancelled: self.cancelled,
            budget: self.token_budget,
            denials: denials_view(self.permission_denials@),
            compact_state: self.auto_compact_state@,
            pending: texts_view(self.pending_messages@),
        }
    }
}

impl QueryEngine {
    /// Creates an engine with a given session ID.
    pub fn with_session_id(config: QueryEngineConfig, session_id: String) -> (r: QueryEngine)
        ensures
            r@ == EngineModel::fresh(config@, session_id@),
    {
        let token_budget = TokenBudget::new(0, config.context_window);
        let r = QueryEngine {
            config,
            messages: Vec::new(),
            turn_state: TurnState::default(),
            streaming: false,
            events: Vec::new(),
            cancelled: false,
            token_budget,
            permission_denials: Vec::new(),
            session_id,
            auto_compact_state: AutoCompactState::new(),
            pending_messages: Vec::new(),
        };
        proof {
            let fresh = EngineModel::fresh(config@, session_id@);
            assert(r@.messages =~= fresh.messages);
            assert(r@.events =~= fresh.events);
            assert(r@.denials =~= fresh.denials);
            assert(r@.pending =~= fresh.pending);
        }
        r
    }

    /// Creates a new engine with the given configuration. The session ID is
    /// that of the configuration, or a new one.
    pub fn new(config: QueryEngineConfig) -> (r: QueryEngine)
        ensures
            r@ == EngineModel::fresh(config@, r@.session_id),
            match config@.session_id {
                Some(id) => r@.session_id == id,
                None => random_uuid_text(r@.session_id),
            },
    {
        let session_id = match clone_opt_text(&config.session_id) {
            Some(id) => id,
            None => new_session_id(),
        };
        QueryEngine::with_session_id(config, session_id)
    }

    /// Lets the engine keep its events for [`QueryEngine::take_events`].
    pub fn with_event_stream(self) -> (r: QueryEngine)
        ensures
            r@ == (EngineModel { streaming: true, ..self@ }),
    {
        let mut r = self;
        r.streaming = true;
        r
    }

    /// Takes the events that wait to be handed out, in the order in which
    /// they were emitted.
    pub fn take_events(&mut self) -> (r: Vec<QueryEngineEvent>)
        ensures
            events_view(r@) == old(self)@.events,
            final(self)@ == (EngineModel { events: Seq::empty(), ..old(self)@ }),
    {
        let mut r: Vec<QueryEngineEvent> = Vec::new();
        r.append(&mut self.events);
        assert(events_view(r@) =~= old(self)@.events);
        assert(self@.events =~= Seq::empty());
        r
    }

    /// The session ID.
    pub fn session_id(&self) -> (r: &str)
        ensures
            r@ == self@.session_id,
    {
        self.session_id.as_str()
    }

    /// A copy of the current messages.
    pub fn get_messages(&self) -> (r: Vec<Message>)
        ensures
            messages_view(r@) == self@.messages,
    {
        clone_messages(self.messages.as_slice())
    }

    /// The current message count.
    pub fn message_count(&self) -> (r: usize)
        ensures
            r == self@.messages.len(),
    {
        self.messages.len()
    }

    /// Adds a message to the conversation.
    pub fn add_message(&mut self, message: Message)
        ensures
            final(self)@ == old(self)@.with_message(message@),
    {
        self.messages.push(message);
        assert(self@.messages =~= old(self)@.messages.push(message@));
    }

    /// Queues a pending message (for input during tool execution).
    pub fn queue_pending_message(&mut self, text: String)
        ensures
            final(self)@ == (EngineModel { pending: old(self)@.pending.push(text@), ..old(self)@ }),
    {
        self.pending_messages.push(text);
        assert(self@.pending =~= old(self)@.pending.push(text@));
    }

    /// Drains pending messages, in the order in which they were queued.
    pub fn drain_pending_messages(&mut self) -> (r: Vec<String>)
        ensures
            texts_view(r@) == old(self)@.pending,
            final(self)@ == (EngineModel { pending: Seq::empty(), ..old(self)@ }),
    {
        let mut r: Vec<String> = Vec::new();
        r.append(&mut self.pending_messages);
        assert(texts_view(r@) =~= old(self)@.pending);
        assert(self@.pending =~= Seq::empty());
        r
    }

    /// Records a permission denial at a given time.
    pub fn record_permission_denial_at(
        &mut self,
        tool_name: String,
        reason: String,
        timestamp: Timestamp,
    )
        ensures
            final(self)@ == (EngineModel {
                denials: old(self)@.denials.push(
                    DenialModel { tool_name: tool_name@, timestamp, reason: reason@ },
                ),
                ..old(self)@
            }),
    {
        let denial = PermissionDenial { tool_name, timestamp, reason };
        self.permission_denials.push(denial);
        assert(self@.denials =~= old(self)@.denials.push(denial@));
    }

    /// Records a permission denial, now.
    pub fn record_permission_denial(&mut self, tool_name: String, reason: String)
        ensures
            exists|timestamp: Timestamp| #[trigger]
                timestamp.in_calendar() && final(self)@ == (EngineModel {
                    denials: old(self)@.denials.push(
                        DenialModel { tool_name: tool_name@, timestamp, reason: reason@ },
                    ),
                    ..old(self)@
                }),
    {
        let now = utc_now();
        self.record_permission_denial_at(tool_name, reason, now);
        assert(now.in_calendar());
    }

    /// The permission denials, in order.
    pub fn get_permission_denials(&self) -> (r: Vec<PermissionDenial>)
        ensures
            denials_view(r@) == self@.denials,
    {
        let mut r: Vec<PermissionDenial> = Vec::new();
        let mut i: usize = 0;
        while i < self.permission_denials.len()
            invariant
                i <= self.permission_denials.len(),
                r.len() == i,
                forall|k: int|
                    0 <= k < i ==> (#[trigger] r@[k])@ == self.permission_denials@[k]@,
            decreases self.permission_denials.len() - i,
        {
            r.push(self.permission_denials[i].clone());
            i += 1;
        }
        assert(denials_view(r@) =~= self@.denials);
        r
    }

    /// Emits an event, where someone listens.
    fn emit(&mut self, event: QueryEngineEvent)
        ensures
            final(self)@ == old(self)@.emitted(event@),
    {
        if self.streaming {
            self.events.push(event);
            assert(self@.events =~= old(self)@.events.push(event@));
        }
    }

    /// Measures the context window and reports it.
    pub fn check_token_budget(&mut self, tokens_used: u64)
        ensures
            final(self)@ == old(self)@.measured(tokens_used),
    {
        let budget = TokenBudget::new(tokens_used, self.config.context_window);
        let level = budget.warning_level();
        self.token_budget = budget;
        self.emit(
            QueryEngineEvent::TokenUsage {
                used: budget.tokens_used,
                remaining: budget.tokens_remaining,
                fraction: budget.fill_fraction,
            },
        );
        self.emit(QueryEngineEvent::TokenWarning { level, fraction: budget.fill_fraction });
    }

    /// The state of the context window, as last measured.
    pub fn token_budget(&self) -> (r: TokenBudget)
        ensures
            r == self@.budget,
    {
        self.token_budget
    }

    /// Checks if auto-compact should trigger.
    pub fn should_auto_compact(&self) -> (r: bool)
        ensures
            r == self@.compaction_due(),
    {
        self.config.auto_compact_enabled && self.token_budget.compaction_due()
    }

    /// Checks that the counters have room for clearing tool results.
    fn can_clear_results(&self) -> (r: bool)
        ensures
            r == {
                &&& chars_in(self@.messages) <= usize::MAX
                &&& micro_cleared(self@.messages, KEEP_RECENT_MESSAGES as nat) <= usize::MAX
                &&& chars_in(results_cleared(self@.messages)) <= usize::MAX
                &&& self@.compact_state.compaction_count < u32::MAX
            },
    {
        if !chars_fit(self.messages.as_slice()) || checked_cleared(
            self.messages.as_slice(),
            KEEP_RECENT_MESSAGES,
        ).is_none() {
            return false;
        }
        let mut copy = clone_messages(self.messages.as_slice());
        micro_compact_messages(&mut copy, KEEP_RECENT_MESSAGES);
        chars_fit(copy.as_slice()) && self.auto_compact_state.compaction_count < u32::MAX
    }

    /// Clears the tool results of all but the recent messages, on request.
    fn clear_results(&mut self) -> (r: CompactResult)
        requires
            chars_in(old(self)@.messages) <= usize::MAX,
            micro_cleared(old(self)@.messages, KEEP_RECENT_MESSAGES as nat) <= usize::MAX,
            chars_in(results_cleared(old(self)@.messages)) <= usize::MAX,
            old(self)@.compact_state.compaction_count < u32::MAX,
        ensures
            final(self)@ == (EngineModel {
                messages: results_cleared(old(self)@.messages),
                compact_state: old(self)@.compact_state.after_success(
                    CompactionReason::UserRequested,
                ),
                ..old(self)@
            }).emitted(
                EventModel::CompactionComplete { summary: Seq::empty(), messages_removed: 0 },
            ),
            r@ == clearing_compaction(old(self)@.messages),
    {
        let had: usize = estimate_tokens_for_messages(self.messages.as_slice());
        micro_compact_messages(&mut self.messages, KEEP_RECENT_MESSAGES);
        let has: usize = estimate_tokens_for_messages(self.messages.as_slice());
        self.auto_compact_state.on_success(CompactionReason::UserRequested);
        let result = CompactResult {
            messages: clone_messages(self.messages.as_slice()),
            summary_message: None,
            messages_removed: 0,
            messages_preserved: self.messages.len(),
            tokens_saved: had.saturating_sub(has) as u64,
            reason: CompactionReason::UserRequested,
        };
        let summary = String::new();
        assert(summary@ =~= Seq::empty());
        self.emit(QueryEngineEvent::CompactionComplete { summary, messages_removed: 0 });
        result
    }

    /// Checks that the counters have room for [`QueryEngine::compact`].
    pub fn can_compact(&self, strategy: CompactionStrategy) -> (r: bool)
        ensures
            r == self@.compact_fits(strategy),
    {
        if self.messages.len() <= KEEP_RECENT_MESSAGES {
            return true;
        }
        let keep_recent: usize = match plan(strategy) {
            CompactionPlan::Summarize { keep_recent } => keep_recent,
            CompactionPlan::ClearResults => {
                return self.can_clear_results();
            },
            CompactionPlan::Refuse => {
                return true;
            },
        };
        let split_at: usize = self.messages.len().saturating_sub(keep_recent);
        let older = slice_subrange(self.messages.as_slice(), 0, split_at);
        proof {
            assert(messages_view(older@) =~= self@.messages.take(split_at as int));
        }
        chars_fit(older) && checked_count(older, Counted::ToolUses).is_some()
            && self.auto_compact_state.compaction_count < u32::MAX
    }

    /// Performs context compaction: the older messages give way to a summary,
    /// or only their tool results are cleared, as the strategy says.
    pub fn compact(&mut self, strategy: CompactionStrategy) -> (r: Result<
        CompactResult,
        ClaudeError,
    >)
        requires
            old(self)@.compact_fits(strategy),
        ensures
            final(self)@ == old(self)@.compacted(strategy),
            compact_outcome(r) == old(self)@.compact_result(strategy),
    {
        let ghost before = self@;
        if self.messages.len() <= KEEP_RECENT_MESSAGES {
            return Err(ClaudeError::Other("Not enough messages to compact".to_owned()));
        }
        self.emit(QueryEngineEvent::CompactionStart { reason: CompactionReason::UserRequested });
        let keep_recent: usize = match plan(strategy) {
            CompactionPlan::Summarize { keep_recent } => keep_recent,
            CompactionPlan::ClearResults => {
                return Ok(self.clear_results());
            },
            CompactionPlan::Refuse => {
                return Err(ClaudeError::Other("No compaction strategy".to_owned()));
            },
        };
        let split_at: usize = self.messages.len().saturating_sub(keep_recent);
        let ghost at = split_at as int;
        let preserved = self.messages.split_off(split_at);
        let mut messages = preserved;
        let preserved_count: usize = messages.len();
        let ghost model = before.messages;
        proof {
            assert(messages_view(self.messages@) =~= model.take(at));
            assert(messages_view(messages@) =~= model.skip(at));
        }
        let summary_text = format_compact_summary(self.messages.as_slice());
        let summary_message = summary_as_message(summary_text.as_str());
        let removed: usize = self.messages.len();
        let tokens_saved: u64 = estimate_tokens_for_messages(self.messages.as_slice()) as u64;
        let mut compacted: Vec<Message> = Vec::new();
        compacted.push(summary_message.clone());
        compacted.append(&mut messages);
        proof {
            assert(messages_view(compacted@) =~= seq![summary_message@] + model.skip(at));
        }
        self.messages = compacted;
        self.auto_compact_state.on_success(CompactionReason::UserRequested);
        let result = CompactResult {
            messages: clone_messages(self.messages.as_slice()),
            summary_message: Some(summary_message),
            messages_removed: removed,
            messages_preserved: preserved_count,
            tokens_saved,
            reason: CompactionReason::UserRequested,
        };
        self.emit(
            QueryEngineEvent::CompactionComplete {
                summary: summary_text,
                messages_removed: removed,
            },
        );
        Ok(result)
    }

    /// Performs auto-compact if needed.
    pub fn auto_compact_if_needed(&mut self) -> (r: Result<Option<CompactResult>, ClaudeError>)
        requires
            old(self)@.auto_compact_fits(),
        ensures
            final(self)@ == old(self)@.auto_compacted(),
            auto_compact_outcome(r) == old(self)@.auto_compact_result(),
    {
        if !self.should_auto_compact() {
            return Ok(None);
        }
        self.emit(
            QueryEngineEvent::Status("Context window approaching limit, compacting...".to_owned()),
        );
        let config = CompactConfig::default();
        auto_compact_if_needed(
            &mut self.messages,
            self.config.model.as_str(),
            &mut self.auto_compact_state,
            &config,
        )
    }

    /// Applies the tool result budget: old tool results are truncated if
    /// needed. Gives back how many.
    pub fn apply_tool_result_budget(&mut self) -> (r: usize)
        requires
            tool_result_chars(old(self)@.messages) <= usize::MAX,
        ensures
            final(self)@ == old(self)@.within_result_budget(),
            r == old(self)@.result_budget_cost(),
    {
        apply_tool_result_budget(&mut self.messages, self.config.tool_result_budget)
    }

    /// Estimates the token count of the conversation.
    pub fn estimate_tokens(&self) -> (r: u64)
        requires
            estimable(self@.messages),
        ensures
            r == conversation_tokens(self@.messages),
    {
        checked_tokens(self.messages.as_slice()).unwrap()
    }

    /// Takes what the user wrote meanwhile into the conversation.
    fn take_in_pending(&mut self)
        ensures
            final(self)@ == old(self)@.refilled(),
    {
        let ghost before = self@;
        let pending = self.drain_pending_messages();
        let ghost texts = texts_view(pending@);
        let mut i: usize = 0;
        proof {
            assert(before.messages + as_user_messages(texts.take(0)) =~= before.messages);
        }
        while i < pending.len()
            invariant
                i <= pending.len(),
                texts == texts_view(pending@),
                self@ == (EngineModel {
                    messages: before.messages + as_user_messages(texts.take(i as int)),
                    pending: Seq::empty(),
                    ..before
                }),
            decreases pending.len() - i,
        {
            let message = Message::user(pending[i].as_str());
            self.add_message(message);
            proof {
                assert(before.messages + as_user_messages(texts.take(i + 1)) =~= (before.messages
                    + as_user_messages(texts.take(i as int))).push(message@));
            }
            i += 1;
        }
        proof {
            assert(texts.take(i as int) =~= before.pending);
        }
    }

    /// Applies the tool result budget and reports where results went.
    fn trim_tool_results(&mut self)
        requires
            tool_result_chars(old(self)@.messages) <= usize::MAX,
        ensures
            final(self)@ == old(self)@.trimmed(),
    {
        let truncated: usize = self.apply_tool_result_budget();
        if truncated > 0 {
            let mut notice = "[".to_owned();
            push_decimal(&mut notice, truncated as u64);
            notice.append(" older tool result(s) truncated to save context]");
            self.emit(QueryEngineEvent::Status(notice));
        }
    }

    /// Executes a single turn of the conversation, with so much money spent
    /// in the session so far, in billionths of a dollar.
    pub fn execute_turn(&mut self, spent_nanos: u64) -> (r: Result<TurnResult, ClaudeError>)
        requires
            old(self)@.turn_fits(),
        ensures
            final(self)@ == old(self)@.after_turn(spent_nanos),
            turn_outcome(r) == old(self)@.turn_result(spent_nanos),
    {
        self.turn_state.start_next();
        if self.turn_state.turn_number > self.config.max_turns {
            let turn: u32 = self.turn_state.turn_number;
            self.emit(QueryEngineEvent::TurnComplete { turn, stop_reason: StopReason::MaxTurns });
            return Ok(
                TurnResult { stop_reason: StopReason::MaxTurns, message: None, usage: None },
            );
        }
        if self.cancelled {
            return Err(ClaudeError::Cancelled);
        }
        self.take_in_pending();
        self.trim_tool_results();
        let estimated_tokens: u64 = self.estimate_tokens();
        self.check_token_budget(estimated_tokens);
        match self.auto_compact_if_needed() {
            Ok(_) => {},
            Err(e) => {
                return Err(e);
            },
        }
        if let Some(limit) = self.config.max_budget_nanos {
            if spent_nanos >= limit {
                self.emit(
                    QueryEngineEvent::BudgetStatus {
                        cost_nanos: spent_nanos,
                        limit_nanos: Some(limit),
                    },
                );
                return Ok(
                    TurnResult {
                        stop_reason: StopReason::BudgetExceeded,
                        message: None,
                        usage: None,
                    },
                );
            }
        }
        Ok(TurnResult { stop_reason: StopReason::EndTurn, message: None, usage: None })
    }

    /// Starts a new turn with the given user message, with so much money
    /// spent in the session so far, in billionths of a dollar.
    pub fn submit_message(&mut self, content: &str, spent_nanos: u64) -> (r: Result<
        TurnResult,
        ClaudeError,
    >)
        requires
            old(self)@.submitted(content@).turn_fits(),
        ensures
            final(self)@ == old(self)@.submitted(content@).after_turn(spent_nanos),
            turn_outcome(r) == old(self)@.submitted(content@).turn_result(spent_nanos),
    {
        let user_message = Message::user(content);
        self.add_message(user_message.clone());
        self.emit(QueryEngineEvent::AssistantMessage(user_message));
        self.execute_turn(spent_nanos)
    }

    /// Checks that the counters have room for the turn after so many more
    /// messages.
    fn turn_has_room(&self, extra: &Vec<Message>) -> (r: bool)
        ensures
            r == (EngineModel {
                messages: self@.messages + messages_view(extra@),
                ..self@
            }).turn_fits(),
    {
        let ghost start = EngineModel {
            messages: self@.messages + messages_view(extra@),
            ..self@
        };
        if self.turn_state.turn_number == u32::MAX {
            return false;
        }
        if self.turn_state.turn_number + 1 > self.config.max_turns || self.cancelled {
            return true;
        }
        let mut messages = clone_messages(self.messages.as_slice());
        let mut more = clone_messages(extra.as_slice());
        let ghost own = messages@;
        let ghost others = more@;
        messages.append(&mut more);
        proof {
            assert(messages_view(messages@) =~= messages_view(own) + messages_view(others));
            assert(messages_view(messages@) == start.messages);
        }
        let ghost texts = texts_view(self.pending_messages@);
        let mut i: usize = 0;
        proof {
            assert(start.messages + as_user_messages(texts.take(0)) =~= start.messages);
        }
        while i < self.pending_messages.len()
            invariant
                i <= self.pending_messages.len(),
                texts == texts_view(self.pending_messages@),
                messages_view(messages@) == start.messages + as_user_messages(
                    texts.take(i as int),
                ),
            decreases self.pending_messages.len() - i,
        {
            let ghost earlier = messages@;
            let message = Message::user(self.pending_messages[i].as_str());
            messages.push(message);
            proof {
                assert(messages_view(messages@) =~= messages_view(earlier).push(message@));
                assert(start.messages + as_user_messages(texts.take(i + 1)) =~= (start.messages
                    + as_user_messages(texts.take(i as int))).push(message@));
            }
            i += 1;
        }
        let ghost started = start.started();
        proof {
            assert(texts.take(i as int) =~= start.pending);
            assert(messages_view(messages@) == started.refilled().messages);
        }
        if checked_tool_result_chars(messages.as_slice()).is_none() {
            return false;
        }
        apply_tool_result_budget(&mut messages, self.config.tool_result_budget);
        assert(messages_view(messages@) == started.refilled().trimmed().messages);
        let tokens: u64 = match checked_tokens(messages.as_slice()) {
            Some(tokens) => tokens,
            None => {
                return false;
            },
        };
        let budget = TokenBudget::new(tokens, self.config.context_window);
        proof {
            let prepared = started.prepared();
            assert(prepared.budget == budget);
            assert(prepared.messages == messages_view(messages@));
            assert(prepared.compact_state == self@.compact_state);
        }
        if !(self.config.auto_compact_enabled && budget.compaction_due()) {
            return true;
        }
        can_auto_compact(
            messages.as_slice(),
            self.config.model.as_str(),
            &self.auto_compact_state,
            &CompactConfig::default(),
        )
    }

    /// Checks that the counters have room for [`QueryEngine::execute_turn`].
    pub fn can_execute_turn(&self) -> (r: bool)
        ensures
            r == self@.turn_fits(),
    {
        let extra: Vec<Message> = Vec::new();
        proof {
            assert(self@.messages + messages_view(extra@) =~= self@.messages);
        }
        self.turn_has_room(&extra)
    }

    /// Checks that the counters have room for
    /// [`QueryEngine::submit_message`].
    pub fn can_submit(&self, content: &str) -> (r: bool)
        ensures
            r == self@.submitted(content@).turn_fits(),
    {
        let mut extra: Vec<Message> = Vec::new();
        extra.push(Message::user(content));
        let ghost told = self@.submitted(content@);
        let ghost plain = EngineModel {
            messages: self@.messages + messages_view(extra@),
            ..self@
        };
        proof {
            assert(plain.messages =~= told.messages);
            lemma_fits_whoever_listens(plain, told);
        }
        self.turn_has_room(&extra)
    }

    /// Cancels the current operation.
    pub fn cancel(&mut self)
        ensures
            final(self)@ == (EngineModel { cancelled: true, ..old(self)@ }),
    {
        self.cancelled = true;
    }

    /// The tokens of a kind that the conversation was billed for; `None` where
    /// they are no `u64`.
    fn checked_usage(&self, kind: UsageKind) -> (r: Option<u64>)
        ensures
            match r {
                Some(n) => n == billed_total(self@.messages, kind),
                None => billed_total(self@.messages, kind) > u64::MAX,
            },
    {
        let ghost model = self@.messages;
        let mut sum: u64 = 0;
        let mut i: usize = 0;
        while i < self.messages.len()
            invariant
                i <= self.messages.len(),
                model == messages_view(self.messages@),
                sum == billed_total(model.take(i as int), kind),
            decreases self.messages.len() - i,
        {
            proof {
                lemma_sum_step(model, billed(kind), i as int);
                lemma_sum_prefix(model, billed(kind), i + 1, model.len() as int);
                assert(model.take(model.len() as int) =~= model);
                assert(model[i as int] == self.messages@[i as int]@);
            }
            if let Some(cost) = &self.messages[i].cost {
                let tokens: u64 = match kind {
                    UsageKind::Input => cost.input_tokens,
                    UsageKind::Output => cost.output_tokens,
                    UsageKind::CacheRead => cost.cache_read_input_tokens,
                    UsageKind::CacheCreation => cost.cache_creation_input_tokens,
                };
                match sum.checked_add(tokens) {
                    Some(s) => {
                        sum = s;
                    },
                    None => {
                        return None;
                    },
                }
            }
            i += 1;
        }
        assert(model.take(i as int) =~= model);
        Some(sum)
    }

    /// The total usage across all turns; `None` where a sum is no `u64`.
    pub fn checked_total_usage(&self) -> (r: Option<UsageInfo>)
        ensures
            r is Some <==> forall|kind: UsageKind|
                #[trigger] billed_total(self@.messages, kind) <= u64::MAX,
            r matches Some(usage) ==> usage_matches(usage, self@.messages),
    {
        let input: Option<u64> = self.checked_usage(UsageKind::Input);
        let output: Option<u64> = self.checked_usage(UsageKind::Output);
        let cache_read: Option<u64> = self.checked_usage(UsageKind::CacheRead);
        let cache_creation: Option<u64> = self.checked_usage(UsageKind::CacheCreation);
        proof {
            assert forall|kind: UsageKind|
                input is Some && output is Some && cache_read is Some
                    && cache_creation is Some implies #[trigger] billed_total(self@.messages, kind)
                <= u64::MAX by {
                match kind {
                    UsageKind::Input => {},
                    UsageKind::Output => {},
                    UsageKind::CacheRead => {},
                    UsageKind::CacheCreation => {},
                }
            }
        }
        match (input, output, cache_read, cache_creation) {
            (Some(i), Some(o), Some(r), Some(c)) => Some(
                UsageInfo {
                    input_tokens: i,
                    output_tokens: o,
                    cache_read_input_tokens: r,
                    cache_creation_input_tokens: c,
                },
            ),
            _ => None,
        }
    }

    /// The total usage across all turns.
    pub fn total_usage(&self) -> (r: UsageInfo)
        requires
            forall|kind: UsageKind| #[trigger] billed_total(self@.messages, kind) <= u64::MAX,
        ensures
            usage_matches(r, self@.messages),
    {
        self.checked_total_usage().unwrap()
    }

    /// Clears the conversation history. Pending messages, denials and the
    /// last measurement of the window stay.
    pub fn clear(&mut self)
        ensures
            final(self)@ == old(self)@.cleared(),
    {
        self.messages = Vec::new();
        self.turn_state = TurnState::default();
        self.auto_compact_state = AutoCompactState::new();
        assert(self@.messages =~= Seq::empty());
        self.emit(QueryEngineEvent::Status("Conversation cleared".to_owned()));
    }

    /// Resumes from a previous session.
    pub fn resume_session(&mut self, messages: Vec<Message>)
        ensures
            final(self)@ == old(self)@.resumed(messages_view(messages@)),
    {
        let mut notice = "Resumed session with ".to_owned();
        push_decimal(&mut notice, messages.len() as u64);
        notice.append(" messages");
        self.messages = messages;
        self.emit(QueryEngineEvent::Status(notice));
    }
}

/// Whether a usage sums up what the messages were billed for.
pub open spec fn usage_matches(
    usage: UsageInfo,
    messages: Seq<MessageModel>,
) -> bool {
    &&& usage.input_tokens == billed_total(messages, UsageKind::Input)
    &&& usage.output_tokens == billed_total(messages, UsageKind::Output)
    &&& usage.cache_read_input_tokens == billed_total(messages, UsageKind::CacheRead)
    &&& usage.cache_creation_input_tokens == billed_total(messages, UsageKind::CacheCreation)
}

/// Events that wait make no difference to whether a turn fits.
proof fn lemma_fits_whoever_listens(a: EngineModel, b: EngineModel)
    requires
        b == (EngineModel { events: b.events, ..a }),
    ensures
        a.turn_fits() == b.turn_fits(),
{
    assert(a.started().refilled().messages == b.started().refilled().messages);
    assert(a.started().prepared().messages == b.started().prepared().messages);
    assert(a.started().prepared().budget == b.started().prepared().budget);
}

/// Plans what a strategy does.
fn plan(strategy: CompactionStrategy) -> (r: CompactionPlan)
    ensures
        r == plan_of(strategy),
{
    match strategy {
        CompactionStrategy::Full => CompactionPlan::Summarize {
            keep_recent: KEEP_RECENT_MESSAGES,
        },
        CompactionStrategy::Partial { keep_recent } => CompactionPlan::Summarize { keep_recent },
        CompactionStrategy::MicroCompact => CompactionPlan::ClearResults,
        CompactionStrategy::ToolResultsOnly => CompactionPlan::ClearResults,
        CompactionStrategy::Nothing => CompactionPlan::Refuse,
    }
}

} // verus!
