//! What each operation of the engine does, in full.

use crate::compact::conversation::{compaction, CompactResult, CompactionModel};
use crate::compact::estimate::chars_in;
use crate::compact::laws::lemma_auto_compact_numbers;
use crate::compact::micro::{micro_cleared, micro_compacted};
use crate::compact::prompt::summary_message;
use crate::compact::state::{CompactStateModel, CompactionReason};
use crate::compact::threshold::CompactionStrategy;
use crate::counting::{count_in, Counted};
use crate::engine::budget::{budget_of, TokenWarningLevel};
use crate::engine::config::{usual_config, ConfigModel};
use crate::engine::estimate::{chars_in_message, conversation_tokens};
use crate::engine::events::{events_view, EventModel, QueryEngineEvent, StopReason};
use crate::engine::model::{as_user_messages, billed, billed_total, EngineModel, UsageKind};
use crate::engine::query_engine::{
    auto_compact_outcome, compact_outcome, texts_view, usage_matches,
};
use crate::engine::summary::messages_summary;
use crate::engine::tool_budget::{budget_cost, tool_result_chars, within_budget};
use crate::engine::turn::{
    denials_view, turn_outcome, PermissionDenial, TurnResult, TurnResultModel,
};
use crate::error::{ClaudeError, ErrorModel};
use crate::estimate::padded_tokens;
use crate::fraction::Fraction;
use crate::seqs::sum_of;
use crate::text::decimal;
use crate::text_laws::lemma_sum_add;
use crate::types::{text_message, MessageCost, MessageModel, Role, UsageInfo};
use vstd::prelude::*;

verus! {

/// What is used and what is left make up the window, a share of it is reached
/// by exactly that share, and the levels begin at 80 and 95 percent.
pub proof fn lemma_window_numbers(used: u64, window: u64, percent: nat)
    requires
        percent > 0,
    ensures
        ({
            let b = budget_of(used, window);
            &&& b.tokens_used == used
            &&& b.context_window == window
            &&& used <= window ==> used + b.tokens_remaining == window
            &&& used >= window ==> b.tokens_remaining == 0
            &&& b.filled_to(percent) <==> window > 0 && 100 * used >= percent * window
            &&& b.level() == TokenWarningLevel::Critical <==> window > 0 && 100 * used >= 95
                * window
            &&& b.level() == TokenWarningLevel::Normal <==> window == 0 || 100 * used < 80
                * window
            &&& window > 0 ==> b.fill_fraction.num() == used && b.fill_fraction.den() == window
        }),
{
    broadcast use Fraction::lemma_of;

    let b = budget_of(used, window);
    if window == 0 {
        assert(b.fill_fraction.num() == 0 && b.fill_fraction.den() == 1);
        assert(percent * 1 == percent) by (nonlinear_arith);
    }
}

/// A new engine has no conversation, no turn behind it, no listener and an
/// empty window.
pub proof fn lemma_new_engine(config: ConfigModel, id: Seq<char>)
    ensures
        ({
            let e = EngineModel::fresh(config, id);
            &&& e.config == config
            &&& e.session_id == id
            &&& e.messages.len() == 0
            &&& e.turn.turn_number == 0
            &&& e.turn.tool_uses.len() == 0
            &&& e.turn.input_tokens == 0
            &&& e.turn.output_tokens == 0
            &&& e.turn.cache_read_tokens == 0
            &&& e.turn.cache_write_tokens == 0
            &&& e.turn.cost_nanos == 0
            &&& !e.streaming
            &&& e.events.len() == 0
            &&& !e.cancelled
            &&& e.budget.tokens_used == 0
            &&& e.budget.tokens_remaining == config.context_window
            &&& e.denials.len() == 0
            &&& e.compact_state == CompactStateModel::fresh()
            &&& e.pending.len() == 0
        }),
{
}

/// An event goes behind those that wait where someone listens, and changes
/// nothing else.
pub proof fn lemma_event_waits(engine: EngineModel, event: EventModel)
    ensures
        engine.streaming ==> engine.emitted(event).events == engine.events + seq![event],
        !engine.streaming ==> engine.emitted(event) == engine,
        engine.emitted(event) == (EngineModel { events: engine.emitted(event).events, ..engine }),
{
}

/// Measuring sets the window and reports its use, and then its level.
pub proof fn lemma_measuring(engine: EngineModel, used: u64)
    ensures
        ({
            let b = budget_of(used, engine.config.context_window);
            let after = engine.measured(used);
            &&& after == (EngineModel { budget: b, events: after.events, ..engine })
            &&& engine.streaming ==> after.events == engine.events + seq![
                EventModel::TokenUsage {
                    used,
                    remaining: b.tokens_remaining,
                    fraction: b.fill_fraction,
                },
                EventModel::TokenWarning { level: b.level(), fraction: b.fill_fraction },
            ]
        }),
{
    let b = budget_of(used, engine.config.context_window);
    let after = engine.measured(used);
    if engine.streaming {
        assert(after.events =~= engine.events + seq![
            EventModel::TokenUsage {
                used,
                remaining: b.tokens_remaining,
                fraction: b.fill_fraction,
            },
            EventModel::TokenWarning { level: b.level(), fraction: b.fill_fraction },
        ]);
    }
}

/// A message that is submitted ends the conversation, and is reported.
pub proof fn lemma_submitting(engine: EngineModel, content: Seq<char>)
    ensures
        ({
            let m = text_message(Role::User, content);
            let after = engine.submitted(content);
            &&& after == (EngineModel {
                messages: engine.messages + seq![m],
                events: after.events,
                ..engine
            })
            &&& engine.streaming ==> after.events == engine.events + seq![
                EventModel::AssistantMessage(m),
            ]
            &&& !engine.streaming ==> after.events == engine.events
        }),
{
    let m = text_message(Role::User, content);
    assert(engine.messages.push(m) =~= engine.messages + seq![m]);
}

/// Clearing starts the conversation, its turns and its compactions anew, and
/// keeps the rest.
pub proof fn lemma_clearing(engine: EngineModel)
    ensures
        ({
            let after = engine.cleared();
            &&& after.messages.len() == 0
            &&& after == (EngineModel {
                messages: after.messages,
                turn: EngineModel::fresh(engine.config, engine.session_id).turn,
                compact_state: CompactStateModel::fresh(),
                events: after.events,
                ..engine
            })
            &&& engine.streaming ==> after.events == engine.events + seq![
                EventModel::Status("Conversation cleared"@),
            ]
            &&& !engine.streaming ==> after.events == engine.events
        }),
{
}

/// Resuming puts messages in place of the conversation, says how many they
/// are, and keeps the rest.
pub proof fn lemma_resuming(engine: EngineModel, messages: Seq<MessageModel>)
    ensures
        ({
            let after = engine.resumed(messages);
            &&& after == (EngineModel { messages, events: after.events, ..engine })
            &&& engine.streaming ==> after.events == engine.events + seq![
                EventModel::Status(
                    "Resumed session with "@ + decimal(messages.len()) + " messages"@,
                ),
            ]
            &&& !engine.streaming ==> after.events == engine.events
        }),
{
}

/// Texts become messages of the user, one each and in order.
pub proof fn lemma_texts_become_messages(a: Seq<Seq<char>>, b: Seq<Seq<char>>, text: Seq<char>)
    ensures
        as_user_messages(a + b) == as_user_messages(a) + as_user_messages(b),
        as_user_messages(seq![text]) == seq![text_message(Role::User, text)],
{
    assert(as_user_messages(a + b) =~= as_user_messages(a) + as_user_messages(b));
    assert(as_user_messages(seq![text]) =~= seq![text_message(Role::User, text)]);
}

/// What two conversations were billed for is what each of them was, and a
/// message is billed what its cost says.
pub proof fn lemma_bills_add(
    a: Seq<MessageModel>,
    b: Seq<MessageModel>,
    m: MessageModel,
    cost: MessageCost,
    kind: UsageKind,
)
    ensures
        billed_total(a + b, kind) == billed_total(a, kind) + billed_total(b, kind),
        m.cost is None ==> billed_total(seq![m], kind) == 0,
        m.cost == Some(cost) ==> {
            &&& billed_total(seq![m], UsageKind::Input) == cost.input_tokens
            &&& billed_total(seq![m], UsageKind::Output) == cost.output_tokens
            &&& billed_total(seq![m], UsageKind::CacheRead) == cost.cache_read_input_tokens
            &&& billed_total(seq![m], UsageKind::CacheCreation)
                == cost.cache_creation_input_tokens
        },
{
    lemma_sum_add(a, b, billed(kind));
    reveal_with_fuel(sum_of, 2);
    assert(seq![m].drop_last() =~= Seq::<MessageModel>::empty());
}

/// The next turn has the next number and no tool uses, and the usage so far.
pub proof fn lemma_next_turn(engine: EngineModel)
    requires
        engine.turn.turn_number < u32::MAX,
    ensures
        ({
            let after = engine.started();
            &&& after == (EngineModel { turn: after.turn, ..engine })
            &&& after.turn.turn_number == engine.turn.turn_number + 1
            &&& after.turn.tool_uses.len() == 0
            &&& after.turn.input_tokens == engine.turn.input_tokens
            &&& after.turn.output_tokens == engine.turn.output_tokens
            &&& after.turn.cache_read_tokens == engine.turn.cache_read_tokens
            &&& after.turn.cache_write_tokens == engine.turn.cache_write_tokens
            &&& after.turn.cost_nanos == engine.turn.cost_nanos
        }),
{
}

/// What a turn comes to: it stops for its number, else fails where it was
/// cancelled or the conversation is too short to compact, else stops for the
/// spend cap, and else ends as usual.
pub proof fn lemma_turn_outcome(engine: EngineModel, spent_nanos: u64)
    requires
        engine.turn.turn_number < u32::MAX,
    ensures
        ({
            let kept = within_budget(
                engine.messages + as_user_messages(engine.pending),
                engine.config.tool_result_budget as nat,
            );
            let used = conversation_tokens(kept) as u64;
            let window = engine.config.context_window;
            let due = engine.config.auto_compact_enabled && window > 0 && 100 * used >= 90
                * window;
            let too_short = due && !engine.compact_state.disabled && padded_tokens(chars_in(kept))
                >= 180_000 && kept.len() <= 10;
            let capped = engine.config.max_budget_nanos matches Some(limit) && spent_nanos
                >= limit;
            match engine.turn_result(spent_nanos) {
                Ok(r) => r.message is None && r.usage is None && r.stop_reason == (
                if engine.turn.turn_number >= engine.config.max_turns {
                    StopReason::MaxTurns
                } else if capped {
                    StopReason::BudgetExceeded
                } else {
                    StopReason::EndTurn
                }) && (engine.turn.turn_number >= engine.config.max_turns || (!engine.cancelled
                    && !too_short)),
                Err(e) => engine.turn.turn_number < engine.config.max_turns && e == (
                if engine.cancelled {
                    ErrorModel::Cancelled
                } else {
                    ErrorModel::Other("Not enough messages to compact"@)
                }) && (engine.cancelled || too_short),
            }
        }),
{
    lemma_turn_due(engine);
}

/// What makes compaction due in a turn, and what it then comes to.
proof fn lemma_turn_due(engine: EngineModel)
    ensures
        ({
            let kept = within_budget(
                engine.messages + as_user_messages(engine.pending),
                engine.config.tool_result_budget as nat,
            );
            let used = conversation_tokens(kept) as u64;
            let window = engine.config.context_window;
            let prepared = engine.started().prepared();
            let big = !engine.compact_state.disabled && padded_tokens(chars_in(kept)) >= 180_000;
            &&& prepared.messages == kept
            &&& prepared.compaction_due() <==> engine.config.auto_compact_enabled && window > 0
                && 100 * used >= 90 * window
            &&& prepared.auto_step() is Idle <==> !big
            &&& prepared.auto_step() is TooShort <==> big && kept.len() <= 10
            &&& prepared.auto_step() is Compacts <==> big && kept.len() > 10
        }),
{
    let prepared = engine.started().prepared();
    lemma_window_numbers(
        conversation_tokens(prepared.messages) as u64,
        engine.config.context_window,
        90,
    );
    lemma_auto_compact_numbers(prepared.messages, engine.compact_state);
}

/// The conversation after a turn that goes on: what it was and what the user
/// wrote meanwhile, within the budget for tool results, and compacted to the
/// last rounds of ten where that is due, the breaker is closed, and it is large
/// and long enough.
pub proof fn lemma_turn_conversation(engine: EngineModel, spent_nanos: u64)
    requires
        engine.turn.turn_number < engine.config.max_turns,
        !engine.cancelled,
    ensures
        ({
            let kept = within_budget(
                engine.messages + as_user_messages(engine.pending),
                engine.config.tool_result_budget as nat,
            );
            let used = conversation_tokens(kept) as u64;
            let window = engine.config.context_window;
            let due = engine.config.auto_compact_enabled && window > 0 && 100 * used >= 90
                * window && !engine.compact_state.disabled && padded_tokens(chars_in(kept))
                >= 180_000;
            let after = engine.after_turn(spent_nanos);
            &&& after.pending.len() == 0
            &&& after.budget == budget_of(used, window)
            &&& !due ==> after.messages == kept && after.compact_state == engine.compact_state
            &&& due && kept.len() <= 10 ==> after.messages == kept && after.compact_state
                == engine.compact_state.after_failure()
            &&& due && kept.len() > 10 ==> after.messages == compaction(
                kept,
                10,
                CompactionReason::AutoCompactThreshold,
            ).messages && after.compact_state == engine.compact_state.after_success(
                CompactionReason::AutoCompactThreshold,
            )
        }),
{
    lemma_turn_due(engine);
}

/// What a turn reports: its end where there were too many; nothing where it was
/// cancelled; else, in this order, how many tool results went, where any did,
/// the use of the window, its level, that it is compacted, where that is due,
/// and the spend where it ended the turn.
pub proof fn lemma_turn_events(engine: EngineModel, spent_nanos: u64)
    requires
        engine.streaming,
        engine.turn.turn_number < u32::MAX,
    ensures
        ({
            let before = engine.messages + as_user_messages(engine.pending);
            let shed = budget_cost(before, engine.config.tool_result_budget as nat);
            let kept = within_budget(before, engine.config.tool_result_budget as nat);
            let window = engine.config.context_window;
            let b = budget_of(conversation_tokens(kept) as u64, window);
            let due = engine.config.auto_compact_enabled && window > 0 && 100 * b.tokens_used
                >= 90 * window;
            let none = Seq::<EventModel>::empty();
            let events = engine.after_turn(spent_nanos).events;
            if engine.turn.turn_number >= engine.config.max_turns {
                events == engine.events + seq![
                    EventModel::TurnComplete {
                        turn: (engine.turn.turn_number + 1) as u32,
                        stop_reason: StopReason::MaxTurns,
                    },
                ]
            } else if engine.cancelled {
                events == engine.events
            } else {
                events == engine.events + (if shed > 0 {
                    seq![
                        EventModel::Status(
                            "["@ + decimal(shed)
                                + " older tool result(s) truncated to save context]"@,
                        ),
                    ]
                } else {
                    none
                }) + seq![
                    EventModel::TokenUsage {
                        used: b.tokens_used,
                        remaining: b.tokens_remaining,
                        fraction: b.fill_fraction,
                    },
                    EventModel::TokenWarning { level: b.level(), fraction: b.fill_fraction },
                ] + (if due {
                    seq![EventModel::Status("Context window approaching limit, compacting..."@)]
                } else {
                    none
                }) + (if engine.turn_result(spent_nanos) matches Ok(r) && r.stop_reason
                    == StopReason::BudgetExceeded {
                    seq![
                        EventModel::BudgetStatus {
                            cost_nanos: spent_nanos,
                            limit_nanos: engine.config.max_budget_nanos,
                        },
                    ]
                } else {
                    none
                })
            }
        }),
{
    lemma_turn_due(engine);
}

/// What the engine reports of compacting on its own is what it did.
pub proof fn lemma_auto_compaction_reported(engine: EngineModel)
    ensures
        match engine.auto_compact_result() {
            Ok(Some(c)) => {
                &&& engine.compaction_due()
                &&& engine.auto_step() is Compacts
                &&& c == compaction(engine.messages, 10, CompactionReason::AutoCompactThreshold)
                &&& engine.auto_compacted().messages == c.messages
                &&& engine.auto_compacted().compact_state == engine.compact_state.after_success(
                    CompactionReason::AutoCompactThreshold,
                )
            },
            Ok(None) => {
                &&& !engine.compaction_due() || engine.auto_step() is Idle
                &&& engine.auto_compacted().messages == engine.messages
                &&& engine.auto_compacted().compact_state == engine.compact_state
            },
            Err(e) => {
                &&& engine.compaction_due()
                &&& engine.auto_step() is TooShort
                &&& e == ErrorModel::Other("Not enough messages to compact"@)
                &&& engine.auto_compacted().messages == engine.messages
                &&& engine.auto_compacted().compact_state == engine.compact_state.after_failure()
            },
        },
{
}

/// How many messages a strategy that summarizes keeps: ten in full, and as
/// many as asked for in part.
pub open spec fn asked_to_keep(strategy: CompactionStrategy) -> nat {
    match strategy {
        CompactionStrategy::Partial { keep_recent } => keep_recent as nat,
        _ => 10,
    }
}

/// A conversation of more than ten messages that is summarized on request is
/// a summary of the older messages and then the messages that are kept; both
/// ends of the work are reported, and nothing else changes.
pub proof fn lemma_summarizing(engine: EngineModel, strategy: CompactionStrategy)
    requires
        engine.messages.len() > 10,
        strategy is Full || strategy is Partial,
    ensures
        ({
            let len = engine.messages.len();
            let keep = asked_to_keep(strategy);
            let kept = if keep < len {
                keep
            } else {
                len
            };
            let older = engine.messages.take(len - kept);
            let summary = messages_summary(older);
            let after = engine.compacted(strategy);
            &&& after == (EngineModel {
                messages: seq![summary_message(summary)] + engine.messages.skip(len - kept),
                compact_state: engine.compact_state.after_success(CompactionReason::UserRequested),
                events: after.events,
                ..engine
            })
            &&& engine.streaming ==> after.events == engine.events + seq![
                EventModel::CompactionStart { reason: CompactionReason::UserRequested },
                EventModel::CompactionComplete { summary, messages_removed: (len - kept) as nat },
            ]
            &&& engine.compact_result(strategy) == Ok::<_, ErrorModel>(
                CompactionModel {
                    messages: after.messages,
                    summary_message: Some(summary_message(summary)),
                    messages_removed: len - kept,
                    messages_preserved: kept as int,
                    tokens_saved: padded_tokens(chars_in(older)),
                    reason: CompactionReason::UserRequested,
                },
            )
        }),
{
}

/// A conversation of more than ten messages whose tool results are cleared on
/// request keeps its messages, and saves what the results were larger than the
/// notices.
pub proof fn lemma_clearing_results(engine: EngineModel, strategy: CompactionStrategy)
    requires
        engine.messages.len() > 10,
        strategy is MicroCompact || strategy is ToolResultsOnly,
    ensures
        ({
            let cleared = micro_compacted(engine.messages, 10);
            let had = padded_tokens(chars_in(engine.messages));
            let has = padded_tokens(chars_in(cleared));
            let after = engine.compacted(strategy);
            &&& after == (EngineModel {
                messages: cleared,
                compact_state: engine.compact_state.after_success(CompactionReason::UserRequested),
                events: after.events,
                ..engine
            })
            &&& engine.streaming ==> after.events == engine.events + seq![
                EventModel::CompactionStart { reason: CompactionReason::UserRequested },
                EventModel::CompactionComplete { summary: Seq::empty(), messages_removed: 0 },
            ]
            &&& engine.compact_result(strategy) matches Ok(c) && {
                &&& c.messages == cleared
                &&& c.summary_message is None
                &&& c.messages_removed == 0
                &&& c.messages_preserved == engine.messages.len()
                &&& has <= had ==> has + c.tokens_saved == had
                &&& had <= has ==> c.tokens_saved == 0
                &&& c.reason == CompactionReason::UserRequested
            }
        }),
{
}

/// A compaction on request is refused for ten messages or fewer, and where
/// there is no strategy, and for nothing else.
pub proof fn lemma_compaction_refused(engine: EngineModel, strategy: CompactionStrategy)
    ensures
        engine.compact_result(strategy) is Err <==> engine.messages.len() <= 10
            || strategy is Nothing,
        engine.messages.len() <= 10 ==> engine.compacted(strategy) == engine
            && engine.compact_result(strategy) == Err::<CompactionModel, _>(
            ErrorModel::Other("Not enough messages to compact"@),
        ),
        engine.messages.len() > 10 && strategy is Nothing ==> engine.compact_result(strategy)
            == Err::<CompactionModel, _>(ErrorModel::Other("No compaction strategy"@))
            && engine.compacted(strategy) == engine.emitted(
            EventModel::CompactionStart { reason: CompactionReason::UserRequested },
        ),
{
}

/// Adding a message puts it last, and applying the budget changes the
/// conversation alone.
pub proof fn lemma_conversation_steps(engine: EngineModel, message: MessageModel)
    ensures
        engine.with_message(message) == (EngineModel {
            messages: engine.messages + seq![message],
            ..engine
        }),
        engine.within_result_budget() == (EngineModel {
            messages: within_budget(engine.messages, engine.config.tool_result_budget as nat),
            ..engine
        }),
        engine.result_budget_cost() == budget_cost(
            engine.messages,
            engine.config.tool_result_budget as nat,
        ),
        engine.refilled() == (EngineModel {
            messages: engine.messages + as_user_messages(engine.pending),
            pending: Seq::empty(),
            ..engine
        }),
        engine.compaction_due() <==> engine.config.auto_compact_enabled
            && engine.budget.filled_to(90),
{
    assert(engine.messages.push(message) =~= engine.messages + seq![message]);
}

/// A turn has room where its number has a successor and either it ends early,
/// or every size, estimate and counter that it needs is a machine number.
pub proof fn lemma_turn_room(engine: EngineModel)
    ensures
        ({
            let before = engine.messages + as_user_messages(engine.pending);
            let kept = within_budget(before, engine.config.tool_result_budget as nat);
            let used = conversation_tokens(kept) as u64;
            let window = engine.config.context_window;
            let due = engine.config.auto_compact_enabled && window > 0 && 100 * used >= 90
                * window && !engine.compact_state.disabled;
            let big = padded_tokens(chars_in(kept)) >= 180_000;
            engine.turn_fits() <==> {
                &&& engine.turn.turn_number < u32::MAX
                &&& engine.turn.turn_number >= engine.config.max_turns || engine.cancelled || {
                    &&& tool_result_chars(before) <= usize::MAX
                    &&& forall|i: int|
                        0 <= i < kept.len() ==> chars_in_message(#[trigger] kept[i]) <= usize::MAX
                    &&& conversation_tokens(kept) <= u64::MAX
                    &&& due ==> chars_in(kept) <= usize::MAX
                    &&& due && big && kept.len() <= 10
                        ==> engine.compact_state.consecutive_failures < u32::MAX
                    &&& due && big && kept.len() > 10 ==> count_in(kept, Counted::ToolUses)
                        <= usize::MAX && engine.compact_state.compaction_count < u32::MAX
                }
            }
        }),
{
    lemma_turn_due(engine);
}

/// A compaction on request has room where the sizes and counts that it needs
/// are machine numbers and its count has a successor; one that is refused
/// needs none.
pub proof fn lemma_compaction_room(engine: EngineModel, strategy: CompactionStrategy)
    ensures
        ({
            let len = engine.messages.len();
            let keep = asked_to_keep(strategy);
            let older = engine.messages.take(
                if keep < len {
                    len - keep
                } else {
                    0
                },
            );
            engine.compact_fits(strategy) <==> {
                ||| len <= 10
                ||| strategy is Nothing
                ||| (strategy is Full || strategy is Partial) && chars_in(older) <= usize::MAX
                    && count_in(older, Counted::ToolUses) <= usize::MAX
                    && engine.compact_state.compaction_count < u32::MAX
                ||| (strategy is MicroCompact || strategy is ToolResultsOnly) && chars_in(
                    engine.messages,
                ) <= usize::MAX && micro_cleared(engine.messages, 10) <= usize::MAX && chars_in(
                    micro_compacted(engine.messages, 10),
                ) <= usize::MAX && engine.compact_state.compaction_count < u32::MAX
            }
        }),
{
}

/// The usual configuration.
pub proof fn lemma_usual_config(model: Seq<char>)
    ensures
        ({
            let c = usual_config(model);
            &&& c.model == model
            &&& c.max_tokens == 4096
            &&& c.max_turns == 100
            &&& c.context_window == 200_000
            &&& c.system_prompt is None
            &&& c.append_system_prompt is None
            &&& c.thinking_budget is None
            &&& c.tool_result_budget == 50_000
            &&& c.max_budget_nanos is None
            &&& c.fallback_model is None
            &&& c.auto_compact_enabled
            &&& c.session_id is None
            &&& c.parent_session_id is None
        }),
{
}

/// Events, denials and texts are seen one by one, in order.
pub proof fn lemma_engine_views(
    events: Seq<QueryEngineEvent>,
    denials: Seq<PermissionDenial>,
    texts: Seq<String>,
)
    ensures
        events_view(events).len() == events.len(),
        forall|i: int| 0 <= i < events.len() ==> #[trigger] events_view(events)[i] == events[i]@,
        denials_view(denials).len() == denials.len(),
        forall|i: int|
            0 <= i < denials.len() ==> #[trigger] denials_view(denials)[i] == denials[i]@,
        texts_view(texts).len() == texts.len(),
        forall|i: int| 0 <= i < texts.len() ==> #[trigger] texts_view(texts)[i] == texts[i]@,
{
}

/// Results are seen by what they hold.
pub proof fn lemma_outcomes_seen(
    turn: Result<TurnResult, ClaudeError>,
    compact: Result<CompactResult, ClaudeError>,
    auto_compact: Result<Option<CompactResult>, ClaudeError>,
)
    ensures
        match turn {
            Ok(t) => turn_outcome(turn) == Ok::<_, ErrorModel>(t@),
            Err(e) => turn_outcome(turn) == Err::<TurnResultModel, _>(e@),
        },
        match compact {
            Ok(c) => compact_outcome(compact) == Ok::<_, ErrorModel>(c@),
            Err(e) => compact_outcome(compact) == Err::<CompactionModel, _>(e@),
        },
        match auto_compact {
            Ok(Some(c)) => auto_compact_outcome(auto_compact) == Ok::<_, ErrorModel>(Some(c@)),
            Ok(None) => auto_compact_outcome(auto_compact) == Ok::<_, ErrorModel>(
                None::<CompactionModel>,
            ),
            Err(e) => auto_compact_outcome(auto_compact) == Err::<Option<CompactionModel>, _>(e@),
        },
{
}

/// The usage that fits a conversation is what it was billed for, number by
/// number.
pub proof fn lemma_usage(usage: UsageInfo, messages: Seq<MessageModel>)
    ensures
        usage_matches(usage, messages) <==> usage.input_tokens == billed_total(
            messages,
            UsageKind::Input,
        ) && usage.output_tokens == billed_total(messages, UsageKind::Output)
            && usage.cache_read_input_tokens == billed_total(messages, UsageKind::CacheRead)
            && usage.cache_creation_input_tokens == billed_total(
            messages,
            UsageKind::CacheCreation,
        ),
{
}

} // verus!
