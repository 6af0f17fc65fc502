//! What holds of every engine.

use crate::compact::conversation::lemma_compaction_counts;
use crate::compact::micro::lemma_micro_compact_stable;
use crate::compact::state::CompactionReason;
use crate::compact::threshold::{
    percent_reached, warning_state, CompactionStrategy, TokenWarningState,
    AUTOCOMPACT_TRIGGER_PERCENT, CRITICAL_THRESHOLD_PERCENT, KEEP_RECENT_MESSAGES,
};
use crate::engine::budget::{budget_of, TokenWarningLevel};
use crate::engine::config::ConfigModel;
use crate::engine::estimate::conversation_tokens;
use crate::engine::events::StopReason;
use crate::engine::model::{as_user_messages, requested_compaction, EngineModel};
use crate::engine::tool_budget::{lemma_budget_keeps_rest, tool_result_chars};
use crate::engine::turn::{stopped, TurnResultModel};
use crate::error::ErrorModel;
use crate::fraction::Fraction;
use crate::types::{text_message, MessageModel, Role};
use vstd::prelude::*;

verus! {

/// A new engine's breaker is closed, and every operation keeps the breaker
/// open where it has to be.
pub proof fn lemma_breaker_kept(
    engine: EngineModel,
    config: ConfigModel,
    id: Seq<char>,
    strategy: CompactionStrategy,
    messages: Seq<MessageModel>,
    content: Seq<char>,
    spent_nanos: u64,
)
    requires
        engine.compact_state.well_formed(),
    ensures
        EngineModel::fresh(config, id).compact_state.well_formed(),
        engine.compacted(strategy).compact_state.well_formed(),
        engine.after_turn(spent_nanos).compact_state.well_formed(),
        engine.submitted(content).compact_state.well_formed(),
        engine.cleared().compact_state.well_formed(),
        engine.resumed(messages).compact_state.well_formed(),
{
}

/// A turn counts itself, and keeps the session, its configuration, its
/// denials and whether it was cancelled; events that wait stay in front.
pub proof fn lemma_turn_keeps_session(engine: EngineModel, spent_nanos: u64)
    requires
        engine.turn.turn_number < u32::MAX,
    ensures
        ({
            let after = engine.after_turn(spent_nanos);
            &&& after.turn.turn_number == engine.turn.turn_number + 1
            &&& after.session_id == engine.session_id
            &&& after.config == engine.config
            &&& after.denials == engine.denials
            &&& after.cancelled == engine.cancelled
            &&& after.streaming == engine.streaming
            &&& engine.events.len() <= after.events.len()
            &&& after.events.take(engine.events.len() as int) == engine.events
        }),
{
    let after = engine.after_turn(spent_nanos);
    assert(after.events.take(engine.events.len() as int) =~= engine.events);
}

/// Where nobody listens, no event ever waits.
pub proof fn lemma_silent_without_listener(
    engine: EngineModel,
    strategy: CompactionStrategy,
    messages: Seq<MessageModel>,
    content: Seq<char>,
    spent_nanos: u64,
)
    requires
        !engine.streaming,
    ensures
        engine.compacted(strategy).events == engine.events,
        engine.after_turn(spent_nanos).events == engine.events,
        engine.submitted(content).events == engine.events,
        engine.cleared().events == engine.events,
        engine.resumed(messages).events == engine.events,
{
}

/// Once the turns are used up, every turn ends at once with that reason and
/// leaves the conversation alone.
pub proof fn lemma_turns_run_out(engine: EngineModel, spent_nanos: u64)
    requires
        engine.turn.turn_number < u32::MAX,
        engine.turn.turn_number >= engine.config.max_turns,
    ensures
        engine.turn_result(spent_nanos) == Ok::<_, ErrorModel>(stopped(StopReason::MaxTurns)),
        engine.after_turn(spent_nanos).messages == engine.messages,
        engine.after_turn(spent_nanos).pending == engine.pending,
{
}

/// A cancelled engine fails every turn that its count allows, and leaves the
/// conversation alone in all of them.
pub proof fn lemma_cancelled_turns(engine: EngineModel, spent_nanos: u64)
    requires
        engine.cancelled,
        engine.turn.turn_number < u32::MAX,
    ensures
        engine.turn.turn_number < engine.config.max_turns ==> engine.turn_result(spent_nanos)
            == Err::<TurnResultModel, _>(ErrorModel::Cancelled),
        engine.after_turn(spent_nanos).messages == engine.messages,
        engine.after_turn(spent_nanos).pending == engine.pending,
{
}

/// A turn ends as usual only below the spend cap.
pub proof fn lemma_cap_holds(engine: EngineModel, spent_nanos: u64, limit: u64)
    requires
        engine.config.max_budget_nanos == Some(limit),
        spent_nanos >= limit,
    ensures
        engine.turn_result(spent_nanos) != Ok::<_, ErrorModel>(stopped(StopReason::EndTurn)),
{
}

/// Pending messages enter the conversation in the order in which they were
/// queued, and only once.
pub proof fn lemma_pending_enters_once(engine: EngineModel, first: Seq<char>, second: Seq<char>)
    ensures
        ({
            let queued = EngineModel {
                pending: engine.pending.push(first).push(second),
                ..engine
            };
            &&& queued.refilled().messages == engine.refilled().messages.push(
                text_message(Role::User, first),
            ).push(text_message(Role::User, second))
            &&& queued.refilled().pending.len() == 0
            &&& queued.refilled().refilled().messages == queued.refilled().messages
        }),
{
    let queued = EngineModel { pending: engine.pending.push(first).push(second), ..engine };
    assert(queued.refilled().messages =~= engine.refilled().messages.push(
        text_message(Role::User, first),
    ).push(text_message(Role::User, second)));
    assert(queued.refilled().refilled().messages =~= queued.refilled().messages);
}

/// Within all budgets a turn loses nothing: the conversation is what it was,
/// followed by the pending messages.
pub proof fn lemma_turn_within_budgets(engine: EngineModel, spent_nanos: u64)
    requires
        engine.turn.turn_number < engine.config.max_turns,
        !engine.cancelled,
        tool_result_chars(engine.messages + as_user_messages(engine.pending))
            <= engine.config.tool_result_budget,
        !budget_of(
            conversation_tokens(engine.messages + as_user_messages(engine.pending)) as u64,
            engine.config.context_window,
        ).filled_to(AUTOCOMPACT_TRIGGER_PERCENT as nat),
    ensures
        engine.after_turn(spent_nanos).messages == engine.messages + as_user_messages(
            engine.pending,
        ),
        engine.after_turn(spent_nanos).pending.len() == 0,
        engine.turn_result(spent_nanos) is Ok,
{
}

/// Whatever a turn drops, the most recent messages stay: where it compacts,
/// what follows the summary is the end of the conversation after budgeting.
pub proof fn lemma_turn_keeps_end(engine: EngineModel, spent_nanos: u64)
    requires
        engine.turn.turn_number < engine.config.max_turns,
        !engine.cancelled,
    ensures
        ({
            let before = engine.started().prepared().messages;
            let after = engine.after_turn(spent_nanos).messages;
            ||| after == before
            ||| {
                &&& after.len() >= 1
                &&& after.len() <= before.len() + 1
                &&& after.skip(1) == before.skip(before.len() - (after.len() - 1))
            }
        }),
        engine.started().prepared().messages.len() == engine.messages.len()
            + engine.pending.len(),
{
    let prepared = engine.started().prepared();
    lemma_budget_keeps_rest(
        engine.started().refilled().messages,
        engine.config.tool_result_budget as nat,
    );
    lemma_compaction_counts(
        prepared.messages,
        KEEP_RECENT_MESSAGES as nat,
        CompactionReason::AutoCompactThreshold,
    );
}

/// A compaction on request loses no message: each is either removed, into the
/// summary, or preserved at the end, unchanged and in order; no more are
/// preserved than asked for, and as many where there are as many.
pub proof fn lemma_requested_compaction(messages: Seq<MessageModel>, keep_recent: nat)
    ensures
        ({
            let c = requested_compaction(messages, keep_recent);
            &&& c.messages_removed + c.messages_preserved == messages.len()
            &&& c.messages.len() == c.messages_preserved + 1
            &&& Some(c.messages[0]) == c.summary_message
            &&& c.messages.skip(1) == messages.skip(c.messages_removed)
            &&& c.messages_preserved <= keep_recent
            &&& messages.len() >= keep_recent ==> c.messages_preserved == keep_recent
        }),
{
    let c = requested_compaction(messages, keep_recent);
    assert(c.messages.skip(1) =~= messages.skip(c.messages_removed));
}

/// A compaction that touches tool results only keeps every message: each
/// stays in its place with its role and uuid, the recent ones unchanged, and
/// none is summarized.
pub proof fn lemma_clearing_keeps_messages(
    engine: EngineModel,
    strategy: CompactionStrategy,
)
    requires
        strategy == CompactionStrategy::MicroCompact || strategy
            == CompactionStrategy::ToolResultsOnly,
    ensures
        engine.compacted(strategy).messages.len() == engine.messages.len(),
        forall|i: int|
            0 <= i < engine.messages.len() ==> {
                let m = #[trigger] engine.compacted(strategy).messages[i];
                &&& m.role == engine.messages[i].role
                &&& m.uuid == engine.messages[i].uuid
                &&& m.cost == engine.messages[i].cost
                &&& engine.messages.len() - KEEP_RECENT_MESSAGES <= i ==> m
                    == engine.messages[i]
            },
        engine.compact_result(strategy) matches Ok(c) ==> c.messages_removed == 0
            && c.messages_preserved == engine.messages.len() && c.summary_message is None
            && c.messages == engine.compacted(strategy).messages,
{
    lemma_micro_compact_stable(engine.messages, KEEP_RECENT_MESSAGES as nat);
}

/// A compaction that fails leaves the conversation and the counters alone.
pub proof fn lemma_failed_compaction(engine: EngineModel, strategy: CompactionStrategy)
    requires
        engine.compact_result(strategy) is Err,
    ensures
        engine.compacted(strategy).messages == engine.messages,
        engine.compacted(strategy).compact_state == engine.compact_state,
{
}

/// What is resumed is what the conversation holds, whatever it held before,
/// and a session that is cleared and resumed with its own messages has them
/// back.
pub proof fn lemma_resume_read_back(engine: EngineModel, messages: Seq<MessageModel>)
    ensures
        engine.resumed(messages).messages == messages,
        engine.cleared().messages.len() == 0,
        engine.cleared().resumed(engine.messages).messages == engine.messages,
        engine.resumed(messages).turn == engine.turn,
        engine.cleared().turn.turn_number == 0,
        engine.cleared().pending == engine.pending,
        engine.cleared().denials == engine.denials,
{
}

/// The engine and the compaction module read a window alike: whether compaction
/// is due agrees, and so do the warning levels, but where exactly the critical
/// share is in use.
pub proof fn lemma_window_read_alike(tokens: u64, window: u64)
    ensures
        tokens * 100 != CRITICAL_THRESHOLD_PERCENT * window || window == 0 ==> budget_of(
            tokens,
            window,
        ).level() == (match warning_state(tokens as nat, window as nat) {
            TokenWarningState::Normal => TokenWarningLevel::Normal,
            TokenWarningState::Warning => TokenWarningLevel::Warning,
            TokenWarningState::Critical => TokenWarningLevel::Critical,
        }),
        budget_of(tokens, window).filled_to(AUTOCOMPACT_TRIGGER_PERCENT as nat)
            == percent_reached(
            tokens as nat,
            window as nat,
            AUTOCOMPACT_TRIGGER_PERCENT as nat,
        ),
{
    broadcast use Fraction::lemma_of;

}

/// A window that is due for compaction also warns.
pub proof fn lemma_due_window_warns(tokens: u64, window: u64)
    requires
        budget_of(tokens, window).filled_to(AUTOCOMPACT_TRIGGER_PERCENT as nat),
    ensures
        budget_of(tokens, window).level() != TokenWarningLevel::Normal,
{
    let f = budget_of(tokens, window).fill_fraction;
    assert(80 * f.den() <= 90 * f.den());
}

} // verus!
