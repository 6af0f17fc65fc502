//! What holds of compaction: thresholds, state, splitting, clearing, snipping.

use crate::compact::conversation::{
    auto_compact_fits, auto_compact_step, compaction, group_tokens, kept_messages,
    lemma_compaction_keeps_end, summable, REACTIVE_KEEP,
};
use crate::compact::estimate::{chars_in, chars_in_message, DEFAULT_CONTEXT_WINDOW};
use crate::compact::grouping::{
    api_groups, api_rounds, block_topic, group_of, lemma_rounds_end_with_assistant,
    lemma_rounds_partition, message_topic, topic,
};
use crate::compact::micro::{
    collapse_fits, collapse_keeps, collapse_limit, collapsed, collapses, lemma_uuid_index,
    micro_cleared, micro_compacted, snipped, thoughtless, thoughtless_message,
};
use crate::compact::prompt::{groups_summary, summary_message};
use crate::compact::split::{
    keep_index, lemma_safe_index, lemma_split_point, quarter_tokens, safe_cut, safe_index,
    span_tokens, split_point, split_search,
};
use crate::compact::state::{
    after_attempts, idle_gap_reached, Attempt, CompactStateModel, CompactionReason,
};
use crate::compact::threshold::{
    default_compact_config, percent_exceeded, percent_reached, recommended_strategy,
    threshold_reached, warning_state, CompactConfig, CompactionStrategy, ContextCollapseConfig,
    TokenWarningState, AUTOCOMPACT_TRIGGER_PERCENT, COLLAPSE_TRIGGER_PERCENT,
    CRITICAL_THRESHOLD_PERCENT, DEFAULT_SUMMARY_TARGET_TOKENS, KEEP_RECENT_MESSAGES,
    MICROCOMPACT_TRIGGER_PERCENT, WARNING_THRESHOLD_PERCENT,
};
use crate::counting::{count_in, Counted};
use crate::estimate::padded_tokens;
use crate::fraction::Fraction;
use crate::json::{json_member, json_string};
use crate::seqs::{joined, lemma_joined_add, sum_of};
use crate::text::{clipped, first_word, utf8_len};
use crate::text_laws::{lemma_first_some, lemma_sum_add};
use crate::types::{BlockModel, MessageModel, ResultModel, Role};
use vstd::prelude::*;

verus! {

/// The warning states in numbers: critical above 95 percent of a window, a
/// warning from 80 percent on, and never one without a window.
pub proof fn lemma_warning_numbers(tokens: nat, window: nat)
    ensures
        warning_state(tokens, window) == TokenWarningState::Critical <==> window > 0 && 100
            * tokens > 95 * window,
        warning_state(tokens, window) == TokenWarningState::Normal <==> window == 0 || 100 * tokens
            < 80 * window,
{
}

/// The recommendations in numbers: partial compaction from 90 percent on,
/// clearing tool results from 75 percent on.
pub proof fn lemma_strategy_numbers(tokens: nat, window: nat)
    ensures
        recommended_strategy(tokens, window) == (CompactionStrategy::Partial { keep_recent: 10 })
            <==> window > 0 && 100 * tokens >= 90 * window,
        recommended_strategy(tokens, window) == CompactionStrategy::Nothing <==> window == 0 || 100
            * tokens < 75 * window,
        recommended_strategy(tokens, window) == CompactionStrategy::MicroCompact <==> window > 0
            && 75 * window <= 100 * tokens < 90 * window,
        percent_reached(tokens, window, 97) <==> window > 0 && 100 * tokens >= 97 * window,
{
}

/// The usual trigger in numbers: 90 percent of a window, and any token where
/// there is no window.
pub proof fn lemma_usual_trigger(tokens: nat, window: nat)
    ensures
        threshold_reached(tokens, window, default_compact_config().trigger_threshold)
            <==> if window == 0 {
            tokens > 0
        } else {
            100 * tokens >= 90 * window
        },
        default_compact_config().keep_recent_messages == 10,
        default_compact_config().target_buffer_tokens == 13_000,
{
    broadcast use Fraction::lemma_of;

}

/// What an auto-compact does, in numbers: nothing where the breaker is open or
/// the estimate is below 90 percent of 200 000 tokens; else it fails with at
/// most ten messages and compacts with more.
pub proof fn lemma_auto_compact_numbers(messages: Seq<MessageModel>, state: CompactStateModel)
    ensures
        ({
            let step = auto_compact_step(messages, state, default_compact_config());
            let idle = state.disabled || padded_tokens(chars_in(messages)) < 180_000;
            &&& step is Idle <==> idle
            &&& step is TooShort <==> !idle && messages.len() <= 10
            &&& step is Compacts <==> !idle && messages.len() > 10
        }),
{
    lemma_usual_trigger(padded_tokens(chars_in(messages)), 200_000);
}

/// A trigger is reached by exactly its share of the window and by more, and by
/// any token where there is no window.
pub proof fn lemma_trigger(tokens: nat, window: nat, share: Fraction, percent: nat)
    ensures
        window == 0 ==> (threshold_reached(tokens, window, share) <==> tokens > 0),
        window > 0 ==> (threshold_reached(tokens, window, share) <==> tokens * share.den()
            >= share.num() * window),
        percent_reached(tokens, window, percent) <==> window > 0 && 100 * tokens >= percent
            * window,
        percent_exceeded(tokens, window, percent) <==> window > 0 && 100 * tokens > percent
            * window,
{
}

/// What an auto-compact does by any configuration: nothing where the breaker
/// is open or the trigger is not reached; else it fails where no message is to
/// be removed, and compacts.
pub proof fn lemma_auto_compact_steps(
    messages: Seq<MessageModel>,
    state: CompactStateModel,
    config: CompactConfig,
)
    ensures
        ({
            let step = auto_compact_step(messages, state, config);
            let share = config.trigger_threshold;
            let idle = state.disabled || padded_tokens(chars_in(messages)) * share.den()
                < share.num() * 200_000;
            &&& step is Idle <==> idle
            &&& step is TooShort <==> !idle && messages.len() <= config.keep_recent_messages
            &&& step is Compacts <==> !idle && messages.len() > config.keep_recent_messages
            &&& auto_compact_fits(messages, state, config) <==> {
                &&& state.disabled || chars_in(messages) <= usize::MAX
                &&& step is TooShort ==> state.consecutive_failures < u32::MAX
                &&& step is Compacts ==> count_in(messages, Counted::ToolUses) <= usize::MAX
                    && state.compaction_count < u32::MAX
            }
        }),
        summable(messages) <==> chars_in(messages) <= usize::MAX && count_in(
            messages,
            Counted::ToolUses,
        ) <= usize::MAX,
{
}

/// The limits of compaction.
pub proof fn lemma_limits()
    ensures
        KEEP_RECENT_MESSAGES == 10,
        REACTIVE_KEEP == 5,
        DEFAULT_CONTEXT_WINDOW == 200_000,
        MICROCOMPACT_TRIGGER_PERCENT == 75,
        WARNING_THRESHOLD_PERCENT == 80,
        AUTOCOMPACT_TRIGGER_PERCENT == 90,
        CRITICAL_THRESHOLD_PERCENT == 95,
        COLLAPSE_TRIGGER_PERCENT == 97,
        DEFAULT_SUMMARY_TARGET_TOKENS == 2048,
{
}

/// The topic of messages is that of the earliest block that has one, message
/// by message.
pub proof fn lemma_topic_is_first(messages: Seq<MessageModel>)
    ensures
        match topic(messages) {
            Some(t) => exists|i: int, j: int|
                #![trigger messages[i].blocks()[j]]
                {
                    &&& 0 <= i < messages.len()
                    &&& 0 <= j < messages[i].blocks().len()
                    &&& block_topic()(messages[i].blocks()[j]) == Some(t)
                    &&& forall|q: int|
                        0 <= q < j ==> block_topic()(#[trigger] messages[i].blocks()[q]) is None
                    &&& forall|p: int, q: int|
                        0 <= p < i && 0 <= q < messages[p].blocks().len() ==> block_topic()(
                            #[trigger] messages[p].blocks()[q],
                        ) is None
                },
            None => forall|p: int, q: int|
                0 <= p < messages.len() && 0 <= q < messages[p].blocks().len() ==> block_topic()(
                    #[trigger] messages[p].blocks()[q],
                ) is None,
        },
{
    lemma_first_some(messages, message_topic());
    assert forall|p: int| 0 <= p < messages.len() && message_topic()(
        #[trigger] messages[p],
    ) is None implies forall|q: int|
        0 <= q < messages[p].blocks().len() ==> block_topic()(
            #[trigger] messages[p].blocks()[q],
        ) is None by {
        lemma_first_some(messages[p].blocks(), block_topic());
    }
    if let Some(t) = topic(messages) {
        let i = choose|i: int|
            0 <= i < messages.len() && message_topic()(#[trigger] messages[i]) == Some(t)
                && forall|k: int| 0 <= k < i ==> message_topic()(#[trigger] messages[k]) is None;
        let blocks = messages[i].blocks();
        lemma_first_some(blocks, block_topic());
        let j = choose|j: int|
            0 <= j < blocks.len() && block_topic()(#[trigger] blocks[j]) == Some(t) && forall|
                k: int,
            |
                0 <= k < j ==> block_topic()(#[trigger] blocks[k]) is None;
        assert(block_topic()(messages[i].blocks()[j]) == Some(t));
        assert forall|p: int, q: int|
            0 <= p < i && 0 <= q < messages[p].blocks().len() implies block_topic()(
            #[trigger] messages[p].blocks()[q],
        ) is None by {
            assert(message_topic()(messages[p]) is None);
        }
    }
}

/// The topic of a block: a tool use has that of its file, else its command's
/// first word, else its name; a text below 200 bytes has its first 50
/// characters; no other block has one.
pub proof fn lemma_block_topic(b: BlockModel)
    ensures
        match b {
            BlockModel::ToolUse { id, name, input } => {
                let path = json_member(input, "file_path"@);
                let command = json_member(input, "command"@);
                let has_path = path is Some && json_string(path->0) is Some;
                let has_command = command is Some && json_string(command->0) is Some;
                &&& has_path ==> block_topic()(b) == json_string(path->0)
                &&& !has_path && has_command ==> block_topic()(b) == Some(
                    first_word(json_string(command->0)->0),
                )
                &&& !has_path && !has_command ==> block_topic()(b) == Some(name)
            },
            BlockModel::Text { text } => if utf8_len(text) < 200 {
                block_topic()(b) == Some(clipped(text, 50))
            } else {
                block_topic()(b) is None
            },
            _ => block_topic()(b) is None,
        },
{
}

/// There is one group for each round; it holds the round's messages, their
/// topic and the estimate of their size.
pub proof fn lemma_groups_are_rounds(messages: Seq<MessageModel>)
    ensures
        api_groups(messages).len() == api_rounds(messages).len(),
        forall|i: int|
            0 <= i < api_rounds(messages).len() ==> {
                let g = #[trigger] api_groups(messages)[i];
                &&& g.messages == api_rounds(messages)[i]
                &&& g.topic_hint == topic(api_rounds(messages)[i])
                &&& g.token_estimate == padded_tokens(chars_in(api_rounds(messages)[i]))
            },
{
}

/// Exactly as many rounds are kept as asked for, from the end, or all of them
/// where there are fewer; the summary in front stands for the rounds before
/// them, and what is saved is their estimate.
pub proof fn lemma_recent_rounds_kept(
    messages: Seq<MessageModel>,
    keep_recent: nat,
    reason: CompactionReason,
)
    ensures
        ({
            let rounds = api_rounds(messages);
            let c = compaction(messages, keep_recent, reason);
            let removed = if rounds.len() <= keep_recent {
                0
            } else {
                rounds.len() - keep_recent
            };
            &&& c.messages.len() > 0
            &&& c.messages.skip(1) == joined(rounds.skip(removed))
            &&& rounds.len() <= keep_recent ==> c.messages.skip(1) == messages
            &&& rounds.len() >= keep_recent ==> rounds.skip(removed).len() == keep_recent
            &&& c.messages_preserved == joined(rounds.skip(removed)).len()
            &&& c.messages_removed == joined(rounds.take(removed)).len()
            &&& c.messages[0] == summary_message(
                groups_summary(
                    rounds.take(removed).map_values(|round: Seq<MessageModel>| group_of(round)),
                ),
            )
            &&& c.summary_message == Some(c.messages[0])
            &&& c.tokens_saved == sum_of(
                rounds.take(removed),
                |round: Seq<MessageModel>| padded_tokens(chars_in(round)),
            )
            &&& c.reason == reason
        }),
{
    let rounds = api_rounds(messages);
    let c = compaction(messages, keep_recent, reason);
    let removed = if rounds.len() <= keep_recent {
        0
    } else {
        rounds.len() - keep_recent
    };
    lemma_rounds_partition(messages);
    lemma_joined_add(rounds.take(removed), rounds.skip(removed));
    assert(rounds.take(removed) + rounds.skip(removed) =~= rounds);
    assert(c.messages.skip(1) =~= kept_messages(messages, keep_recent));
    assert(api_groups(messages).take(removed) =~= rounds.take(removed).map_values(
        |round: Seq<MessageModel>| group_of(round),
    ));
    if rounds.len() <= keep_recent {
        assert(rounds.skip(0) =~= rounds);
    }
    lemma_saved(messages, removed);
}

proof fn lemma_saved(messages: Seq<MessageModel>, n: int)
    requires
        0 <= n <= api_rounds(messages).len(),
    ensures
        sum_of(
            api_groups(messages).take(n),
            group_tokens(),
        ) == sum_of(
            api_rounds(messages).take(n),
            |round: Seq<MessageModel>| padded_tokens(chars_in(round)),
        ),
    decreases n,
{
    if n > 0 {
        lemma_saved(messages, n - 1);
        assert(api_groups(messages).take(n).drop_last() =~= api_groups(messages).take(n - 1));
        assert(api_rounds(messages).take(n).drop_last() =~= api_rounds(messages).take(n - 1));
    }
}

/// The end of the conversation is never lost: with at least one round kept,
/// the last message stays the last.
pub proof fn lemma_last_message_stays(
    messages: Seq<MessageModel>,
    keep_recent: nat,
    reason: CompactionReason,
)
    requires
        messages.len() > 0,
        keep_recent > 0,
    ensures
        compaction(messages, keep_recent, reason).messages.len() > 1,
        compaction(messages, keep_recent, reason).messages.last() == messages.last(),
{
    let rounds = api_rounds(messages);
    let c = compaction(messages, keep_recent, reason);
    lemma_recent_rounds_kept(messages, keep_recent, reason);
    lemma_compaction_keeps_end(messages, keep_recent);
    lemma_rounds_end_with_assistant(messages);
    lemma_rounds_partition(messages);
    if rounds.len() == 0 {
        assert(joined(rounds).len() == 0);
    }
    let removed = if rounds.len() <= keep_recent {
        0
    } else {
        rounds.len() - keep_recent
    };
    let kept = rounds.skip(removed);
    assert(kept.last() == rounds[rounds.len() - 1]);
    assert(joined(kept) == joined(kept.drop_last()) + kept.last());
    let n = c.messages.len() as int;
    assert(c.messages.skip(1)[n - 2] == c.messages[n - 1]);
    let all = kept_messages(messages, keep_recent);
    assert(all.last() == messages.last());
}

/// The state counts compactions and failures: each compaction once, with its
/// reason, and the breaker opens with the third failure in a row.
pub proof fn lemma_state_steps(state: CompactStateModel, reason: CompactionReason)
    ensures
        ({
            let after = state.after_success(reason);
            &&& after.compaction_count == state.compaction_count + 1
            &&& after.consecutive_failures == 0
            &&& after.disabled == state.disabled
            &&& after.stamped
            &&& after.last_reason == Some(reason)
        }),
        ({
            let after = state.after_failure();
            &&& after.compaction_count == state.compaction_count
            &&& after.consecutive_failures == state.consecutive_failures + 1
            &&& after.disabled == (state.disabled || state.consecutive_failures >= 2)
            &&& after.stamped == state.stamped
            &&& after.last_reason == state.last_reason
        }),
        ({
            let fresh = CompactStateModel::fresh();
            &&& fresh.compaction_count == 0
            &&& fresh.consecutive_failures == 0
            &&& !fresh.disabled
            &&& !fresh.stamped
            &&& fresh.last_reason is None
        }),
{
}

/// After any attempts, the count is that of the ones that succeeded.
pub proof fn lemma_compactions_counted(attempts: Seq<Attempt>)
    ensures
        after_attempts(CompactStateModel::fresh(), attempts).compaction_count == sum_of(
            attempts,
            |a: Attempt|
                if a is Succeeded {
                    1nat
                } else {
                    0
                },
        ),
    decreases attempts.len(),
{
    if attempts.len() > 0 {
        lemma_compactions_counted(attempts.drop_last());
    }
}

/// An idle gap is reached after that many full minutes, with more than ten
/// messages.
pub proof fn lemma_idle_gap(messages: nat, seconds: nat, minutes: nat)
    ensures
        idle_gap_reached(messages, seconds, minutes) <==> seconds >= 60 * minutes && messages > 10,
{
}

/// A cut steps back over tool uses, message by message, and only over them.
pub proof fn lemma_cut_steps_back(messages: Seq<MessageModel>, index: int)
    requires
        0 <= index,
    ensures
        index == 0 || index >= messages.len() ==> safe_index(messages, index) == index,
        0 < index < messages.len() && messages[index - 1].tool_uses().len() == 0 ==> safe_index(
            messages,
            index,
        ) == index,
        0 < index < messages.len() && messages[index - 1].tool_uses().len() > 0 ==> safe_index(
            messages,
            index,
        ) == safe_index(messages, index - 1),
{
}

/// The tokens of a span add up, and one message counts with a quarter of its
/// characters.
pub proof fn lemma_span_adds(messages: Seq<MessageModel>, a: int, b: int, c: int)
    requires
        0 <= a <= b <= c <= messages.len(),
    ensures
        span_tokens(messages, a, c) == span_tokens(messages, a, b) + span_tokens(messages, b, c),
        b < c && c == b + 1 ==> span_tokens(messages, b, c) == chars_in_message(messages[b]) / 4,
{
    lemma_sum_add(messages.subrange(a, b), messages.subrange(b, c), quarter_tokens());
    assert(messages.subrange(a, b) + messages.subrange(b, c) =~= messages.subrange(a, c));
    if c == b + 1 {
        assert(messages.subrange(b, c) =~= seq![messages[b]]);
    }
}

/// The search halves its range: it takes the middle where that is within the
/// limits, goes on above it where there are too few tokens, and below it where
/// there are too many. It begins with all splits that keep ten messages.
pub proof fn lemma_search_halves(
    messages: Seq<MessageModel>,
    start: int,
    min: nat,
    max: nat,
    low: int,
    high: int,
    best: int,
)
    ensures
        split_point(messages, start, min, max) == split_search(
            messages,
            start,
            min,
            max,
            start,
            messages.len() - 10,
            start,
        ),
        low > high ==> split_search(messages, start, min, max, low, high, best) == best,
        low <= high ==> {
            let mid = (low + high) / 2;
            let tokens = span_tokens(messages, start, mid);
            let found = split_search(messages, start, min, max, low, high, best);
            &&& min <= tokens <= max ==> found == mid
            &&& tokens < min ==> found == split_search(
                messages,
                start,
                min,
                max,
                mid + 1,
                high,
                mid,
            )
            &&& tokens >= min && tokens > max && mid > 0 ==> found == split_search(
                messages,
                start,
                min,
                max,
                low,
                mid - 1,
                best,
            )
            &&& tokens >= min && tokens > max && mid <= 0 ==> found == best
        },
{
}

/// The index in full: zero where there are fewer than twenty messages or too
/// few tokens from the start on; else the last safe cut at or before a point
/// that keeps ten messages and is within the token limits, wherever there is
/// such a point. Where there is none, it is the last safe cut at or before the
/// last point with too few tokens, or the start.
pub proof fn lemma_keep_index_in_full(messages: Seq<MessageModel>, start: int, min: nat, max: nat)
    requires
        0 <= start <= messages.len(),
    ensures
        messages.len() < 20 ==> keep_index(messages, start, min, max) == 0,
        messages.len() >= 20 && span_tokens(messages, start, messages.len() as int) < min
            ==> keep_index(messages, start, min, max) == 0,
        messages.len() >= 20 && span_tokens(messages, start, messages.len() as int) >= min
            ==> keep_index(messages, start, min, max) == safe_index(
            messages,
            split_point(messages, start, min, max),
        ),
        messages.len() >= 20 && span_tokens(messages, start, messages.len() as int) >= min
            ==> exists|k: int|
            {
                let index = keep_index(messages, start, min, max);
                let high = messages.len() - 10;
                let possible = exists|q: int|
                    start <= q <= high && min <= #[trigger] span_tokens(messages, start, q) <= max;
                &&& start <= k
                &&& k <= high || k == start
                &&& 0 <= index <= k
                &&& safe_cut(messages, index)
                &&& forall|j: int| index < j <= k ==> !#[trigger] safe_cut(messages, j)
                &&& possible ==> min <= #[trigger] span_tokens(messages, start, k) <= max
                &&& !possible ==> (k == start || span_tokens(messages, start, k) < min) && forall|
                    q: int,
                |
                    k < q <= high ==> #[trigger] span_tokens(messages, start, q) > max
            },
{
    if messages.len() >= 20 && span_tokens(messages, start, messages.len() as int) >= min {
        let k = split_point(messages, start, min, max);
        let high = messages.len() - 10;
        lemma_split_point(messages, start, min, max);
        lemma_safe_index(messages, k);
        let possible = exists|q: int|
            start <= q <= high && min <= #[trigger] span_tokens(messages, start, q) <= max;
        if !possible {
            if min <= span_tokens(messages, start, k) <= max {
                assert(k == start);
                assert(span_tokens(messages, start, k) >= min);
            }
        }
        assert(keep_index(messages, start, min, max) == safe_index(messages, k));
        assert(span_tokens(messages, start, k) == span_tokens(messages, start, k));
    }
}

/// Clearing changes the content of older tool results that the user sent, and
/// nothing else: a result keeps what it answers and whether it is an error,
/// other blocks and other messages stay, and nothing changes among the recent
/// messages.
pub proof fn lemma_clearing_in_full(messages: Seq<MessageModel>, keep_recent: nat, i: int, j: int)
    requires
        0 <= i < messages.len(),
        0 <= j < messages[i].blocks().len(),
    ensures
        ({
            let m = micro_compacted(messages, keep_recent)[i];
            let before = messages[i].blocks()[j];
            &&& m.blocks().len() == messages[i].blocks().len()
            &&& if messages[i].role == Role::User && i + keep_recent < messages.len() {
                match before {
                    BlockModel::ToolResult { tool_use_id, content, is_error } => m.blocks()[j] == (
                    BlockModel::ToolResult {
                        tool_use_id,
                        content: ResultModel::Text("[Old tool result content cleared]"@),
                        is_error,
                    }),
                    _ => m.blocks()[j] == before,
                }
            } else {
                m.blocks()[j] == before
            }
        }),
{
}

/// Clearing keeps messages as they are that hold a text, that the assistant
/// sent, or that are recent.
pub proof fn lemma_clearing_spares(messages: Seq<MessageModel>, keep_recent: nat, i: int)
    requires
        0 <= i < messages.len(),
        messages[i].content is Text || messages[i].role == Role::Assistant || i + keep_recent
            >= messages.len(),
    ensures
        micro_compacted(messages, keep_recent)[i] == messages[i],
        micro_compacted(messages, keep_recent).len() == messages.len(),
{
}

/// Without the thinking, a message has its other blocks, in order.
pub proof fn lemma_only_thinking_goes(messages: Seq<MessageModel>, i: int)
    requires
        0 <= i < messages.len(),
    ensures
        thoughtless(messages).len() == messages.len(),
        ({
            let m = thoughtless(messages)[i];
            &&& m.role == messages[i].role
            &&& m.uuid == messages[i].uuid
            &&& m.cost == messages[i].cost
            &&& m.blocks() == messages[i].blocks().filter(|b: BlockModel| !(b is Thinking))
            &&& messages[i].content is Text ==> m == messages[i]
            &&& m.content is Blocks <==> messages[i].content is Blocks
        }),
{
    reveal_with_fuel(Seq::filter, 1);
    assert(thoughtless(messages)[i] == thoughtless_message(messages[i]));
    if messages[i].content is Text {
        assert(messages[i].blocks().filter(|b: BlockModel| !(b is Thinking)) =~= Seq::empty());
    }
}

/// A collapse in numbers: the limit is the configured share of 200 000 tokens,
/// rounded down; an aggressive collapse keeps three messages from clearing,
/// another one ten, and only an aggressive one drops thinking, where clearing
/// left the conversation at the limit or above.
pub proof fn lemma_collapse_in_full(messages: Seq<MessageModel>, config: ContextCollapseConfig)
    requires
        config.trigger_fraction.den() > 0,
    ensures
        ({
            let share = config.trigger_fraction;
            let limit = collapse_limit(share);
            &&& limit < usize::MAX ==> limit * share.den() <= 200_000 * share.num() < (limit + 1)
                * share.den()
            &&& limit == usize::MAX ==> limit * share.den() <= 200_000 * share.num()
            &&& limit <= usize::MAX
            &&& collapses(messages, config) <==> padded_tokens(chars_in(messages)) >= limit
            &&& !config.aggressive ==> collapsed(messages, config) == micro_compacted(messages, 10)
            &&& config.aggressive && padded_tokens(chars_in(micro_compacted(messages, 3))) < limit
                ==> collapsed(messages, config) == micro_compacted(messages, 3)
            &&& config.aggressive && padded_tokens(chars_in(micro_compacted(messages, 3))) >= limit
                ==> collapsed(messages, config) == thoughtless(micro_compacted(messages, 3))
        }),
{
    let share = config.trigger_fraction;
    let whole = (200_000 * share.num()) as int;
    let den = share.den() as int;
    vstd::arithmetic::div_mod::lemma_fundamental_div_mod(whole, den);
    vstd::arithmetic::div_mod::lemma_mod_bound(whole, den);
    let q = whole / den;
    assert(q * den <= whole < (q + 1) * den) by (nonlinear_arith)
        requires
            whole == den * q + whole % den,
            0 <= whole % den < den,
    ;
    if q >= usize::MAX {
        assert(usize::MAX * den <= q * den) by (nonlinear_arith)
            requires
                q >= usize::MAX,
                den > 0,
        ;
    }
}

/// A collapse has room where the sizes and counts that it needs are machine
/// numbers; one that is not due needs only the size of the conversation.
pub proof fn lemma_collapse_room(messages: Seq<MessageModel>, config: ContextCollapseConfig)
    ensures
        collapse_keeps(true) == 3,
        collapse_keeps(false) == 10,
        collapse_fits(messages, config) <==> {
            let keep = if config.aggressive {
                3nat
            } else {
                10
            };
            &&& chars_in(messages) <= usize::MAX
            &&& collapses(messages, config) ==> micro_cleared(messages, keep) <= usize::MAX
            &&& collapses(messages, config) && config.aggressive ==> chars_in(
                micro_compacted(messages, 3),
            ) <= usize::MAX
        },
{
}

/// Snipping keeps the conversation up to and with the first message of that
/// uuid, and all of it where there is none.
pub proof fn lemma_snip_in_full(messages: Seq<MessageModel>, uuid: Seq<char>)
    ensures
        ({
            let kept = snipped(messages, uuid);
            &&& kept.len() <= messages.len()
            &&& kept == messages.take(kept.len() as int)
            &&& forall|k: int|
                0 <= k < kept.len() - 1 && (kept.len() < messages.len() || kept.last().uuid
                    == Some(uuid)) ==> (#[trigger] messages[k]).uuid != Some(uuid)
            &&& (exists|k: int|
                0 <= k < messages.len() && (#[trigger] messages[k]).uuid == Some(uuid))
                ==> kept.len() > 0 && kept.last().uuid == Some(uuid)
            &&& (forall|k: int|
                0 <= k < messages.len() ==> (#[trigger] messages[k]).uuid != Some(uuid)) ==> kept
                == messages
        }),
{
    lemma_uuid_index(messages, uuid);
    assert(messages.take(messages.len() as int) =~= messages);
}

} // verus!
