//! Full compaction: older rounds give way to a summary.

use crate::compact::estimate::{
    chars_in, chars_fit, context_window_for_model, estimate_tokens_for_messages,
    DEFAULT_CONTEXT_WINDOW,
};
use crate::compact::grouping::{
    api_groups, api_rounds, group_messages_by_api_round, groups_view, lemma_rounds_chars,
    lemma_rounds_partition, round_chars, GroupModel, MessageGroup,
};
use crate::compact::prompt::{
    build_summary_from_groups, count_in_groups, format_compact_summary, groups_summary,
    summary_message,
};
use crate::compact::state::{AutoCompactState, CompactStateModel, CompactionReason};
use crate::compact::threshold::{
    should_auto_compact, threshold_reached, CompactConfig, KEEP_RECENT_MESSAGES,
};
use crate::counting::{checked_count, count_in, lemma_count_messages, lemma_count_split, Counted};
use crate::error::{ClaudeError, ErrorModel};
use crate::estimate::padded_tokens;
use crate::seqs::{joined, lemma_joined_add, lemma_sum_prefix, lemma_sum_step, sum_of};
use crate::types::{clone_messages, messages_view, Message, MessageModel, Role};
use vstd::prelude::*;
use vstd::slice::slice_subrange;

verus! {

/// Result of a compaction operation.
#[derive(Debug)]
pub struct CompactResult {
    /// Messages after compaction.
    pub messages: Vec<Message>,
    /// Summary message that was added.
    pub summary_message: Option<Message>,
    /// Number of messages removed.
    pub messages_removed: usize,
    /// Number of messages preserved.
    pub messages_preserved: usize,
    /// Estimated tokens saved.
    pub tokens_saved: u64,
    /// Reason for compaction.
    pub reason: CompactionReason,
}

/// The model of a compaction's result.
pub struct CompactionModel {
    pub messages: Seq<MessageModel>,
    pub summary_message: Option<MessageModel>,
    pub messages_removed: int,
    pub messages_preserved: int,
    pub tokens_saved: nat,
    pub reason: CompactionReason,
}

impl View for CompactResult {
    type V = CompactionModel;

    open spec fn view(&self) -> CompactionModel {
        CompactionModel {
            messages: messages_view(self.messages@),
            summary_message: match self.summary_message {
                Some(m) => Some(m@),
                None => None,
            },
            messages_removed: self.messages_removed as int,
            messages_preserved: self.messages_preserved as int,
            tokens_saved: self.tokens_saved as nat,
            reason: self.reason,
        }
    }
}

impl Clone for CompactResult {
    fn clone(&self) -> (r: Self)
        ensures
            r@ == self@,
    {
        CompactResult {
            messages: clone_messages(self.messages.as_slice()),
            summary_message: match &self.summary_message {
                Some(m) => Some(m.clone()),
                None => None,
            },
            messages_removed: self.messages_removed,
            messages_preserved: self.messages_preserved,
            tokens_saved: self.tokens_saved,
            reason: self.reason,
        }
    }
}

/// Whether the sizes and counts that a compaction needs are machine numbers.
pub open spec fn summable(messages: Seq<MessageModel>) -> bool {
    &&& chars_in(messages) <= usize::MAX
    &&& count_in(messages, Counted::ToolUses) <= usize::MAX
}

/// Checks that the sizes and counts that a compaction needs are machine
/// numbers.
pub fn is_summable(messages: &[Message]) -> (r: bool)
    ensures
        r == summable(messages_view(messages@)),
{
    chars_fit(messages) && checked_count(messages, Counted::ToolUses).is_some()
}

/// How many rounds give way when so many are kept.
pub open spec fn rounds_removed(messages: Seq<MessageModel>, keep_recent: nat) -> int {
    if api_rounds(messages).len() <= keep_recent {
        0
    } else {
        api_rounds(messages).len() - keep_recent
    }
}

/// The token estimate of a group.
pub open spec fn group_tokens() -> spec_fn(GroupModel) -> nat {
    |g: GroupModel| g.token_estimate
}

/// The messages of the rounds that are kept.
pub open spec fn kept_messages(messages: Seq<MessageModel>, keep_recent: nat) -> Seq<MessageModel> {
    joined(api_rounds(messages).skip(rounds_removed(messages, keep_recent)))
}

/// The groups that give way.
pub open spec fn removed_groups(messages: Seq<MessageModel>, keep_recent: nat) -> Seq<GroupModel> {
    api_groups(messages).take(rounds_removed(messages, keep_recent))
}

/// A compaction: a summary of the older rounds in front of the recent ones.
pub open spec fn compaction(
    messages: Seq<MessageModel>,
    keep_recent: nat,
    reason: CompactionReason,
) -> CompactionModel {
    let kept = kept_messages(messages, keep_recent);
    let old_groups = removed_groups(messages, keep_recent);
    let summary = summary_message(groups_summary(old_groups));
    CompactionModel {
        messages: seq![summary] + kept,
        summary_message: Some(summary),
        messages_removed: messages.len() - kept.len(),
        messages_preserved: kept.len() as int,
        tokens_saved: sum_of(old_groups, group_tokens()),
        reason,
    }
}

/// What is kept is the end of the conversation, unchanged, and no more than
/// the rounds asked for.
pub proof fn lemma_compaction_keeps_end(messages: Seq<MessageModel>, keep_recent: nat)
    ensures
        kept_messages(messages, keep_recent).len() <= messages.len(),
        kept_messages(messages, keep_recent) == messages.skip(
            messages.len() - kept_messages(messages, keep_recent).len(),
        ),
        api_rounds(messages).skip(rounds_removed(messages, keep_recent)).len() <= keep_recent,
{
    let rounds = api_rounds(messages);
    let n = rounds_removed(messages, keep_recent);
    lemma_rounds_partition(messages);
    lemma_joined_add(rounds.take(n), rounds.skip(n));
    assert(rounds.take(n) + rounds.skip(n) =~= rounds);
    assert(kept_messages(messages, keep_recent) =~= messages.skip(
        messages.len() - kept_messages(messages, keep_recent).len(),
    ));
}

/// Every message is either removed or preserved, and the result holds the
/// summary and the preserved messages.
pub proof fn lemma_compaction_counts(
    messages: Seq<MessageModel>,
    keep_recent: nat,
    reason: CompactionReason,
)
    ensures
        ({
            let c = compaction(messages, keep_recent, reason);
            &&& c.messages_removed >= 0
            &&& c.messages_removed + c.messages_preserved == messages.len()
            &&& c.messages.len() == c.messages_preserved + 1
            &&& Some(c.messages[0]) == c.summary_message
            &&& c.messages.skip(1) == messages.skip(c.messages_removed)
        }),
{
    lemma_compaction_keeps_end(messages, keep_recent);
    let c = compaction(messages, keep_recent, reason);
    assert(c.messages.skip(1) =~= messages.skip(c.messages_removed));
}

/// Counting round by round.
pub proof fn lemma_count_rounds(rounds: Seq<Seq<MessageModel>>, groups: Seq<GroupModel>, what: Counted)
    requires
        rounds.len() == groups.len(),
        forall|i: int| 0 <= i < rounds.len() ==> (#[trigger] groups[i]).messages == rounds[i],
    ensures
        count_in_groups(groups, what) == count_in(joined(rounds), what),
    decreases rounds.len(),
{
    if rounds.len() > 0 {
        lemma_count_rounds(rounds.drop_last(), groups.drop_last(), what);
        let before = joined(rounds.drop_last());
        let all = joined(rounds);
        lemma_count_split(all, what, before.len() as int);
        assert(all.take(before.len() as int) =~= before);
        assert(all.skip(before.len() as int) =~= rounds.last());
        assert(groups.last().messages == rounds.last());
    }
}

proof fn lemma_removed_counts(messages: Seq<MessageModel>, keep_recent: nat, what: Counted)
    ensures
        count_in_groups(removed_groups(messages, keep_recent), what) <= count_in(messages, what),
{
    let rounds = api_rounds(messages);
    let n = rounds_removed(messages, keep_recent);
    lemma_rounds_partition(messages);
    lemma_joined_add(rounds.take(n), rounds.skip(n));
    assert(rounds.take(n) + rounds.skip(n) =~= rounds);
    lemma_count_rounds(rounds.take(n), removed_groups(messages, keep_recent), what);
    let front = joined(rounds.take(n));
    assert(messages.take(front.len() as int) =~= front);
    lemma_count_split(messages, what, front.len() as int);
}

proof fn lemma_group_tokens_fit(messages: Seq<MessageModel>, n: int)
    requires
        0 <= n <= api_groups(messages).len(),
    ensures
        sum_of(api_groups(messages).take(n), group_tokens()) <= chars_in(messages),
{
    let rounds = api_rounds(messages);
    lemma_group_tokens_prefix(messages, n);
    lemma_rounds_chars(messages);
    lemma_sum_prefix(rounds, round_chars(), n, rounds.len() as int);
    assert(rounds.take(rounds.len() as int) =~= rounds);
}

proof fn lemma_group_tokens_prefix(messages: Seq<MessageModel>, n: int)
    requires
        0 <= n <= api_groups(messages).len(),
    ensures
        sum_of(api_groups(messages).take(n), group_tokens()) <= sum_of(
            api_rounds(messages).take(n),
            round_chars(),
        ),
    decreases n,
{
    if n > 0 {
        lemma_group_tokens_prefix(messages, n - 1);
        lemma_sum_step(api_groups(messages), group_tokens(), n - 1);
        lemma_sum_step(api_rounds(messages), round_chars(), n - 1);
        let chars = chars_in(api_rounds(messages)[n - 1]);
        assert(padded_tokens(chars) <= chars);
    }
}

/// Performs full conversation compaction.
pub fn compact_conversation(messages: &[Message], keep_recent: usize) -> (r: Result<
    CompactResult,
    ClaudeError,
>)
    requires
        messages@.len() > keep_recent ==> summable(messages_view(messages@)),
    ensures
        messages@.len() > keep_recent <==> r is Ok,
        r matches Ok(c) ==> c@ == compaction(
            messages_view(messages@),
            keep_recent as nat,
            CompactionReason::AutoCompactThreshold,
        ),
        r matches Err(e) ==> e@ == ErrorModel::Other("Not enough messages to compact"@),
{
    if messages.len() <= keep_recent {
        return Err(ClaudeError::Other("Not enough messages to compact".to_owned()));
    }
    let ghost model = messages_view(messages@);
    let ghost rounds = api_rounds(model);
    let groups = group_messages_by_api_round(messages);
    let split_at: usize = if groups.len() <= keep_recent {
        0
    } else {
        groups.len() - keep_recent
    };
    let ghost old_groups = removed_groups(model, keep_recent as nat);
    proof {
        assert(groups@.len() == rounds.len());
        assert(split_at == rounds_removed(model, keep_recent as nat));
        lemma_group_tokens_fit(model, split_at as int);
        lemma_removed_counts(model, keep_recent as nat, Counted::Messages(Role::User));
        lemma_removed_counts(model, keep_recent as nat, Counted::Messages(Role::Assistant));
        lemma_removed_counts(model, keep_recent as nat, Counted::ToolUses);
        lemma_count_messages(model, Role::User);
        lemma_count_messages(model, Role::Assistant);
        lemma_compaction_keeps_end(model, keep_recent as nat);
    }
    let mut tokens: usize = 0;
    let mut i: usize = 0;
    while i < split_at
        invariant
            i <= split_at <= groups.len(),
            groups_view(groups@) == api_groups(model),
            old_groups == api_groups(model).take(split_at as int),
            sum_of(old_groups, group_tokens()) <= usize::MAX,
            tokens == sum_of(old_groups.take(i as int), group_tokens()),
        decreases split_at - i,
    {
        proof {
            lemma_sum_step(old_groups, group_tokens(), i as int);
            lemma_sum_prefix(old_groups, group_tokens(), i + 1, split_at as int);
            assert(old_groups.take(split_at as int) =~= old_groups);
            assert(old_groups[i as int] == groups@[i as int]@);
        }
        tokens += groups[i].token_estimate;
        i += 1;
    }
    let older: &[MessageGroup] = slice_subrange(groups.as_slice(), 0, split_at);
    proof {
        assert(old_groups.take(split_at as int) =~= old_groups);
        assert(groups_view(older@) =~= old_groups);
    }
    let summary = build_summary_from_groups(older);
    let summary_msg = format_compact_summary(summary.as_str());
    let mut new_messages: Vec<Message> = Vec::new();
    new_messages.push(summary_msg.clone());
    let ghost head = seq![summary_msg@];
    let ghost kept_rounds = rounds.skip(split_at as int);
    let mut g: usize = split_at;
    proof {
        assert(messages_view(new_messages@) =~= head + joined(kept_rounds.take(0)));
    }
    while g < groups.len()
        invariant
            split_at <= g <= groups.len(),
            rounds == api_rounds(model),
            groups_view(groups@) == api_groups(model),
            groups@.len() == rounds.len(),
            kept_rounds == rounds.skip(split_at as int),
            messages_view(new_messages@) == head + joined(kept_rounds.take(g - split_at)),
        decreases groups.len() - g,
    {
        let ghost before = messages_view(new_messages@);
        let mut copy = clone_messages(groups[g].messages.as_slice());
        let ghost copied = messages_view(copy@);
        new_messages.append(&mut copy);
        proof {
            assert(api_groups(model)[g as int] == groups@[g as int]@);
            assert(copied == kept_rounds[g - split_at]);
            assert(messages_view(new_messages@) =~= before + copied);
            assert(kept_rounds.take(g - split_at + 1).drop_last() =~= kept_rounds.take(
                g - split_at,
            ));
            assert(messages_view(new_messages@) =~= head + joined(
                kept_rounds.take(g - split_at + 1),
            ));
        }
        g += 1;
    }
    proof {
        assert(kept_rounds.take(g - split_at) =~= kept_rounds);
        assert(messages_view(new_messages@) == head + kept_messages(model, keep_recent as nat));
    }
    let preserved: usize = new_messages.len() - 1;
    let removed: usize = messages.len() - preserved;
    Ok(
        CompactResult {
            messages: new_messages,
            summary_message: Some(summary_msg),
            messages_removed: removed,
            messages_preserved: preserved,
            tokens_saved: tokens as u64,
            reason: CompactionReason::AutoCompactThreshold,
        },
    )
}

/// How many rounds a reactive compaction keeps.
pub const REACTIVE_KEEP: usize = 5;

/// Reactive compact - called after a context window error: keeps half as many
/// rounds as usual.
pub fn reactive_compact(messages: &mut Vec<Message>) -> (r: Result<CompactResult, ClaudeError>)
    requires
        old(messages)@.len() > REACTIVE_KEEP ==> summable(messages_view(old(messages)@)),
    ensures
        old(messages)@.len() > REACTIVE_KEEP <==> r is Ok,
        r matches Ok(c) ==> {
            &&& c@ == compaction(
                messages_view(old(messages)@),
                REACTIVE_KEEP as nat,
                CompactionReason::ReactiveCompact,
            )
            &&& messages_view(final(messages)@) == c@.messages
        },
        r matches Err(e) ==> {
            &&& e@ == ErrorModel::Other("Not enough messages to compact"@)
            &&& *final(messages) == *old(messages)
        },
{
    let keep_recent: usize = KEEP_RECENT_MESSAGES / 2;
    match compact_conversation(messages.as_slice(), keep_recent) {
        Ok(result) => {
            let mut result = result;
            result.reason = CompactionReason::ReactiveCompact;
            *messages = clone_messages(result.messages.as_slice());
            Ok(result)
        },
        Err(e) => Err(e),
    }
}

/// A reactive compaction is a full one that keeps fewer rounds, but for the
/// reason that it gives.
pub proof fn lemma_reactive_is_full(messages: Seq<MessageModel>)
    ensures
        compaction(messages, REACTIVE_KEEP as nat, CompactionReason::ReactiveCompact) == (
        CompactionModel {
            reason: CompactionReason::ReactiveCompact,
            ..compaction(
                messages,
                REACTIVE_KEEP as nat,
                CompactionReason::AutoCompactThreshold,
            )
        }),
{
}

/// What an auto-compact does.
pub enum AutoCompactStep {
    /// Nothing: it is disabled, or the threshold is not reached.
    Idle,
    /// It fails: there are too few messages.
    TooShort,
    /// It compacts.
    Compacts,
}

/// What an auto-compact does with a conversation.
pub open spec fn auto_compact_step(
    messages: Seq<MessageModel>,
    state: CompactStateModel,
    config: CompactConfig,
) -> AutoCompactStep {
    if state.disabled || !threshold_reached(
        padded_tokens(chars_in(messages)),
        DEFAULT_CONTEXT_WINDOW as nat,
        config.trigger_threshold,
    ) {
        AutoCompactStep::Idle
    } else if messages.len() <= config.keep_recent_messages {
        AutoCompactStep::TooShort
    } else {
        AutoCompactStep::Compacts
    }
}

/// Whether the counters have room for what an auto-compact does.
pub open spec fn auto_compact_fits(
    messages: Seq<MessageModel>,
    state: CompactStateModel,
    config: CompactConfig,
) -> bool {
    &&& !state.disabled ==> chars_in(messages) <= usize::MAX
    &&& auto_compact_step(messages, state, config) is TooShort ==> state.consecutive_failures
        < u32::MAX
    &&& auto_compact_step(messages, state, config) is Compacts ==> summable(messages)
        && state.compaction_count < u32::MAX
}

/// Checks that the counters have room for what an auto-compact does.
pub fn can_auto_compact(
    messages: &[Message],
    model: &str,
    state: &AutoCompactState,
    config: &CompactConfig,
) -> (r: bool)
    ensures
        r == auto_compact_fits(messages_view(messages@), state@, *config),
{
    if !state.is_enabled() {
        return true;
    }
    if !chars_fit(messages) {
        return false;
    }
    let estimated: u64 = estimate_tokens_for_messages(messages) as u64;
    if !should_auto_compact(estimated, context_window_for_model(model), config) {
        return true;
    }
    if messages.len() <= config.keep_recent_messages {
        state.consecutive_failures < u32::MAX
    } else {
        is_summable(messages) && state.compaction_count < u32::MAX
    }
}

/// Checks and performs auto-compact if needed.
pub fn auto_compact_if_needed(
    messages: &mut Vec<Message>,
    model: &str,
    state: &mut AutoCompactState,
    config: &CompactConfig,
) -> (r: Result<Option<CompactResult>, ClaudeError>)
    requires
        auto_compact_fits(messages_view(old(messages)@), old(state)@, *config),
    ensures
        match auto_compact_step(messages_view(old(messages)@), old(state)@, *config) {
            AutoCompactStep::Idle => {
                &&& r matches Ok(None)
                &&& *final(messages) == *old(messages)
                &&& *final(state) == *old(state)
            },
            AutoCompactStep::TooShort => {
                &&& r matches Err(e) && e@ == ErrorModel::Other("Not enough messages to compact"@)
                &&& *final(messages) == *old(messages)
                &&& final(state)@ == old(state)@.after_failure()
                &&& final(state).last_compaction_at == old(state).last_compaction_at
            },
            AutoCompactStep::Compacts => {
                &&& r matches Ok(Some(c)) && c@ == compaction(
                    messages_view(old(messages)@),
                    config.keep_recent_messages as nat,
                    CompactionReason::AutoCompactThreshold,
                ) && messages_view(final(messages)@) == c@.messages
                &&& final(state)@ == old(state)@.after_success(
                    CompactionReason::AutoCompactThreshold,
                )
                &&& final(state).last_compaction_at matches Some(at) && at.in_calendar()
            },
        },
{
    if !state.is_enabled() {
        return Ok(None);
    }
    let estimated: u64 = estimate_tokens_for_messages(messages.as_slice()) as u64;
    let window: u64 = context_window_for_model(model);
    if !should_auto_compact(estimated, window, config) {
        return Ok(None);
    }
    match compact_conversation(messages.as_slice(), config.keep_recent_messages) {
        Ok(result) => {
            *messages = clone_messages(result.messages.as_slice());
            state.on_success(CompactionReason::AutoCompactThreshold);
            Ok(Some(result))
        },
        Err(e) => {
            state.on_failure();
            Err(e)
        },
    }
}

} // verus!
