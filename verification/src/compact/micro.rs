//! Clearing old tool results, collapsing and snipping.

use crate::compact::estimate::{
    chars_fit, chars_in, estimate_tokens_for_messages, DEFAULT_CONTEXT_WINDOW,
};
use crate::compact::threshold::{ContextCollapseConfig, KEEP_RECENT_MESSAGES};
use crate::counting::{checked_count, count_in, counted, Counted};
use crate::error::ClaudeError;
use crate::estimate::padded_tokens;
use crate::fraction::{widening_mul, Fraction};
use crate::seqs::{lemma_sum_prefix, lemma_sum_step};
use crate::types::{
    blocks_view, clone_messages, messages_view, tool_results, BlockModel, ContentBlock, ContentModel, Message,
    MessageContent, MessageModel, ResultModel, Role, ToolResultContent,
};
use vstd::prelude::*;
use vstd::slice::slice_subrange;

verus! {

/// Message indicating truncated tool results.
pub const TIME_BASED_MC_CLEARED_MESSAGE: &'static str = "[Old tool result content cleared]";

/// A block after clearing: a tool result holds the notice only.
pub open spec fn cleared_block(b: BlockModel) -> BlockModel {
    match b {
        BlockModel::ToolResult { tool_use_id, content, is_error } => BlockModel::ToolResult {
            tool_use_id,
            content: ResultModel::Text(TIME_BASED_MC_CLEARED_MESSAGE@),
            is_error,
        },
        other => other,
    }
}

/// Blocks after clearing.
pub open spec fn cleared_blocks(blocks: Seq<BlockModel>) -> Seq<BlockModel> {
    blocks.map_values(|b: BlockModel| cleared_block(b))
}

fn clear_blocks(blocks: &mut Vec<ContentBlock>) -> (r: usize)
    ensures
        blocks_view(final(blocks)@) == cleared_blocks(blocks_view(old(blocks)@)),
        r == tool_results(blocks_view(old(blocks)@)).len(),
{
    let ghost before = blocks_view(blocks@);
    let ghost cleared_before = cleared_blocks(before);
    let mut cleared: usize = 0;
    let mut j: usize = 0;
    while j < blocks.len()
        invariant
            j <= blocks.len(),
            blocks.len() == before.len(),
            cleared_before == cleared_blocks(before),
            cleared <= j,
            cleared == tool_results(before.take(j as int)).len(),
            forall|k: int| 0 <= k < j ==> (#[trigger] blocks@[k])@ == cleared_before[k],
            forall|k: int| j <= k < blocks.len() ==> (#[trigger] blocks@[k])@ == before[k],
        decreases blocks.len() - j,
    {
        proof {
            reveal_with_fuel(Seq::filter, 2);
            assert(before.take(j + 1).drop_last() =~= before.take(j as int));
            assert(before.take(j + 1).last() == blocks@[j as int]@);
        }
        if let ContentBlock::ToolResult { tool_use_id, content, is_error } = &mut blocks[j] {
            *content = ToolResultContent::Text(TIME_BASED_MC_CLEARED_MESSAGE.to_owned());
            cleared += 1;
        }
        j += 1;
    }
    proof {
        assert(before.take(j as int) =~= before);
        assert(blocks_view(blocks@) =~= cleared_before);
    }
    cleared
}

/// A message after clearing: the tool results that the user sent are cleared.
pub open spec fn cleared_message(m: MessageModel) -> MessageModel {
    match m.content {
        ContentModel::Blocks(blocks) => if m.role == Role::User {
            MessageModel { content: ContentModel::Blocks(cleared_blocks(blocks)), ..m }
        } else {
            m
        },
        ContentModel::Text(_) => m,
    }
}

/// How many messages come before the recent ones.
pub open spec fn older_count(messages: Seq<MessageModel>, keep_recent: nat) -> int {
    if messages.len() <= keep_recent {
        0
    } else {
        messages.len() - keep_recent
    }
}

/// The conversation with all but the recent messages cleared.
pub open spec fn micro_compacted(messages: Seq<MessageModel>, keep_recent: nat) -> Seq<
    MessageModel,
> {
    Seq::new(
        messages.len(),
        |i: int|
            if i < older_count(messages, keep_recent) {
                cleared_message(messages[i])
            } else {
                messages[i]
            },
    )
}

/// How many tool results are cleared.
pub open spec fn micro_cleared(messages: Seq<MessageModel>, keep_recent: nat) -> nat {
    count_in(messages.take(older_count(messages, keep_recent)), Counted::UserToolResults)
}

fn clear_message(message: &mut Message) -> (r: usize)
    ensures
        final(message)@ == cleared_message(old(message)@),
        r == counted(Counted::UserToolResults)(old(message)@),
{
    proof {
        reveal_with_fuel(Seq::filter, 1);
    }
    if message.role == Role::User {
        match &mut message.content {
            MessageContent::Blocks(blocks) => clear_blocks(blocks),
            MessageContent::Text(_) => 0,
        }
    } else {
        0
    }
}

/// Clears tool results from older messages to save tokens.
pub fn micro_compact_messages(messages: &mut Vec<Message>, keep_recent: usize) -> (r: usize)
    requires
        micro_cleared(messages_view(old(messages)@), keep_recent as nat) <= usize::MAX,
    ensures
        messages_view(final(messages)@) == micro_compacted(
            messages_view(old(messages)@),
            keep_recent as nat,
        ),
        r == micro_cleared(messages_view(old(messages)@), keep_recent as nat),
{
    let ghost before = messages_view(messages@);
    if messages.len() <= keep_recent {
        assert(messages_view(messages@) =~= micro_compacted(before, keep_recent as nat));
        return 0;
    }
    let split_at: usize = messages.len() - keep_recent;
    let ghost older = before.take(split_at as int);
    let mut cleared: usize = 0;
    let mut i: usize = 0;
    while i < split_at
        invariant
            i <= split_at <= messages.len(),
            messages.len() == before.len(),
            older == before.take(split_at as int),
            count_in(older, Counted::UserToolResults) <= usize::MAX,
            cleared == count_in(older.take(i as int), Counted::UserToolResults),
            forall|k: int|
                0 <= k < i ==> (#[trigger] messages@[k])@ == cleared_message(before[k]),
            forall|k: int| i <= k < messages.len() ==> (#[trigger] messages@[k])@ == before[k],
        decreases split_at - i,
    {
        proof {
            lemma_sum_step(older, counted(Counted::UserToolResults), i as int);
            lemma_sum_prefix(older, counted(Counted::UserToolResults), i + 1, older.len() as int);
            assert(older.take(older.len() as int) =~= older);
        }
        cleared += clear_message(&mut messages[i]);
        i += 1;
    }
    proof {
        assert(older.take(split_at as int) =~= older);
        assert(messages_view(messages@) =~= micro_compacted(before, keep_recent as nat));
    }
    cleared
}

/// Clearing keeps every message in its place with its role and uuid, leaves
/// the recent ones as they are; clearing again changes nothing and counts as
/// many results.
pub proof fn lemma_micro_compact_stable(messages: Seq<MessageModel>, keep_recent: nat)
    ensures
        micro_compacted(messages, keep_recent).len() == messages.len(),
        forall|i: int|
            0 <= i < messages.len() ==> {
                let m = #[trigger] micro_compacted(messages, keep_recent)[i];
                &&& m.role == messages[i].role
                &&& m.uuid == messages[i].uuid
                &&& m.cost == messages[i].cost
                &&& m.blocks().len() == messages[i].blocks().len()
            },
        forall|i: int|
            messages.len() - keep_recent <= i < messages.len() && 0 <= i ==> #[trigger]
                micro_compacted(messages, keep_recent)[i] == messages[i],
        micro_compacted(micro_compacted(messages, keep_recent), keep_recent) == micro_compacted(
            messages,
            keep_recent,
        ),
        micro_cleared(micro_compacted(messages, keep_recent), keep_recent) == micro_cleared(
            messages,
            keep_recent,
        ),
{
    let once = micro_compacted(messages, keep_recent);
    let twice = micro_compacted(once, keep_recent);
    assert forall|i: int| 0 <= i < messages.len() implies twice[i] == once[i] by {
        if let ContentModel::Blocks(blocks) = messages[i].content {
            assert(cleared_blocks(cleared_blocks(blocks)) =~= cleared_blocks(blocks));
        }
    }
    assert(twice =~= once);
    lemma_results_counted_again(messages, keep_recent, older_count(messages, keep_recent));
}

proof fn lemma_results_counted_again(messages: Seq<MessageModel>, keep_recent: nat, n: int)
    requires
        0 <= n <= older_count(messages, keep_recent),
    ensures
        count_in(micro_compacted(messages, keep_recent).take(n), Counted::UserToolResults)
            == count_in(messages.take(n), Counted::UserToolResults),
    decreases n,
{
    if n > 0 {
        let cleared = micro_compacted(messages, keep_recent);
        lemma_results_counted_again(messages, keep_recent, n - 1);
        lemma_sum_step(messages, counted(Counted::UserToolResults), n - 1);
        lemma_sum_step(cleared, counted(Counted::UserToolResults), n - 1);
        lemma_same_results(messages[n - 1].blocks());
    }
}

proof fn lemma_same_results(blocks: Seq<BlockModel>)
    ensures
        tool_results(cleared_blocks(blocks)).len() == tool_results(blocks).len(),
    decreases blocks.len(),
{
    reveal_with_fuel(Seq::filter, 2);
    let cleared = cleared_blocks(blocks);
    if blocks.len() > 0 {
        lemma_same_results(blocks.drop_last());
        assert(cleared.drop_last() =~= cleared_blocks(blocks.drop_last()));
    }
}

/// Blocks without the thinking.
pub open spec fn without_thinking(blocks: Seq<BlockModel>) -> Seq<BlockModel> {
    blocks.filter(|b: BlockModel| !(b is Thinking))
}

/// A message without the thinking.
pub open spec fn thoughtless_message(m: MessageModel) -> MessageModel {
    match m.content {
        ContentModel::Blocks(blocks) => MessageModel {
            content: ContentModel::Blocks(without_thinking(blocks)),
            ..m
        },
        ContentModel::Text(_) => m,
    }
}

/// The conversation without the thinking.
pub open spec fn thoughtless(messages: Seq<MessageModel>) -> Seq<MessageModel> {
    messages.map_values(|m: MessageModel| thoughtless_message(m))
}

fn drop_thinking(blocks: &mut Vec<ContentBlock>)
    ensures
        blocks_view(final(blocks)@) == without_thinking(blocks_view(old(blocks)@)),
{
    let ghost before = blocks_view(blocks@);
    let ghost mut done: int = 0;
    let mut k: usize = 0;
    proof {
        reveal_with_fuel(Seq::filter, 1);
        assert(blocks_view(blocks@) =~= without_thinking(before.take(0)) + before.skip(0));
    }
    while k < blocks.len()
        invariant
            k <= blocks.len(),
            0 <= done <= before.len(),
            k == without_thinking(before.take(done)).len(),
            blocks_view(blocks@) == without_thinking(before.take(done)) + before.skip(done),
        decreases blocks.len() - k,
    {
        let ghost now = blocks_view(blocks@);
        let ghost kept = without_thinking(before.take(done));
        proof {
            reveal_with_fuel(Seq::filter, 2);
            assert(now.len() == blocks.len());
            assert(now[k as int] == before.skip(done)[0]);
            assert(now[k as int] == before[done]);
            assert(before.take(done + 1).drop_last() =~= before.take(done));
            assert(before.take(done + 1).last() == blocks@[k as int]@);
        }
        let is_thinking: bool = matches!(&blocks[k], ContentBlock::Thinking { .. });
        if is_thinking {
            blocks.remove(k);
            assert(blocks_view(blocks@) =~= now.remove(k as int));
            assert(blocks_view(blocks@) =~= kept + before.skip(done + 1));
        } else {
            assert(blocks_view(blocks@) =~= kept.push(before[done]) + before.skip(done + 1));
            k += 1;
        }
        proof {
            done = done + 1;
        }
    }
    proof {
        assert(before.skip(done).len() == 0);
        assert(before.take(done) =~= before);
        assert(blocks_view(blocks@) =~= without_thinking(before));
    }
}

fn drop_all_thinking(messages: &mut Vec<Message>)
    ensures
        messages_view(final(messages)@) == thoughtless(messages_view(old(messages)@)),
{
    let ghost before = messages_view(messages@);
    let mut i: usize = 0;
    while i < messages.len()
        invariant
            i <= messages.len(),
            messages.len() == before.len(),
            forall|k: int|
                0 <= k < i ==> (#[trigger] messages@[k])@ == thoughtless_message(before[k]),
            forall|k: int| i <= k < messages.len() ==> (#[trigger] messages@[k])@ == before[k],
        decreases messages.len() - i,
    {
        match &mut messages[i].content {
            MessageContent::Blocks(blocks) => drop_thinking(blocks),
            MessageContent::Text(_) => {},
        }
        i += 1;
    }
    proof {
        assert(messages_view(messages@) =~= thoughtless(before));
    }
}

/// How many recent messages a collapse keeps.
pub open spec fn collapse_keeps(aggressive: bool) -> nat {
    if aggressive {
        3
    } else {
        KEEP_RECENT_MESSAGES as nat
    }
}

/// The tokens from which on a conversation collapses: the configured share of
/// the context window, in whole tokens, as far as a `usize` goes.
pub open spec fn collapse_limit(share: Fraction) -> int {
    let limit = (DEFAULT_CONTEXT_WINDOW * share.num()) / share.den() as int;
    if limit > usize::MAX {
        usize::MAX as int
    } else {
        limit
    }
}

/// Whether a conversation collapses.
pub open spec fn collapses(messages: Seq<MessageModel>, config: ContextCollapseConfig) -> bool {
    padded_tokens(chars_in(messages)) >= collapse_limit(config.trigger_fraction)
}

/// A conversation after its older tool results are cleared for a collapse.
pub open spec fn cleared_for(messages: Seq<MessageModel>, config: ContextCollapseConfig) -> Seq<
    MessageModel,
> {
    micro_compacted(messages, collapse_keeps(config.aggressive))
}

/// A conversation after a collapse: in aggressive mode the thinking goes too,
/// where clearing the results was not enough.
pub open spec fn collapsed(messages: Seq<MessageModel>, config: ContextCollapseConfig) -> Seq<
    MessageModel,
> {
    let cleared = cleared_for(messages, config);
    if config.aggressive && collapses(cleared, config) {
        thoughtless(cleared)
    } else {
        cleared
    }
}

/// Whether the sizes and counts of a collapse are machine numbers.
pub open spec fn collapse_fits(
    messages: Seq<MessageModel>,
    config: ContextCollapseConfig,
) -> bool {
    &&& chars_in(messages) <= usize::MAX
    &&& collapses(messages, config) ==> {
        &&& micro_cleared(messages, collapse_keeps(config.aggressive)) <= usize::MAX
        &&& config.aggressive ==> chars_in(cleared_for(messages, config)) <= usize::MAX
    }
}

/// A collapse keeps every message in its place with its role and uuid. Unless
/// it is aggressive it only clears tool results, and thinking goes only where
/// the conversation is still over the limit once they are cleared.
pub proof fn lemma_collapse_keeps_messages(
    messages: Seq<MessageModel>,
    config: ContextCollapseConfig,
)
    ensures
        collapsed(messages, config).len() == messages.len(),
        forall|i: int|
            0 <= i < messages.len() ==> {
                let m = #[trigger] collapsed(messages, config)[i];
                &&& m.role == messages[i].role
                &&& m.uuid == messages[i].uuid
                &&& m.cost == messages[i].cost
            },
        !config.aggressive ==> collapsed(messages, config) == micro_compacted(
            messages,
            KEEP_RECENT_MESSAGES as nat,
        ),
        !collapses(cleared_for(messages, config), config) ==> collapsed(messages, config)
            == cleared_for(messages, config),
{
    lemma_micro_compact_stable(messages, collapse_keeps(config.aggressive));
}

fn calculate_collapse_limit(share: &Fraction) -> (r: usize)
    ensures
        r == collapse_limit(*share),
{
    let limit: u128 = widening_mul(DEFAULT_CONTEXT_WINDOW, share.numerator())
        / share.denominator() as u128;
    if limit > usize::MAX as u128 {
        usize::MAX
    } else {
        limit as usize
    }
}

fn is_over_limit(messages: &Vec<Message>, config: &ContextCollapseConfig) -> (r: bool)
    requires
        chars_in(messages_view(messages@)) <= usize::MAX,
    ensures
        r == collapses(messages_view(messages@), *config),
{
    let estimated: usize = estimate_tokens_for_messages(messages.as_slice());
    estimated >= calculate_collapse_limit(&config.trigger_fraction)
}

fn kept_on_collapse(config: &ContextCollapseConfig) -> (r: usize)
    ensures
        r == collapse_keeps(config.aggressive),
{
    if config.aggressive {
        3
    } else {
        KEEP_RECENT_MESSAGES
    }
}

/// How many tool results clearing all but the recent messages clears; `None`
/// where the number is no `usize`.
pub fn checked_cleared(messages: &[Message], keep_recent: usize) -> (r: Option<usize>)
    ensures
        match r {
            Some(n) => n == micro_cleared(messages_view(messages@), keep_recent as nat),
            None => micro_cleared(messages_view(messages@), keep_recent as nat) > usize::MAX,
        },
{
    let older: usize = messages.len().saturating_sub(keep_recent);
    let part = slice_subrange(messages, 0, older);
    proof {
        assert(messages_view(part@) =~= messages_view(messages@).take(older as int));
    }
    checked_count(part, Counted::UserToolResults)
}

/// Checks that the sizes and counts of a collapse are machine numbers.
pub fn can_collapse(messages: &[Message], config: &ContextCollapseConfig) -> (r: bool)
    ensures
        r == collapse_fits(messages_view(messages@), *config),
{
    if !chars_fit(messages) {
        return false;
    }
    let mut copy = clone_messages(messages);
    if !is_over_limit(&copy, config) {
        return true;
    }
    let keep_recent: usize = kept_on_collapse(config);
    if checked_cleared(messages, keep_recent).is_none() {
        return false;
    }
    micro_compact_messages(&mut copy, keep_recent);
    !config.aggressive || chars_fit(copy.as_slice())
}

/// Performs context collapse - extreme compaction for near-limit scenarios:
/// older tool results are cleared and, in aggressive mode, all thinking goes
/// where the conversation is still over the limit. A conversation below the
/// limit stays as it is.
pub fn context_collapse(messages: &mut Vec<Message>, config: &ContextCollapseConfig) -> (r: Result<
    usize,
    ClaudeError,
>)
    requires
        collapse_fits(messages_view(old(messages)@), *config),
    ensures
        collapses(messages_view(old(messages)@), *config) ==> {
            &&& messages_view(final(messages)@) == collapsed(
                messages_view(old(messages)@),
                *config,
            )
            &&& r matches Ok(n) && n == micro_cleared(
                messages_view(old(messages)@),
                collapse_keeps(config.aggressive),
            )
        },
        !collapses(messages_view(old(messages)@), *config) ==> {
            &&& messages_view(final(messages)@) == messages_view(old(messages)@)
            &&& r matches Ok(n) && n == 0
        },
{
    if !is_over_limit(messages, config) {
        return Ok(0);
    }
    let cleared: usize = micro_compact_messages(messages, kept_on_collapse(config));
    if config.aggressive && is_over_limit(messages, config) {
        drop_all_thinking(messages);
    }
    Ok(cleared)
}

/// Where the first message with a uuid stands.
pub open spec fn uuid_index(messages: Seq<MessageModel>, uuid: Seq<char>) -> Option<int>
    decreases messages.len(),
{
    if messages.len() == 0 {
        None
    } else {
        match uuid_index(messages.drop_last(), uuid) {
            Some(i) => Some(i),
            None => if messages.last().uuid == Some(uuid) {
                Some(messages.len() - 1)
            } else {
                None
            },
        }
    }
}

/// The conversation up to and with the first message of that uuid; all of it
/// where there is none.
pub open spec fn snipped(messages: Seq<MessageModel>, uuid: Seq<char>) -> Seq<MessageModel> {
    match uuid_index(messages, uuid) {
        Some(i) => messages.take(i + 1),
        None => messages,
    }
}

/// The first message with a uuid has it, and no earlier one does.
pub proof fn lemma_uuid_index(messages: Seq<MessageModel>, uuid: Seq<char>)
    ensures
        match uuid_index(messages, uuid) {
            Some(i) => {
                &&& 0 <= i < messages.len()
                &&& messages[i].uuid == Some(uuid)
                &&& forall|k: int| 0 <= k < i ==> (#[trigger] messages[k]).uuid != Some(uuid)
            },
            None => forall|k: int|
                0 <= k < messages.len() ==> (#[trigger] messages[k]).uuid != Some(uuid),
        },
    decreases messages.len(),
{
    if messages.len() > 0 {
        let init = messages.drop_last();
        lemma_uuid_index(init, uuid);
        assert(forall|k: int| 0 <= k < init.len() ==> #[trigger] init[k] == messages[k]);
        if uuid_index(init, uuid) is None {
            assert forall|k: int| 0 <= k < messages.len() - 1 implies (
            #[trigger] messages[k]).uuid != Some(uuid) by {
                assert(init[k].uuid != Some(uuid));
            }
        } else {
            assert forall|k: int| 0 <= k < uuid_index(init, uuid)->0 implies (
            #[trigger] messages[k]).uuid != Some(uuid) by {
                assert(init[k].uuid != Some(uuid));
            }
        }
    }
}

/// What is found among the first messages is found among all.
proof fn lemma_uuid_index_prefix(messages: Seq<MessageModel>, uuid: Seq<char>, n: int)
    requires
        0 <= n <= messages.len(),
        uuid_index(messages.take(n), uuid) is Some,
    ensures
        uuid_index(messages, uuid) == uuid_index(messages.take(n), uuid),
    decreases messages.len() - n,
{
    if n < messages.len() {
        assert(messages.take(n + 1).drop_last() =~= messages.take(n));
        lemma_uuid_index_prefix(messages, uuid, n + 1);
    } else {
        assert(messages.take(n) =~= messages);
    }
}

/// Snipping again at the same message removes nothing.
pub proof fn lemma_snip_again(messages: Seq<MessageModel>, uuid: Seq<char>)
    ensures
        snipped(snipped(messages, uuid), uuid) == snipped(messages, uuid),
{
    lemma_uuid_index(messages, uuid);
    if let Some(i) = uuid_index(messages, uuid) {
        let once = messages.take(i + 1);
        lemma_uuid_index(once, uuid);
        assert(once[i].uuid == Some(uuid));
        assert(uuid_index(once, uuid) is Some);
        lemma_uuid_index_prefix(messages, uuid, i + 1);
        assert(once.take(i + 1) =~= once);
    }
}

/// Snips messages from a specific point (for resume/rewind).
pub fn snip_compact(messages: &mut Vec<Message>, snip_after_uuid: &str) -> (r: usize)
    ensures
        messages_view(final(messages)@) == snipped(
            messages_view(old(messages)@),
            snip_after_uuid@,
        ),
        r == old(messages)@.len() - final(messages)@.len(),
{
    let ghost before = messages_view(messages@);
    let wanted = snip_after_uuid.to_owned();
    let mut i: usize = 0;
    while i < messages.len()
        invariant
            i <= messages.len(),
            *messages == *old(messages),
            before == messages_view(messages@),
            wanted@ == snip_after_uuid@,
            uuid_index(before.take(i as int), wanted@) is None,
        decreases messages.len() - i,
    {
        proof {
            assert(before.take(i + 1).drop_last() =~= before.take(i as int));
            assert(before.take(i + 1).last() == messages@[i as int]@);
        }
        let found: bool = match &messages[i].uuid {
            Some(uuid) => *uuid == wanted,
            None => false,
        };
        if found {
            proof {
                lemma_uuid_index_prefix(before, wanted@, i + 1);
            }
            let removed: usize = messages.len() - i - 1;
            messages.truncate(i + 1);
            proof {
                assert(messages_view(messages@) =~= before.take(i + 1));
            }
            return removed;
        }
        i += 1;
    }
    proof {
        assert(before.take(i as int) =~= before);
    }
    0
}

} // verus!
