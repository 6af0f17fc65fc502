//! What holds of messages, their sizes and their counts.

use crate::clock::Timestamp;
use crate::counting::{count_in, lemma_count_split, Counted};
use crate::estimate::{
    block_chars, blocks_chars, lemma_total_chars_split, message_chars, padded_tokens, total_chars,
};
use crate::fraction::{share_exceeded, share_reached};
use crate::seqs::sum_of;
use crate::text::{opt_text, utf8_len};
use crate::text_laws::lemma_first_some;
use crate::types::{
    block_refs_view, block_text, blocks_view, first_text, messages_view, text_message,
    tool_results, tool_uses, BlockModel, ContentBlock, ContentModel, Message, MessageModel,
    ResultModel, Role,
};
use vstd::prelude::*;

verus! {

/// A text message has its role and its text, and no uuid or cost.
pub proof fn lemma_text_message(role: Role, text: Seq<char>)
    ensures
        text_message(role, text).role == role,
        text_message(role, text).text() == Some(text),
        text_message(role, text).blocks().len() == 0,
        text_message(role, text).uuid is None,
        text_message(role, text).cost is None,
{
}

/// The text of a message made of blocks is that of its first text block.
pub proof fn lemma_first_text_block(m: MessageModel)
    requires
        m.content is Blocks,
    ensures
        match m.text() {
            Some(text) => exists|i: int|
                0 <= i < m.blocks().len() && #[trigger] m.blocks()[i] == (BlockModel::Text {
                    text,
                }) && forall|k: int| 0 <= k < i ==> !(#[trigger] m.blocks()[k] is Text),
            None => forall|k: int| 0 <= k < m.blocks().len() ==> !(#[trigger] m.blocks()[k] is Text),
        },
{
    let blocks = m.blocks();
    lemma_first_some(blocks, block_text());
    match first_text(blocks) {
        Some(text) => {
            let i = choose|i: int|
                0 <= i < blocks.len() && block_text()(#[trigger] blocks[i]) == Some(text)
                    && forall|k: int| 0 <= k < i ==> block_text()(#[trigger] blocks[k]) is None;
            assert(blocks[i] == (BlockModel::Text { text }));
            assert forall|k: int| 0 <= k < i implies !(#[trigger] blocks[k] is Text) by {
                assert(block_text()(blocks[k]) is None);
            }
        },
        None => {
            assert forall|k: int| 0 <= k < blocks.len() implies !(#[trigger] blocks[k] is Text) by {
                assert(block_text()(blocks[k]) is None);
            }
        },
    }
}

/// A block more is a tool use more, or a tool result more, exactly where it is
/// one; without blocks there are none.
pub proof fn lemma_tool_blocks(blocks: Seq<BlockModel>, b: BlockModel)
    ensures
        tool_uses(Seq::empty()).len() == 0,
        tool_results(Seq::empty()).len() == 0,
        tool_uses(blocks.push(b)) == (if b is ToolUse {
            tool_uses(blocks).push(b)
        } else {
            tool_uses(blocks)
        }),
        tool_results(blocks.push(b)) == (if b is ToolResult {
            tool_results(blocks).push(b)
        } else {
            tool_results(blocks)
        }),
{
    reveal_with_fuel(Seq::filter, 2);
    assert(blocks.push(b).drop_last() =~= blocks);
}

/// What a block counts with: its text, a tool's name and input, the content of
/// a result, or the size that its kind stands for.
pub proof fn lemma_block_size(b: BlockModel, media: nat, other: nat)
    ensures
        match b {
            BlockModel::Text { text } => block_chars(b, media, other) == utf8_len(text),
            BlockModel::ToolUse { id, name, input } => block_chars(b, media, other) == utf8_len(
                name,
            ) + utf8_len(input),
            BlockModel::ToolResult { tool_use_id, content, is_error } => match content {
                ResultModel::Text(text) => block_chars(b, media, other) == utf8_len(text),
                ResultModel::Blocks(inner) => block_chars(b, media, other) == sum_of(
                    inner,
                    |x: BlockModel| block_chars(x, media, other),
                ),
            },
            BlockModel::Thinking { thinking, signature } => block_chars(b, media, other)
                == utf8_len(thinking),
            BlockModel::RedactedThinking { data } => block_chars(b, media, other) == utf8_len(
                data,
            ),
            BlockModel::Image { source } => block_chars(b, media, other) == media,
            BlockModel::Document { source } => block_chars(b, media, other) == media,
            BlockModel::Other { block_type, payload } => block_chars(b, media, other) == other,
        },
{
    if let BlockModel::ToolResult { tool_use_id, content, is_error } = b {
        if let ResultModel::Blocks(inner) = content {
            lemma_blocks_sum(inner, media, other);
        }
    }
}

proof fn lemma_blocks_sum(blocks: Seq<BlockModel>, media: nat, other: nat)
    ensures
        blocks_chars(blocks, media, other) == sum_of(
            blocks,
            |x: BlockModel| block_chars(x, media, other),
        ),
    decreases blocks.len(),
{
    if blocks.len() > 0 {
        lemma_blocks_sum(blocks.drop_last(), media, other);
    }
}

/// A message is as large as its text, or as its blocks together.
pub proof fn lemma_message_size(m: MessageModel, media: nat, other: nat)
    ensures
        match m.content {
            ContentModel::Text(text) => message_chars(m, media, other) == utf8_len(text),
            ContentModel::Blocks(blocks) => message_chars(m, media, other) == sum_of(
                blocks,
                |x: BlockModel| block_chars(x, media, other),
            ),
        },
{
    lemma_blocks_sum(m.blocks(), media, other);
}

/// Two conversations together are as large as both, and one message is as
/// large as itself.
pub proof fn lemma_sizes_add(
    a: Seq<MessageModel>,
    b: Seq<MessageModel>,
    m: MessageModel,
    media: nat,
    other: nat,
)
    ensures
        total_chars(a + b, media, other) == total_chars(a, media, other) + total_chars(
            b,
            media,
            other,
        ),
        total_chars(seq![m], media, other) == message_chars(m, media, other),
{
    lemma_total_chars_split(a + b, a.len() as int, media, other);
    assert((a + b).take(a.len() as int) =~= a);
    assert((a + b).skip(a.len() as int) =~= b);
    reveal_with_fuel(total_chars, 2);
    assert(seq![m].drop_last() =~= Seq::<MessageModel>::empty());
}

/// The estimate is the largest number of which three times fits in the
/// characters of whole groups of four.
pub proof fn lemma_padded_tokens(chars: nat)
    ensures
        3 * padded_tokens(chars) <= chars - chars % 4,
        chars - chars % 4 < 3 * (padded_tokens(chars) + 1),
{
}

/// Counting in two conversations, and in one message: a message counts once
/// for its own role, a tool use once, and a tool result once where the user
/// sent it.
pub proof fn lemma_counts_add(
    a: Seq<MessageModel>,
    b: Seq<MessageModel>,
    m: MessageModel,
    what: Counted,
)
    ensures
        count_in(a + b, what) == count_in(a, what) + count_in(b, what),
        count_in(seq![m], Counted::Messages(m.role)) == 1,
        forall|role: Role|
            role != m.role ==> #[trigger] count_in(seq![m], Counted::Messages(role)) == 0,
        count_in(seq![m], Counted::ToolUses) == m.tool_uses().len(),
        count_in(seq![m], Counted::UserToolResults) == (if m.role == Role::User {
            m.tool_results().len()
        } else {
            0
        }),
{
    lemma_count_split(a + b, what, a.len() as int);
    assert((a + b).take(a.len() as int) =~= a);
    assert((a + b).skip(a.len() as int) =~= b);
    reveal_with_fuel(sum_of, 2);
    assert(seq![m].drop_last() =~= Seq::<MessageModel>::empty());
}

/// A share is reached by exactly that part and by more, and exceeded only by
/// more.
pub proof fn lemma_share_boundary(part: nat, num: nat, den: nat, k: nat)
    requires
        den > 0,
    ensures
        share_reached(part, den * k, num, den) <==> part >= num * k,
        share_exceeded(part, den * k, num, den) <==> part > num * k,
{
    assert(num * (den * k) == (num * k) * den) by (nonlinear_arith);
    assert(part >= num * k <==> part * den >= (num * k) * den) by (nonlinear_arith)
        requires
            den > 0,
    ;
    assert(part > num * k <==> part * den > (num * k) * den) by (nonlinear_arith)
        requires
            den > 0,
    ;
}

/// Messages and blocks are seen one by one, in order, and a text as itself.
pub proof fn lemma_views(
    messages: Seq<Message>,
    blocks: Seq<ContentBlock>,
    refs: Seq<&ContentBlock>,
    text: String,
)
    ensures
        messages_view(messages).len() == messages.len(),
        forall|i: int|
            0 <= i < messages.len() ==> #[trigger] messages_view(messages)[i] == messages[i]@,
        blocks_view(blocks).len() == blocks.len(),
        forall|i: int|
            0 <= i < blocks.len() ==> #[trigger] blocks_view(blocks)[i] == blocks[i].view(),
        block_refs_view(refs).len() == refs.len(),
        forall|i: int| 0 <= i < refs.len() ==> #[trigger] block_refs_view(refs)[i] == refs[i].view(),
        opt_text(Some(text)) == Some(text@),
        opt_text(None::<String>) is None,
{
}

/// A second is a thousand milliseconds and a thousand million nanoseconds, and
/// the milliseconds are the whole ones among the nanoseconds.
pub proof fn lemma_time_units(t: Timestamp)
    ensures
        t.millis() * 1_000_000 <= t.unix_nanos() < (t.millis() + 1) * 1_000_000,
        t.unix_nanos() - t.nanos == t.seconds * 1_000_000_000,
{
}

} // verus!
