//! The size of messages in characters, as token estimates count it.
//!
//! Texts count with their length in bytes. Blocks that hold no text count with
//! a fixed size: `media` for images and documents, `other` for the rest.

use crate::text::{byte_len, utf8_len};
use crate::types::{
    blocks_view, messages_view, BlockModel, ContentBlock, ContentModel, Message, MessageContent,
    MessageModel, ResultModel, ToolResultContent,
};
use vstd::prelude::*;

verus! {

/// The size of a block.
pub open spec fn block_chars(b: BlockModel, media: nat, other: nat) -> nat
    decreases b,
{
    match b {
        BlockModel::Text { text } => utf8_len(text),
        BlockModel::ToolUse { id, name, input } => utf8_len(name) + utf8_len(input),
        BlockModel::ToolResult { tool_use_id, content, is_error } => match content {
            ResultModel::Text(text) => utf8_len(text),
            ResultModel::Blocks(blocks) => blocks_chars(blocks, media, other),
        },
        BlockModel::Thinking { thinking, signature } => utf8_len(thinking),
        BlockModel::RedactedThinking { data } => utf8_len(data),
        BlockModel::Image { source } => media,
        BlockModel::Document { source } => media,
        BlockModel::Other { block_type, payload } => other,
    }
}

/// The size of blocks together.
pub open spec fn blocks_chars(blocks: Seq<BlockModel>, media: nat, other: nat) -> nat
    decreases blocks,
{
    if blocks.len() == 0 {
        0
    } else {
        blocks_chars(blocks.drop_last(), media, other) + block_chars(blocks.last(), media, other)
    }
}

/// The size of a message.
pub open spec fn message_chars(m: MessageModel, media: nat, other: nat) -> nat {
    match m.content {
        ContentModel::Text(text) => utf8_len(text),
        ContentModel::Blocks(blocks) => blocks_chars(blocks, media, other),
    }
}

/// The size of messages together.
pub open spec fn total_chars(messages: Seq<MessageModel>, media: nat, other: nat) -> nat
    decreases messages.len(),
{
    if messages.len() == 0 {
        0
    } else {
        total_chars(messages.drop_last(), media, other) + message_chars(
            messages.last(),
            media,
            other,
        )
    }
}

/// The token estimate for a number of characters: four characters a token,
/// with a padding of one third, both in whole numbers.
pub open spec fn padded_tokens(chars: nat) -> nat {
    chars / 4 * 4 / 3
}

/// The first blocks are no larger than all of them.
pub proof fn lemma_blocks_chars_prefix(blocks: Seq<BlockModel>, n: int, media: nat, other: nat)
    requires
        0 <= n <= blocks.len(),
    ensures
        blocks_chars(blocks.take(n), media, other) <= blocks_chars(blocks, media, other),
    decreases blocks.len() - n,
{
    if n < blocks.len() {
        assert(blocks.take(n + 1).drop_last() =~= blocks.take(n));
        lemma_blocks_chars_prefix(blocks, n + 1, media, other);
    } else {
        assert(blocks.take(n) =~= blocks);
    }
}

/// The size of messages is the size of the first plus the size of the others.
pub proof fn lemma_total_chars_split(messages: Seq<MessageModel>, n: int, media: nat, other: nat)
    requires
        0 <= n <= messages.len(),
    ensures
        total_chars(messages, media, other) == total_chars(messages.take(n), media, other)
            + total_chars(messages.skip(n), media, other),
    decreases messages.len(),
{
    if n == messages.len() {
        assert(messages.take(n) =~= messages);
        assert(messages.skip(n).len() == 0);
    } else {
        lemma_total_chars_split(messages.drop_last(), n, media, other);
        assert(messages.drop_last().take(n) =~= messages.take(n));
        assert(messages.drop_last().skip(n) =~= messages.skip(n).drop_last());
        assert(messages.skip(n).last() == messages.last());
    }
}

/// The size of a block; `None` where it is no `usize`.
pub fn checked_block_chars(block: &ContentBlock, media: usize, other: usize) -> (r: Option<usize>)
    ensures
        match r {
            Some(n) => n == block_chars(block@, media as nat, other as nat),
            None => block_chars(block@, media as nat, other as nat) > usize::MAX,
        },
    decreases block,
{
    match block {
        ContentBlock::Text { text } => Some(byte_len(text.as_str())),
        ContentBlock::ToolUse { id, name, input } => {
            byte_len(name.as_str()).checked_add(byte_len(input.as_text()))
        },
        ContentBlock::ToolResult { tool_use_id, content, is_error } => match content {
            ToolResultContent::Text(text) => Some(byte_len(text.as_str())),
            ToolResultContent::Blocks(blocks) => checked_blocks_chars(blocks, media, other),
        },
        ContentBlock::Thinking { thinking, signature } => Some(byte_len(thinking.as_str())),
        ContentBlock::RedactedThinking { data } => Some(byte_len(data.as_str())),
        ContentBlock::Image { source } => Some(media),
        ContentBlock::Document { source } => Some(media),
        ContentBlock::Other { block_type, payload } => Some(other),
    }
}

/// The size of blocks together; `None` where it is no `usize`.
pub fn checked_blocks_chars(blocks: &Vec<ContentBlock>, media: usize, other: usize) -> (r: Option<
    usize,
>)
    ensures
        match r {
            Some(n) => n == blocks_chars(blocks_view(blocks@), media as nat, other as nat),
            None => blocks_chars(blocks_view(blocks@), media as nat, other as nat) > usize::MAX,
        },
    decreases blocks,
{
    let ghost model = blocks_view(blocks@);
    let mut sum: usize = 0;
    let mut i: usize = 0;
    while i < blocks.len()
        invariant
            i <= blocks.len(),
            model == blocks_view(blocks@),
            sum == blocks_chars(model.take(i as int), media as nat, other as nat),
        decreases blocks.len() - i,
    {
        proof {
            assert(model.take(i + 1).drop_last() =~= model.take(i as int));
            assert(model.take(i + 1).last() == blocks@[i as int]@);
            lemma_blocks_chars_prefix(model, i + 1, media as nat, other as nat);
        }
        match checked_block_chars(&blocks[i], media, other) {
            Some(n) => match sum.checked_add(n) {
                Some(s) => {
                    sum = s;
                },
                None => {
                    return None;
                },
            },
            None => {
                return None;
            },
        }
        i += 1;
    }
    proof {
        assert(model.take(i as int) =~= model);
    }
    Some(sum)
}

/// The size of a message; `None` where it is no `usize`.
pub fn checked_message_chars(message: &Message, media: usize, other: usize) -> (r: Option<usize>)
    ensures
        match r {
            Some(n) => n == message_chars(message@, media as nat, other as nat),
            None => message_chars(message@, media as nat, other as nat) > usize::MAX,
        },
{
    match &message.content {
        MessageContent::Text(text) => Some(byte_len(text.as_str())),
        MessageContent::Blocks(blocks) => checked_blocks_chars(blocks, media, other),
    }
}

/// The size of messages together; `None` where it is no `usize`.
pub fn checked_total_chars(messages: &[Message], media: usize, other: usize) -> (r: Option<usize>)
    ensures
        match r {
            Some(n) => n == total_chars(messages_view(messages@), media as nat, other as nat),
            None => total_chars(messages_view(messages@), media as nat, other as nat) > usize::MAX,
        },
{
    let ghost model = messages_view(messages@);
    let mut sum: usize = 0;
    let mut i: usize = 0;
    while i < messages.len()
        invariant
            i <= messages@.len(),
            model == messages_view(messages@),
            sum == total_chars(model.take(i as int), media as nat, other as nat),
        decreases messages@.len() - i,
    {
        proof {
            assert(model.take(i + 1).drop_last() =~= model.take(i as int));
            assert(model.take(i + 1).last() == messages@[i as int]@);
            lemma_total_chars_split(model, i + 1, media as nat, other as nat);
        }
        match checked_message_chars(&messages[i], media, other) {
            Some(n) => match sum.checked_add(n) {
                Some(s) => {
                    sum = s;
                },
                None => {
                    return None;
                },
            },
            None => {
                return None;
            },
        }
        i += 1;
    }
    proof {
        assert(model.take(i as int) =~= model);
    }
    Some(sum)
}

} // verus!
