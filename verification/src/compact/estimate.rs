//! Token estimates.

use crate::estimate::{
    block_chars, checked_block_chars, checked_message_chars, checked_total_chars, message_chars,
    padded_tokens, total_chars,
};
use crate::types::{messages_view, BlockModel, ContentBlock, Message, MessageModel};
use vstd::prelude::*;

verus! {

/// Default context window size in tokens.
pub const DEFAULT_CONTEXT_WINDOW: u64 = 200_000;

/// The size that an image or a document counts with.
pub const MEDIA_CHARS: usize = 2000;

/// The size that a block of another kind counts with.
pub const OTHER_CHARS: usize = 100;

/// The size of a block in characters.
pub open spec fn chars_in_block(b: BlockModel) -> nat {
    block_chars(b, MEDIA_CHARS as nat, OTHER_CHARS as nat)
}

/// The size of a message in characters.
pub open spec fn chars_in_message(m: MessageModel) -> nat {
    message_chars(m, MEDIA_CHARS as nat, OTHER_CHARS as nat)
}

/// The size of messages in characters.
pub open spec fn chars_in(messages: Seq<MessageModel>) -> nat {
    total_chars(messages, MEDIA_CHARS as nat, OTHER_CHARS as nat)
}

/// Whether the size of the messages is a `usize`.
pub fn chars_fit(messages: &[Message]) -> (r: bool)
    ensures
        r == (chars_in(messages_view(messages@)) <= usize::MAX),
{
    checked_total_chars(messages, MEDIA_CHARS, OTHER_CHARS).is_some()
}

/// Rough token estimation: a quarter of the characters, padded by a third.
pub fn estimate_tokens_for_messages(messages: &[Message]) -> (r: usize)
    requires
        chars_in(messages_view(messages@)) <= usize::MAX,
    ensures
        r == padded_tokens(chars_in(messages_view(messages@))),
{
    let chars: usize = checked_total_chars(messages, MEDIA_CHARS, OTHER_CHARS).unwrap();
    (chars / 4) * 4 / 3
}

/// Estimates the characters in a message.
pub fn estimate_message_chars(message: &Message) -> (r: usize)
    requires
        chars_in_message(message@) <= usize::MAX,
    ensures
        r == chars_in_message(message@),
{
    checked_message_chars(message, MEDIA_CHARS, OTHER_CHARS).unwrap()
}

/// Estimates the characters in a block.
pub fn estimate_block_chars(block: &ContentBlock) -> (r: usize)
    requires
        chars_in_block(block@) <= usize::MAX,
    ensures
        r == chars_in_block(block@),
{
    checked_block_chars(block, MEDIA_CHARS, OTHER_CHARS).unwrap()
}

/// The context window of a model. Every model has the same one.
pub fn context_window_for_model(model: &str) -> (r: u64)
    ensures
        r == DEFAULT_CONTEXT_WINDOW,
{
    DEFAULT_CONTEXT_WINDOW
}

} // verus!
