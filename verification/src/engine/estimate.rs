//! Token estimates of the engine.

use crate::estimate::{
    block_chars, checked_block_chars, checked_message_chars, message_chars, padded_tokens,
};
use crate::seqs::{lemma_sum_prefix, lemma_sum_step, sum_of};
use crate::types::{messages_view, BlockModel, ContentBlock, Message, MessageModel};
use vstd::prelude::*;

verus! {

/// The size that a block without text counts with.
pub const BLOCK_CHARS: usize = 200;

/// The size of a block in characters.
pub open spec fn chars_in_block(b: BlockModel) -> nat {
    block_chars(b, BLOCK_CHARS as nat, BLOCK_CHARS as nat)
}

/// The size of a message in characters.
pub open spec fn chars_in_message(m: MessageModel) -> nat {
    message_chars(m, BLOCK_CHARS as nat, BLOCK_CHARS as nat)
}

/// The token estimate of a message.
pub open spec fn message_tokens() -> spec_fn(MessageModel) -> nat {
    |m: MessageModel| padded_tokens(chars_in_message(m))
}

/// The token estimate of a conversation: the estimates of its messages
/// together.
pub open spec fn conversation_tokens(messages: Seq<MessageModel>) -> nat {
    sum_of(messages, message_tokens())
}

/// Whether the sizes and estimates are machine numbers.
pub open spec fn estimable(messages: Seq<MessageModel>) -> bool {
    &&& forall|i: int|
        0 <= i < messages.len() ==> chars_in_message(#[trigger] messages[i]) <= usize::MAX
    &&& conversation_tokens(messages) <= u64::MAX
}

/// Roughly estimates the characters of a block.
pub fn estimate_block_chars(block: &ContentBlock) -> (r: usize)
    requires
        chars_in_block(block@) <= usize::MAX,
    ensures
        r == chars_in_block(block@),
{
    checked_block_chars(block, BLOCK_CHARS, BLOCK_CHARS).unwrap()
}

/// Roughly estimates the token count of a message: four characters a token,
/// with a padding of one third.
pub fn estimate_message_tokens(message: &Message) -> (r: u64)
    requires
        chars_in_message(message@) <= usize::MAX,
    ensures
        r == message_tokens()(message@),
{
    let chars: usize = checked_message_chars(message, BLOCK_CHARS, BLOCK_CHARS).unwrap();
    ((chars / 4) * 4 / 3) as u64
}

/// The token estimate of a conversation; `None` where the sizes and estimates
/// are no machine numbers.
pub fn checked_tokens(messages: &[Message]) -> (r: Option<u64>)
    ensures
        r is Some <==> estimable(messages_view(messages@)),
        r matches Some(n) ==> n == conversation_tokens(messages_view(messages@)),
{
    let ghost model = messages_view(messages@);
    let mut sum: u64 = 0;
    let mut i: usize = 0;
    while i < messages.len()
        invariant
            i <= messages@.len(),
            model == messages_view(messages@),
            sum == conversation_tokens(model.take(i as int)),
            forall|k: int| 0 <= k < i ==> chars_in_message(#[trigger] model[k]) <= usize::MAX,
        decreases messages@.len() - i,
    {
        proof {
            lemma_sum_step(model, message_tokens(), i as int);
            lemma_sum_prefix(model, message_tokens(), i + 1, model.len() as int);
            assert(model.take(model.len() as int) =~= model);
            assert(model[i as int] == messages@[i as int]@);
        }
        if checked_message_chars(&messages[i], BLOCK_CHARS, BLOCK_CHARS).is_none() {
            return None;
        }
        match sum.checked_add(estimate_message_tokens(&messages[i])) {
            Some(s) => {
                sum = s;
            },
            None => {
                return None;
            },
        }
        i += 1;
    }
    proof {
        assert(model.take(i as int) =~= model);
    }
    Some(sum)
}

} // verus!
