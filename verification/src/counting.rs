//! Counting messages and tool uses.

use crate::seqs::{lemma_sum_prefix, lemma_sum_step, sum_of};
use crate::types::{messages_view, Message, MessageModel, Role};
use vstd::prelude::*;

verus! {

/// What is counted.
#[derive(Debug, Clone, Copy, PartialEq, Eq, Structural)]
pub enum Counted {
    /// Messages of a role.
    Messages(Role),
    /// Tool uses.
    ToolUses,
    /// Tool results that the user sent.
    UserToolResults,
}

/// What a message counts for.
pub open spec fn counted(what: Counted) -> spec_fn(MessageModel) -> nat {
    |m: MessageModel|
        match what {
            Counted::Messages(role) => if m.role == role {
                1
            } else {
                0
            },
            Counted::ToolUses => m.tool_uses().len(),
            Counted::UserToolResults => if m.role == Role::User {
                m.tool_results().len()
            } else {
                0
            },
        }
}

/// How many there are in the messages.
pub open spec fn count_in(messages: Seq<MessageModel>, what: Counted) -> nat {
    sum_of(messages, counted(what))
}

/// There are no more messages of a role than messages.
pub proof fn lemma_count_messages(messages: Seq<MessageModel>, role: Role)
    ensures
        count_in(messages, Counted::Messages(role)) <= messages.len(),
    decreases messages.len(),
{
    if messages.len() > 0 {
        lemma_count_messages(messages.drop_last(), role);
    }
}

/// Counting in two parts.
pub proof fn lemma_count_split(messages: Seq<MessageModel>, what: Counted, n: int)
    requires
        0 <= n <= messages.len(),
    ensures
        count_in(messages, what) == count_in(messages.take(n), what) + count_in(
            messages.skip(n),
            what,
        ),
    decreases messages.len(),
{
    if n == messages.len() {
        assert(messages.take(n) =~= messages);
        assert(messages.skip(n).len() == 0);
    } else {
        lemma_count_split(messages.drop_last(), what, n);
        assert(messages.drop_last().take(n) =~= messages.take(n));
        assert(messages.drop_last().skip(n) =~= messages.skip(n).drop_last());
        assert(messages.skip(n).last() == messages.last());
    }
}

fn count_one(message: &Message, what: Counted) -> (r: usize)
    ensures
        r == counted(what)(message@),
{
    match what {
        Counted::Messages(role) => if message.role == role {
            1
        } else {
            0
        },
        Counted::ToolUses => message.get_tool_use_blocks().len(),
        Counted::UserToolResults => if message.role == Role::User {
            message.get_tool_result_blocks().len()
        } else {
            0
        },
    }
}

/// Counts; `None` where the number is no `usize`.
pub fn checked_count(messages: &[Message], what: Counted) -> (r: Option<usize>)
    ensures
        match r {
            Some(n) => n == count_in(messages_view(messages@), what),
            None => count_in(messages_view(messages@), what) > usize::MAX,
        },
{
    let ghost model = messages_view(messages@);
    let mut sum: usize = 0;
    let mut i: usize = 0;
    while i < messages.len()
        invariant
            i <= messages@.len(),
            model == messages_view(messages@),
            sum == count_in(model.take(i as int), what),
        decreases messages@.len() - i,
    {
        proof {
            lemma_sum_step(model, counted(what), i as int);
            lemma_sum_prefix(model, counted(what), i + 1, model.len() as int);
            assert(model.take(model.len() as int) =~= model);
        }
        match sum.checked_add(count_one(&messages[i], what)) {
            Some(s) => {
                sum = s;
            },
            None => {
                return None;
            },
        }
        i += 1;
    }
    proof {
        assert(model.take(i as int) =~= model);
    }
    Some(sum)
}

/// Counts messages or tool uses.
pub fn count(messages: &[Message], what: Counted) -> (r: usize)
    requires
        count_in(messages_view(messages@), what) <= usize::MAX,
    ensures
        r == count_in(messages_view(messages@), what),
{
    checked_count(messages, what).unwrap()
}

} // verus!
