//! The engine's summary of messages.

use crate::compact::prompt::{count_line, push_count_line};
use crate::counting::{count, count_in, lemma_count_messages, Counted};
use crate::seqs::{joined, lemma_joined_push};
use crate::text::{clip, clipped, decimal, push_decimal};
use crate::types::{messages_view, Message, MessageModel, Role};
use vstd::prelude::*;
use vstd::string::StringExecFns;

verus! {

/// How many user messages a summary quotes.
pub const QUOTED_MESSAGES: usize = 5;

/// How many characters of a message a summary quotes.
pub const QUOTED_CHARS: usize = 100;

/// The messages that the user sent, in order.
pub open spec fn user_messages(messages: Seq<MessageModel>) -> Seq<MessageModel> {
    messages.filter(|m: MessageModel| m.role == Role::User)
}

/// What a summary quotes of user message `i`, counted from zero: the start of
/// its text, where it has one.
pub open spec fn quote_line(i: int, m: MessageModel) -> Seq<char> {
    match m.text() {
        Some(text) => decimal((i + 1) as nat) + ". "@ + clipped(text, QUOTED_CHARS as nat)
            + "...\n"@,
        None => Seq::empty(),
    }
}

/// What a summary quotes of user messages.
pub open spec fn quote_lines(users: Seq<MessageModel>) -> Seq<Seq<char>> {
    Seq::new(users.len(), |i: int| quote_line(i, users[i]))
}

/// The user messages that a summary quotes: the first ones.
pub open spec fn quoted(messages: Seq<MessageModel>) -> Seq<MessageModel> {
    let users = user_messages(messages);
    if users.len() <= QUOTED_MESSAGES {
        users
    } else {
        users.take(QUOTED_MESSAGES as int)
    }
}

/// The summary of messages: how many there are, how many tools were used, and
/// how the first user messages begin.
pub open spec fn messages_summary(messages: Seq<MessageModel>) -> Seq<char> {
    let tool_uses = count_in(messages, Counted::ToolUses);
    "Previous conversation summary:\n\n"@ + count_line(
        count_in(messages, Counted::Messages(Role::User)),
        " user messages\n"@,
    ) + count_line(
        count_in(messages, Counted::Messages(Role::Assistant)),
        " assistant responses\n"@,
    ) + (if tool_uses > 0 {
        count_line(tool_uses, " tool uses\n"@)
    } else {
        Seq::empty()
    }) + "\nKey topics discussed:\n"@ + joined(quote_lines(quoted(messages)))
}

/// The user messages among the first messages come first among all of them.
proof fn lemma_user_messages_prefix(messages: Seq<MessageModel>, n: int)
    requires
        0 <= n <= messages.len(),
    ensures
        user_messages(messages.take(n)).len() <= user_messages(messages).len(),
        user_messages(messages.take(n)) == user_messages(messages).take(
            user_messages(messages.take(n)).len() as int,
        ),
    decreases messages.len() - n,
{
    let part = user_messages(messages.take(n));
    if n < messages.len() {
        lemma_user_messages_prefix(messages, n + 1);
        lemma_user_messages_step(messages, n);
        assert(part =~= user_messages(messages).take(part.len() as int));
    } else {
        assert(messages.take(n) =~= messages);
        assert(part =~= user_messages(messages).take(part.len() as int));
    }
}

/// One message more.
proof fn lemma_user_messages_step(messages: Seq<MessageModel>, n: int)
    requires
        0 <= n < messages.len(),
    ensures
        user_messages(messages.take(n + 1)) == (if messages[n].role == Role::User {
            user_messages(messages.take(n)).push(messages[n])
        } else {
            user_messages(messages.take(n))
        }),
{
    reveal_with_fuel(Seq::filter, 2);
    assert(messages.take(n + 1).drop_last() =~= messages.take(n));
}

/// Formats a compact summary of messages.
pub fn format_compact_summary(messages: &[Message]) -> (r: String)
    requires
        count_in(messages_view(messages@), Counted::ToolUses) <= usize::MAX,
    ensures
        r@ == messages_summary(messages_view(messages@)),
{
    let ghost model = messages_view(messages@);
    let total: usize = messages.len();
    proof {
        lemma_count_messages(model, Role::User);
        lemma_count_messages(model, Role::Assistant);
    }
    let mut summary = "Previous conversation summary:\n\n".to_owned();
    push_count_line(
        &mut summary,
        count(messages, Counted::Messages(Role::User)),
        " user messages\n",
    );
    push_count_line(
        &mut summary,
        count(messages, Counted::Messages(Role::Assistant)),
        " assistant responses\n",
    );
    let tool_uses: usize = count(messages, Counted::ToolUses);
    if tool_uses > 0 {
        push_count_line(&mut summary, tool_uses, " tool uses\n");
    }
    summary.append("\nKey topics discussed:\n");
    let ghost head = summary@;
    let mut shown: usize = 0;
    let mut k: usize = 0;
    proof {
        reveal_with_fuel(Seq::filter, 1);
        assert(user_messages(model.take(0)) =~= Seq::empty());
        assert(quote_lines(user_messages(model.take(0))) =~= Seq::empty());
        assert(summary@ =~= head + joined(quote_lines(user_messages(model.take(0)))));
    }
    while k < total && shown < QUOTED_MESSAGES
        invariant
            k <= total == messages@.len(),
            model == messages_view(messages@),
            shown <= QUOTED_MESSAGES,
            shown == user_messages(model.take(k as int)).len(),
            summary@ == head + joined(quote_lines(user_messages(model.take(k as int)))),
        decreases total - k,
    {
        let ghost before = summary@;
        let ghost seen = user_messages(model.take(k as int));
        let message = &messages[k];
        proof {
            lemma_user_messages_step(model, k as int);
            assert(model[k as int] == message@);
        }
        if message.role == Role::User {
            if let Some(text) = message.get_text() {
                push_decimal(&mut summary, (shown + 1) as u64);
                summary.append(". ");
                summary.append(clip(text, QUOTED_CHARS).as_str());
                summary.append("...\n");
            }
            proof {
                let line = quote_line(shown as int, message@);
                assert(summary@ =~= before + line);
                assert(quote_lines(seen.push(message@)) =~= quote_lines(seen).push(line));
                lemma_joined_push(quote_lines(seen), line);
                assert(summary@ =~= head + joined(quote_lines(seen.push(message@))));
            }
            shown += 1;
        }
        k += 1;
    }
    proof {
        lemma_user_messages_prefix(model, k as int);
        if k == total {
            assert(model.take(k as int) =~= model);
        }
        let users = user_messages(model);
        assert(quoted(model) =~= user_messages(model.take(k as int)));
        assert(summary@ =~= messages_summary(model));
    }
    summary
}

} // verus!
