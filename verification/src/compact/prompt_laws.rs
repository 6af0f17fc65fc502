//! What holds of prompts, summaries and the analysis of a conversation.

use crate::compact::analysis::{
    add_blocks, content_type, tokens_by_role, tokens_by_type, total_quarter_tokens, ContentType,
};
use crate::compact::conversation::lemma_count_rounds;
use crate::compact::estimate::{chars_in_block, chars_in_message};
use crate::compact::grouping::GroupModel;
use crate::compact::micro::micro_cleared;
use crate::compact::prompt::{
    compact_prompt, groups_summary, marked_summary, message_line, message_lines, round_text,
    round_texts, summary_message, summary_topic_line, summary_topic_lines, topic_seen,
    NO_TOOLS_PREAMBLE,
};
use crate::counting::{count_in, Counted};
use crate::seqs::{joined, lemma_joined_push, sum_of};
use crate::tally::{lemma_added, sum_at};
use crate::text::{clipped, decimal};
use crate::types::{BlockModel, MessageModel, Role};
use vstd::prelude::*;

verus! {

/// The first words of every prompt.
pub proof fn lemma_preamble()
    ensures
        NO_TOOLS_PREAMBLE@ == "You are being asked to summarize a conversation history.\n"@
            + "DO NOT invoke any tools. Only produce a text summary.\n"@,
{
    reveal_strlit(
        "You are being asked to summarize a conversation history.\nDO NOT invoke any tools. Only produce a text summary.\n",
    );
    reveal_strlit("You are being asked to summarize a conversation history.\n");
    reveal_strlit("DO NOT invoke any tools. Only produce a text summary.\n");
    assert(NO_TOOLS_PREAMBLE@ =~= "You are being asked to summarize a conversation history.\n"@
        + "DO NOT invoke any tools. Only produce a text summary.\n"@);
}

/// The full and the partial prompt of the same groups differ only in their
/// opening line.
pub proof fn lemma_prompts_differ_in_opening(groups: Seq<GroupModel>)
    ensures
        exists|tail: Seq<char>|
            {
                &&& compact_prompt(groups, false) == NO_TOOLS_PREAMBLE@
                    + "Summarize the following conversation history:\n\n"@ + tail
                &&& compact_prompt(groups, true) == #[trigger] (NO_TOOLS_PREAMBLE@
                    + "Summarize the following conversation history (partial):\n\n"@ + tail)
            },
{
    let closing = "\nProvide a concise summary of the key points, decisions, and current state."@;
    let tail = joined(round_texts(groups)) + closing;
    assert(compact_prompt(groups, false) =~= NO_TOOLS_PREAMBLE@
        + "Summarize the following conversation history:\n\n"@ + tail);
    assert(compact_prompt(groups, true) =~= NO_TOOLS_PREAMBLE@
        + "Summarize the following conversation history (partial):\n\n"@ + tail);
}

/// The prompt holds every round, in order: one group more adds its text behind
/// those of the others and before the closing line. Without groups it is the
/// preamble, the opening and the closing line.
pub proof fn lemma_prompt_holds_rounds(groups: Seq<GroupModel>, g: GroupModel, is_partial: bool)
    ensures
        ({
            let closing =
                "\nProvide a concise summary of the key points, decisions, and current state."@;
            let opening = if is_partial {
                "Summarize the following conversation history (partial):\n\n"@
            } else {
                "Summarize the following conversation history:\n\n"@
            };
            &&& compact_prompt(Seq::empty(), is_partial) == NO_TOOLS_PREAMBLE@ + opening + closing
            &&& exists|head: Seq<char>|
                {
                    &&& compact_prompt(groups, is_partial) == #[trigger] (head + closing)
                    &&& compact_prompt(groups.push(g), is_partial) == head + round_text(
                        groups.len() as int,
                        g,
                    ) + closing
                }
        }),
{
    let closing = "\nProvide a concise summary of the key points, decisions, and current state."@;
    let opening = if is_partial {
        "Summarize the following conversation history (partial):\n\n"@
    } else {
        "Summarize the following conversation history:\n\n"@
    };
    let none = round_texts(Seq::<GroupModel>::empty());
    assert(none =~= Seq::<Seq<char>>::empty());
    assert(compact_prompt(Seq::empty(), is_partial) =~= NO_TOOLS_PREAMBLE@ + opening + closing);
    let head = NO_TOOLS_PREAMBLE@ + opening + joined(round_texts(groups));
    let text = round_text(groups.len() as int, g);
    assert(round_texts(groups.push(g)) =~= round_texts(groups).push(text));
    lemma_joined_push(round_texts(groups), text);
    assert(compact_prompt(groups, is_partial) =~= head + closing);
    assert(compact_prompt(groups.push(g), is_partial) =~= head + text + closing);
}

/// The text of a round: its number, its topic where it has one, and a line for
/// each message, in order; one message more adds its line at the end.
pub proof fn lemma_round_holds_messages(i: int, g: GroupModel, m: MessageModel)
    ensures
        g.messages.len() == 0 ==> round_text(i, g) == "Round "@ + decimal((i + 1) as nat)
            + ":\n"@ + (match g.topic_hint {
            Some(hint) => "  Topic: "@ + hint + "\n"@,
            None => Seq::empty(),
        }) + "\n"@,
        exists|head: Seq<char>|
            {
                &&& round_text(i, g) == #[trigger] (head + "\n"@)
                &&& round_text(i, (GroupModel { messages: g.messages.push(m), ..g })) == head
                    + message_line(m) + "\n"@
            },
{
    let top = "Round "@ + decimal((i + 1) as nat) + ":\n"@ + (match g.topic_hint {
        Some(hint) => "  Topic: "@ + hint + "\n"@,
        None => Seq::<char>::empty(),
    });
    let lines = message_lines(g.messages);
    let head = top + joined(lines);
    assert(round_text(i, g) =~= head + "\n"@);
    let longer = GroupModel { messages: g.messages.push(m), ..g };
    assert(message_lines(longer.messages) =~= lines.push(message_line(m)));
    lemma_joined_push(lines, message_line(m));
    assert(round_text(i, longer) =~= head + message_line(m) + "\n"@);
    if g.messages.len() == 0 {
        assert(lines =~= Seq::<Seq<char>>::empty());
        assert(round_text(i, g) =~= top + "\n"@);
    }
}

/// The line of a message: at most 200 characters of its text under its role,
/// or how many tools the assistant used; nothing where there is neither.
pub proof fn lemma_message_line(m: MessageModel)
    ensures
        match m.text() {
            Some(text) => {
                &&& m.role == Role::User ==> message_line(m) == "  User: "@ + clipped(text, 200)
                    + "...\n"@
                &&& m.role == Role::Assistant && m.tool_uses().len() == 0 ==> message_line(m)
                    == "  Assistant: "@ + clipped(text, 200) + "...\n"@
            },
            None => m.role == Role::User || m.tool_uses().len() == 0 ==> message_line(m).len() == 0,
        },
        m.role == Role::Assistant && m.tool_uses().len() > 0 ==> message_line(m)
            == "  Assistant: used "@ + decimal(m.tool_uses().len()) + " tool(s)\n"@,
{
}

/// All messages of groups, in order.
pub open spec fn messages_of(groups: Seq<GroupModel>) -> Seq<MessageModel> {
    joined(groups.map_values(|g: GroupModel| g.messages))
}

/// What a summary counts, it counts over all messages of its groups; it names
/// the topics of the first five groups, each once, under the number of the
/// group that has it first.
pub proof fn lemma_summary_in_full(groups: Seq<GroupModel>)
    ensures
        ({
            let all = messages_of(groups);
            let tools = count_in(all, Counted::ToolUses);
            let shown = if groups.len() < 5 {
                groups.len()
            } else {
                5
            };
            groups_summary(groups) == "Previous conversation summary:\n\n"@ + ("- "@ + decimal(
                count_in(all, Counted::Messages(Role::User)),
            ) + " user messages\n"@) + ("- "@ + decimal(
                count_in(all, Counted::Messages(Role::Assistant)),
            ) + " assistant responses\n"@) + (if tools > 0 {
                "- "@ + decimal(tools) + " tool invocations\n"@
            } else {
                Seq::empty()
            }) + "\nKey topics:\n"@ + joined(
                Seq::new(shown, |i: int| summary_topic_line(groups, i)),
            )
        }),
{
    let rounds = groups.map_values(|g: GroupModel| g.messages);
    lemma_count_rounds(rounds, groups, Counted::Messages(Role::User));
    lemma_count_rounds(rounds, groups, Counted::Messages(Role::Assistant));
    lemma_count_rounds(rounds, groups, Counted::ToolUses);
    let shown = if groups.len() < 5 {
        groups.len()
    } else {
        5
    };
    assert(summary_topic_lines(groups) =~= Seq::new(
        shown,
        |i: int| summary_topic_line(groups, i),
    ));
}

/// A topic has a line exactly where no earlier group has the same one.
pub proof fn lemma_summary_topic(groups: Seq<GroupModel>, i: int)
    requires
        0 <= i < groups.len(),
    ensures
        match groups[i].topic_hint {
            Some(hint) => {
                let seen = exists|j: int|
                    0 <= j < i && (#[trigger] groups[j]).topic_hint == Some(hint);
                &&& seen ==> summary_topic_line(groups, i).len() == 0
                &&& !seen ==> summary_topic_line(groups, i) == decimal((i + 1) as nat) + ". "@
                    + hint + "\n"@
            },
            None => summary_topic_line(groups, i).len() == 0,
        },
{
    if let Some(hint) = groups[i].topic_hint {
        if exists|j: int| 0 <= j < i && (#[trigger] groups[j]).topic_hint == Some(hint) {
            let j = choose|j: int| 0 <= j < i && (#[trigger] groups[j]).topic_hint == Some(hint);
            assert(groups[j].topic_hint is Some);
            assert(topic_seen(groups, i));
        }
    }
}

/// A summary stands between its marks, in a message of the user.
pub proof fn lemma_summary_marks(summary: Seq<char>)
    ensures
        marked_summary(summary) == "<compact_summary>\n"@ + summary + "\n</compact_summary>"@,
        summary_message(summary).role == Role::User,
        summary_message(summary).text() == Some(marked_summary(summary)),
        summary_message(summary).uuid is None,
{
}

/// As many results are counted as cleared as the user sent in all but the
/// recent messages.
pub proof fn lemma_cleared_counted(messages: Seq<MessageModel>, keep_recent: nat)
    ensures
        messages.len() <= keep_recent ==> micro_cleared(messages, keep_recent) == 0,
        messages.len() > keep_recent ==> micro_cleared(messages, keep_recent) == count_in(
            messages.take(messages.len() - keep_recent),
            Counted::UserToolResults,
        ),
{
    if messages.len() <= keep_recent {
        assert(messages.take(0) =~= Seq::<MessageModel>::empty());
    }
}

/// The tokens under a role are those of the messages that have it, a quarter
/// of their characters each.
pub proof fn lemma_role_tokens(messages: Seq<MessageModel>, role: Role)
    ensures
        sum_at(tokens_by_role(messages), role) == sum_of(
            messages,
            |m: MessageModel|
                if m.role == role {
                    chars_in_message(m) / 4
                } else {
                    0
                },
        ),
        total_quarter_tokens(messages) == sum_of(
            messages,
            |m: MessageModel| chars_in_message(m) / 4,
        ),
        tokens_by_role(messages).contains_key(role) <==> exists|i: int|
            0 <= i < messages.len() && (#[trigger] messages[i]).role == role,
    decreases messages.len(),
{
    if messages.len() > 0 {
        let init = messages.drop_last();
        lemma_role_tokens(init, role);
        let m = messages.last();
        lemma_added(tokens_by_role(init), m.role, chars_in_message(m) / 4, role);
        assert(messages[messages.len() - 1] == m);
        if tokens_by_role(init).contains_key(role) {
            let i = choose|i: int| 0 <= i < init.len() && (#[trigger] init[i]).role == role;
            assert(messages[i] == init[i]);
        }
        if m.role != role && exists|i: int|
            0 <= i < messages.len() && (#[trigger] messages[i]).role == role {
            let i = choose|i: int|
                0 <= i < messages.len() && (#[trigger] messages[i]).role == role;
            assert(init[i] == messages[i]);
        }
    }
}

/// The tokens of a block where it is of a type.
pub open spec fn typed_tokens(t: ContentType) -> spec_fn(BlockModel) -> nat {
    |b: BlockModel|
        if content_type(b) == t {
            chars_in_block(b) / 4
        } else {
            0
        }
}

/// The tokens under a content type are those of the blocks of that type, a
/// quarter of their characters each.
pub proof fn lemma_type_tokens(messages: Seq<MessageModel>, t: ContentType)
    ensures
        sum_at(tokens_by_type(messages), t) == sum_of(
            messages,
            |m: MessageModel| sum_of(m.blocks(), typed_tokens(t)),
        ),
        tokens_by_type(messages).contains_key(t) <==> exists|i: int, j: int|
            0 <= i < messages.len() && 0 <= j < messages[i].blocks().len() && content_type(
                #[trigger] messages[i].blocks()[j],
            ) == t,
    decreases messages.len(),
{
    if messages.len() > 0 {
        let init = messages.drop_last();
        let blocks = messages.last().blocks();
        let n = messages.len() - 1;
        lemma_type_tokens(init, t);
        lemma_blocks_tokens(tokens_by_type(init), blocks, t);
        if tokens_by_type(messages).contains_key(t) {
            if tokens_by_type(init).contains_key(t) {
                let (i, j) = choose|i: int, j: int|
                    0 <= i < init.len() && 0 <= j < init[i].blocks().len() && content_type(
                        #[trigger] init[i].blocks()[j],
                    ) == t;
                assert(content_type(messages[i].blocks()[j]) == t);
            } else {
                let j = choose|j: int|
                    0 <= j < blocks.len() && content_type(#[trigger] blocks[j]) == t;
                assert(content_type(messages[n].blocks()[j]) == t);
            }
        }
        if exists|i: int, j: int|
            0 <= i < messages.len() && 0 <= j < messages[i].blocks().len() && content_type(
                #[trigger] messages[i].blocks()[j],
            ) == t {
            let (i, j) = choose|i: int, j: int|
                0 <= i < messages.len() && 0 <= j < messages[i].blocks().len() && content_type(
                    #[trigger] messages[i].blocks()[j],
                ) == t;
            if i < n {
                assert(content_type(init[i].blocks()[j]) == t);
            } else {
                assert(content_type(blocks[j]) == t);
            }
        }
    }
}

proof fn lemma_blocks_tokens(m: Map<ContentType, nat>, blocks: Seq<BlockModel>, t: ContentType)
    ensures
        sum_at(add_blocks(m, blocks), t) == sum_at(m, t) + sum_of(blocks, typed_tokens(t)),
        add_blocks(m, blocks).contains_key(t) <==> m.contains_key(t) || exists|j: int|
            0 <= j < blocks.len() && content_type(#[trigger] blocks[j]) == t,
    decreases blocks.len(),
{
    if blocks.len() > 0 {
        let init = blocks.drop_last();
        let b = blocks.last();
        lemma_blocks_tokens(m, init, t);
        lemma_added(add_blocks(m, init), content_type(b), chars_in_block(b) / 4, t);
        if exists|j: int| 0 <= j < init.len() && content_type(#[trigger] init[j]) == t {
            let j = choose|j: int| 0 <= j < init.len() && content_type(#[trigger] init[j]) == t;
            assert(content_type(blocks[j]) == t);
        }
        if exists|j: int| 0 <= j < blocks.len() && content_type(#[trigger] blocks[j]) == t {
            let j = choose|j: int| 0 <= j < blocks.len() && content_type(#[trigger] blocks[j]) == t;
            if j < init.len() {
                assert(content_type(init[j]) == t);
            }
        }
        assert(content_type(blocks[blocks.len() - 1]) == content_type(b));
    }
}

/// The type that a block counts under is its own; redacted thinking and
/// unknown blocks count as text.
pub proof fn lemma_content_types(b: BlockModel)
    ensures
        content_type(b) == ContentType::ToolUse <==> b is ToolUse,
        content_type(b) == ContentType::ToolResult <==> b is ToolResult,
        content_type(b) == ContentType::Thinking <==> b is Thinking,
        content_type(b) == ContentType::Image <==> b is Image,
        content_type(b) == ContentType::Document <==> b is Document,
        content_type(b) == ContentType::Text <==> b is Text || b is RedactedThinking || b is Other,
{
}

} // verus!
