//! Prompts and summaries.

use crate::compact::grouping::{groups_view, GroupModel, MessageGroup};
use crate::counting::{count, count_in, Counted};
use crate::seqs::{joined, lemma_joined_push, lemma_sum_prefix, lemma_sum_step, sum_of};
use crate::text::{clip, clipped, decimal, push_decimal};
use crate::types::{text_message, Message, MessageModel, Role};
use vstd::prelude::*;
use vstd::string::StringExecFns;

verus! {

/// Preamble to prevent tool use during compaction.
pub const NO_TOOLS_PREAMBLE: &'static str =
    "You are being asked to summarize a conversation history.\nDO NOT invoke any tools. Only produce a text summary.\n";

/// How many characters of a message a prompt shows.
pub const PROMPT_PREVIEW_CHARS: usize = 200;

/// How many groups a summary takes topics from.
pub const SUMMARY_TOPICS: usize = 5;

/// The start of a text, as a prompt shows it.
pub open spec fn preview_line(label: Seq<char>, text: Seq<char>) -> Seq<char> {
    label + clipped(text, PROMPT_PREVIEW_CHARS as nat) + "...\n"@
}

/// What a prompt says of a message: the start of its text, or how many tools
/// the assistant used.
pub open spec fn message_line(m: MessageModel) -> Seq<char> {
    match m.role {
        Role::User => match m.text() {
            Some(text) => preview_line("  User: "@, text),
            None => Seq::empty(),
        },
        Role::Assistant => if m.tool_uses().len() > 0 {
            "  Assistant: used "@ + decimal(m.tool_uses().len()) + " tool(s)\n"@
        } else {
            match m.text() {
                Some(text) => preview_line("  Assistant: "@, text),
                None => Seq::empty(),
            }
        },
    }
}

/// What a prompt says of a group's topic.
pub open spec fn topic_line(hint: Option<Seq<char>>) -> Seq<char> {
    match hint {
        Some(text) => "  Topic: "@ + text + "\n"@,
        None => Seq::empty(),
    }
}

/// What a prompt says of messages.
pub open spec fn message_lines(messages: Seq<MessageModel>) -> Seq<Seq<char>> {
    messages.map_values(|m: MessageModel| message_line(m))
}

/// What a prompt says of round `i`, counted from zero.
pub open spec fn round_text(i: int, group: GroupModel) -> Seq<char> {
    "Round "@ + decimal((i + 1) as nat) + ":\n"@ + topic_line(group.topic_hint) + joined(
        message_lines(group.messages),
    ) + "\n"@
}

/// What a prompt says of all rounds.
pub open spec fn round_texts(groups: Seq<GroupModel>) -> Seq<Seq<char>> {
    Seq::new(groups.len(), |i: int| round_text(i, groups[i]))
}

/// The prompt for summarizing the groups.
pub open spec fn compact_prompt(groups: Seq<GroupModel>, is_partial: bool) -> Seq<char> {
    NO_TOOLS_PREAMBLE@ + (if is_partial {
        "Summarize the following conversation history (partial):\n\n"@
    } else {
        "Summarize the following conversation history:\n\n"@
    }) + joined(round_texts(groups))
        + "\nProvide a concise summary of the key points, decisions, and current state."@
}

fn push_preview(out: &mut String, label: &str, text: &str)
    ensures
        final(out)@ == old(out)@ + preview_line(label@, text@),
{
    let ghost start = out@;
    out.append(label);
    out.append(clip(text, PROMPT_PREVIEW_CHARS).as_str());
    out.append("...\n");
    assert(out@ =~= start + preview_line(label@, text@));
}

fn push_message_line(out: &mut String, message: &Message)
    ensures
        final(out)@ == old(out)@ + message_line(message@),
{
    let ghost start = out@;
    match message.role {
        Role::User => {
            if let Some(text) = message.get_text() {
                push_preview(out, "  User: ", text);
            }
        },
        Role::Assistant => {
            let tool_count: usize = message.get_tool_use_blocks().len();
            if tool_count > 0 {
                out.append("  Assistant: used ");
                push_decimal(out, tool_count as u64);
                out.append(" tool(s)\n");
            } else if let Some(text) = message.get_text() {
                push_preview(out, "  Assistant: ", text);
            }
        },
    }
    assert(out@ =~= start + message_line(message@));
}

fn push_round(out: &mut String, i: usize, group: &MessageGroup)
    requires
        i < usize::MAX,
    ensures
        final(out)@ == old(out)@ + round_text(i as int, group@),
{
    let ghost start = out@;
    out.append("Round ");
    push_decimal(out, (i + 1) as u64);
    out.append(":\n");
    if let Some(hint) = &group.topic_hint {
        out.append("  Topic: ");
        out.append(hint.as_str());
        out.append("\n");
    }
    let ghost head = "Round "@ + decimal((i + 1) as nat) + ":\n"@ + topic_line(group@.topic_hint);
    assert(out@ =~= start + head);
    let ghost lines = message_lines(group@.messages);
    let mut k: usize = 0;
    while k < group.messages.len()
        invariant
            k <= group.messages.len(),
            lines == message_lines(group@.messages),
            lines.len() == group.messages.len(),
            out@ == start + head + joined(lines.take(k as int)),
        decreases group.messages.len() - k,
    {
        push_message_line(out, &group.messages[k]);
        proof {
            assert(lines[k as int] == message_line(group.messages@[k as int]@));
            assert(lines.take(k + 1) =~= lines.take(k as int).push(lines[k as int]));
            lemma_joined_push(lines.take(k as int), lines[k as int]);
            assert(out@ =~= start + head + joined(lines.take(k + 1)));
        }
        k += 1;
    }
    out.append("\n");
    proof {
        assert(lines.take(k as int) =~= lines);
        assert(out@ =~= start + round_text(i as int, group@));
    }
}

/// Generates a prompt for compact summarization.
pub fn get_compact_prompt(groups: &[MessageGroup], is_partial: bool) -> (r: String)
    ensures
        r@ == compact_prompt(groups_view(groups@), is_partial),
{
    let base = if is_partial {
        "Summarize the following conversation history (partial):\n\n"
    } else {
        "Summarize the following conversation history:\n\n"
    };
    let mut prompt = NO_TOOLS_PREAMBLE.to_owned();
    prompt.append(base);
    let ghost head = prompt@;
    let ghost rounds = round_texts(groups_view(groups@));
    let total: usize = groups.len();
    let mut i: usize = 0;
    while i < total
        invariant
            i <= total == groups@.len(),
            rounds == round_texts(groups_view(groups@)),
            rounds.len() == groups@.len(),
            prompt@ == head + joined(rounds.take(i as int)),
        decreases total - i,
    {
        push_round(&mut prompt, i, &groups[i]);
        proof {
            assert(rounds[i as int] == round_text(i as int, groups@[i as int]@));
            assert(rounds.take(i + 1) =~= rounds.take(i as int).push(rounds[i as int]));
            lemma_joined_push(rounds.take(i as int), rounds[i as int]);
            assert(prompt@ =~= head + joined(rounds.take(i + 1)));
        }
        i += 1;
    }
    prompt.append("\nProvide a concise summary of the key points, decisions, and current state.");
    proof {
        assert(rounds.take(i as int) =~= rounds);
        assert(prompt@ =~= compact_prompt(groups_view(groups@), is_partial));
    }
    prompt
}

/// A summary between its marks.
pub open spec fn marked_summary(summary: Seq<char>) -> Seq<char> {
    "<compact_summary>\n"@ + summary + "\n</compact_summary>"@
}

/// The message that stands for summarized messages.
pub open spec fn summary_message(summary: Seq<char>) -> MessageModel {
    text_message(Role::User, marked_summary(summary))
}

/// Formats a compact summary as a message.
pub fn format_compact_summary(summary: &str) -> (r: Message)
    ensures
        r@ == summary_message(summary@),
{
    let mut content = "<compact_summary>\n".to_owned();
    content.append(summary);
    content.append("\n</compact_summary>");
    Message::user(content.as_str())
}

/// What the messages of a group count for.
pub open spec fn counted_in_group(what: Counted) -> spec_fn(GroupModel) -> nat {
    |g: GroupModel| count_in(g.messages, what)
}

/// How many there are in the groups.
pub open spec fn count_in_groups(groups: Seq<GroupModel>, what: Counted) -> nat {
    sum_of(groups, counted_in_group(what))
}

/// A line that says how many there are.
pub open spec fn count_line(n: nat, what: Seq<char>) -> Seq<char> {
    "- "@ + decimal(n) + what
}

/// Whether a group's topic already is that of an earlier one.
pub open spec fn topic_seen(groups: Seq<GroupModel>, i: int) -> bool {
    exists|j: int|
        0 <= j < i && (#[trigger] groups[j]).topic_hint is Some && groups[j].topic_hint
            == groups[i].topic_hint
}

/// What a summary says of the topic of group `i`: nothing where it has none
/// or an earlier group has the same.
pub open spec fn summary_topic_line(groups: Seq<GroupModel>, i: int) -> Seq<char> {
    match groups[i].topic_hint {
        Some(hint) => if topic_seen(groups, i) {
            Seq::empty()
        } else {
            decimal((i + 1) as nat) + ". "@ + hint + "\n"@
        },
        None => Seq::empty(),
    }
}

/// What a summary says of the topics of the first groups.
pub open spec fn summary_topic_lines(groups: Seq<GroupModel>) -> Seq<Seq<char>> {
    Seq::new(
        if groups.len() < SUMMARY_TOPICS {
            groups.len()
        } else {
            SUMMARY_TOPICS as nat
        },
        |i: int| summary_topic_line(groups, i),
    )
}

/// The summary of groups: how many messages and tool uses they hold, and what
/// the first of them are about.
pub open spec fn groups_summary(groups: Seq<GroupModel>) -> Seq<char> {
    let tool_uses = count_in_groups(groups, Counted::ToolUses);
    "Previous conversation summary:\n\n"@ + count_line(
        count_in_groups(groups, Counted::Messages(Role::User)),
        " user messages\n"@,
    ) + count_line(
        count_in_groups(groups, Counted::Messages(Role::Assistant)),
        " assistant responses\n"@,
    ) + (if tool_uses > 0 {
        count_line(tool_uses, " tool invocations\n"@)
    } else {
        Seq::empty()
    }) + "\nKey topics:\n"@ + joined(summary_topic_lines(groups))
}

/// Adds a line that says how many there are.
pub fn push_count_line(out: &mut String, n: usize, what: &str)
    ensures
        final(out)@ == old(out)@ + count_line(n as nat, what@),
{
    let ghost start = out@;
    out.append("- ");
    push_decimal(out, n as u64);
    out.append(what);
    assert(out@ =~= start + count_line(n as nat, what@));
}

fn count_groups(groups: &[MessageGroup], what: Counted) -> (r: usize)
    requires
        count_in_groups(groups_view(groups@), what) <= usize::MAX,
    ensures
        r == count_in_groups(groups_view(groups@), what),
{
    let ghost model = groups_view(groups@);
    let mut sum: usize = 0;
    let mut i: usize = 0;
    while i < groups.len()
        invariant
            i <= groups@.len(),
            model == groups_view(groups@),
            count_in_groups(model, what) <= usize::MAX,
            sum == count_in_groups(model.take(i as int), what),
        decreases groups@.len() - i,
    {
        proof {
            lemma_sum_step(model, counted_in_group(what), i as int);
            lemma_sum_prefix(model, counted_in_group(what), i + 1, model.len() as int);
            assert(model.take(model.len() as int) =~= model);
        }
        sum += count(groups[i].messages.as_slice(), what);
        i += 1;
    }
    proof {
        assert(model.take(i as int) =~= model);
    }
    sum
}

fn is_topic_seen(groups: &[MessageGroup], i: usize, hint: &String) -> (r: bool)
    requires
        i < groups@.len(),
        groups_view(groups@)[i as int].topic_hint == Some(hint@),
    ensures
        r == topic_seen(groups_view(groups@), i as int),
{
    let ghost model = groups_view(groups@);
    let mut j: usize = 0;
    while j < i
        invariant
            j <= i < groups@.len(),
            model == groups_view(groups@),
            model[i as int].topic_hint == Some(hint@),
            forall|k: int|
                0 <= k < j ==> !((#[trigger] model[k]).topic_hint is Some && model[k].topic_hint
                    == model[i as int].topic_hint),
        decreases i - j,
    {
        assert(model[j as int] == groups@[j as int]@);
        if let Some(earlier) = &groups[j].topic_hint {
            if *earlier == *hint {
                return true;
            }
        }
        j += 1;
    }
    false
}

/// Builds a summary from message groups.
pub fn build_summary_from_groups(groups: &[MessageGroup]) -> (r: String)
    requires
        count_in_groups(groups_view(groups@), Counted::Messages(Role::User)) <= usize::MAX,
        count_in_groups(groups_view(groups@), Counted::Messages(Role::Assistant)) <= usize::MAX,
        count_in_groups(groups_view(groups@), Counted::ToolUses) <= usize::MAX,
    ensures
        r@ == groups_summary(groups_view(groups@)),
{
    let ghost model = groups_view(groups@);
    let mut summary = "Previous conversation summary:\n\n".to_owned();
    let user_count: usize = count_groups(groups, Counted::Messages(Role::User));
    let assistant_count: usize = count_groups(groups, Counted::Messages(Role::Assistant));
    let tool_uses: usize = count_groups(groups, Counted::ToolUses);
    push_count_line(&mut summary, user_count, " user messages\n");
    push_count_line(&mut summary, assistant_count, " assistant responses\n");
    if tool_uses > 0 {
        push_count_line(&mut summary, tool_uses, " tool invocations\n");
    }
    summary.append("\nKey topics:\n");
    let ghost head = summary@;
    let ghost lines = summary_topic_lines(model);
    let shown: usize = if groups.len() < SUMMARY_TOPICS {
        groups.len()
    } else {
        SUMMARY_TOPICS
    };
    let mut i: usize = 0;
    while i < shown
        invariant
            i <= shown <= groups@.len(),
            shown <= SUMMARY_TOPICS,
            model == groups_view(groups@),
            lines == summary_topic_lines(model),
            lines.len() == shown,
            summary@ == head + joined(lines.take(i as int)),
        decreases shown - i,
    {
        let ghost before = summary@;
        assert(model[i as int] == groups@[i as int]@);
        if let Some(hint) = &groups[i].topic_hint {
            if !is_topic_seen(groups, i, hint) {
                push_decimal(&mut summary, (i + 1) as u64);
                summary.append(". ");
                summary.append(hint.as_str());
                summary.append("\n");
            }
        }
        proof {
            assert(lines[i as int] == summary_topic_line(model, i as int));
            assert(summary@ =~= before + lines[i as int]);
            assert(lines.take(i + 1) =~= lines.take(i as int).push(lines[i as int]));
            lemma_joined_push(lines.take(i as int), lines[i as int]);
            assert(summary@ =~= head + joined(lines.take(i + 1)));
        }
        i += 1;
    }
    proof {
        assert(lines.take(i as int) =~= lines);
        assert(summary@ =~= groups_summary(model));
    }
    summary
}

} // verus!
