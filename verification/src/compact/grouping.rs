//! Message groups: one for each API round.

use crate::compact::estimate::{
    chars_in, estimate_tokens_for_messages, MEDIA_CHARS, OTHER_CHARS,
};
use crate::estimate::padded_tokens;
use crate::json::{json_member, json_string, JsonText};
use crate::seqs::{
    first_some, joined, lemma_first_some_stays, lemma_first_some_step, lemma_joined_push, sum_of,
};
use crate::text::{byte_len, clip, clipped, clone_opt_text, first_word, opt_text, utf8_len, word};
use crate::types::{
    blocks_view, clone_messages, messages_view, BlockModel, ContentBlock, Message, MessageContent,
    MessageModel, Role,
};
use vstd::prelude::*;

verus! {

/// Texts of this many bytes and more give no topic.
pub const TOPIC_TEXT_LIMIT: usize = 200;

/// How many characters of a text a topic keeps.
pub const TOPIC_TEXT_CHARS: usize = 50;

/// The member of a tool's input under `key`, where it is a string.
pub open spec fn string_member(input: Seq<char>, key: Seq<char>) -> Option<Seq<char>> {
    match json_member(input, key) {
        Some(member) => json_string(member),
        None => None,
    }
}

/// The topic of a tool use, from the tool's name and from the file path and
/// the command of its input: the path, else the command's first word, else the
/// name.
pub open spec fn tool_topic(
    name: Seq<char>,
    file_path: Option<Seq<char>>,
    command: Option<Seq<char>>,
) -> Seq<char> {
    match file_path {
        Some(path) => path,
        None => match command {
            Some(line) => first_word(line),
            None => name,
        },
    }
}

/// The topic of a block: that of a tool use, or the start of a short text.
pub open spec fn block_topic() -> spec_fn(BlockModel) -> Option<Seq<char>> {
    |b: BlockModel|
        match b {
            BlockModel::ToolUse { id, name, input } => Some(
                tool_topic(
                    name,
                    string_member(input, "file_path"@),
                    string_member(input, "command"@),
                ),
            ),
            BlockModel::Text { text } => if utf8_len(text) < TOPIC_TEXT_LIMIT {
                Some(clipped(text, TOPIC_TEXT_CHARS as nat))
            } else {
                None
            },
            _ => None,
        }
}

/// The topic of a message: that of its first block that has one. A message
/// whose content is a text has none.
pub open spec fn message_topic() -> spec_fn(MessageModel) -> Option<Seq<char>> {
    |m: MessageModel| first_some(m.blocks(), block_topic())
}

/// The topic of messages: that of the first message that has one.
pub open spec fn topic(messages: Seq<MessageModel>) -> Option<Seq<char>> {
    first_some(messages, message_topic())
}

/// Chooses the topic of a tool use.
pub fn choose_tool_topic(name: &str, file_path: Option<String>, command: Option<String>) -> (r:
    String)
    ensures
        r@ == tool_topic(name@, opt_text(file_path), opt_text(command)),
{
    match file_path {
        Some(path) => path,
        None => match command {
            Some(line) => word(line.as_str()),
            None => name.to_owned(),
        },
    }
}

fn read_string_member(input: &JsonText, key: &str) -> (r: Option<String>)
    ensures
        opt_text(r) == string_member(input@, key@),
{
    match input.get(key) {
        Some(member) => member.as_str(),
        None => None,
    }
}

/// Extracts the topic of a block.
pub fn extract_block_topic(block: &ContentBlock) -> (r: Option<String>)
    ensures
        opt_text(r) == block_topic()(block@),
{
    match block {
        ContentBlock::ToolUse { id, name, input } => {
            let file_path = read_string_member(input, "file_path");
            let command = read_string_member(input, "command");
            Some(choose_tool_topic(name.as_str(), file_path, command))
        },
        ContentBlock::Text { text } => {
            if byte_len(text.as_str()) < TOPIC_TEXT_LIMIT {
                Some(clip(text.as_str(), TOPIC_TEXT_CHARS))
            } else {
                None
            }
        },
        _ => None,
    }
}

fn extract_message_topic(message: &Message) -> (r: Option<String>)
    ensures
        opt_text(r) == message_topic()(message@),
{
    match &message.content {
        MessageContent::Text(_) => None,
        MessageContent::Blocks(blocks) => {
            let ghost model = blocks_view(blocks@);
            let mut i: usize = 0;
            while i < blocks.len()
                invariant
                    i <= blocks.len(),
                    model == blocks_view(blocks@),
                    model == message@.blocks(),
                    first_some(model.take(i as int), block_topic()) is None,
                decreases blocks.len() - i,
            {
                proof {
                    lemma_first_some_step(model, block_topic(), i as int);
                }
                let found = extract_block_topic(&blocks[i]);
                if found.is_some() {
                    proof {
                        lemma_first_some_stays(model, block_topic(), i + 1);
                    }
                    return found;
                }
                i += 1;
            }
            proof {
                assert(model.take(i as int) =~= model);
            }
            None
        },
    }
}

/// Extracts the topic of a group of messages.
pub fn extract_topic_hint(messages: &[Message]) -> (r: Option<String>)
    ensures
        opt_text(r) == topic(messages_view(messages@)),
{
    let ghost model = messages_view(messages@);
    let mut i: usize = 0;
    while i < messages.len()
        invariant
            i <= messages@.len(),
            model == messages_view(messages@),
            first_some(model.take(i as int), message_topic()) is None,
        decreases messages@.len() - i,
    {
        proof {
            lemma_first_some_step(model, message_topic(), i as int);
        }
        let found = extract_message_topic(&messages[i]);
        if found.is_some() {
            proof {
                lemma_first_some_stays(model, message_topic(), i + 1);
            }
            return found;
        }
        i += 1;
    }
    proof {
        assert(model.take(i as int) =~= model);
    }
    None
}

/// A group of messages forming a semantic unit (one API round).
#[derive(Debug)]
pub struct MessageGroup {
    /// Messages in this group.
    pub messages: Vec<Message>,
    /// Topic of the group.
    pub topic_hint: Option<String>,
    /// Estimated token count.
    pub token_estimate: usize,
}

/// The model of a message group.
pub struct GroupModel {
    pub messages: Seq<MessageModel>,
    pub topic_hint: Option<Seq<char>>,
    pub token_estimate: nat,
}

impl View for MessageGroup {
    type V = GroupModel;

    open spec fn view(&self) -> GroupModel {
        GroupModel {
            messages: messages_view(self.messages@),
            topic_hint: opt_text(self.topic_hint),
            token_estimate: self.token_estimate as nat,
        }
    }
}

impl Clone for MessageGroup {
    fn clone(&self) -> (r: Self)
        ensures
            r@ == self@,
    {
        MessageGroup {
            messages: clone_messages(self.messages.as_slice()),
            topic_hint: clone_opt_text(&self.topic_hint),
            token_estimate: self.token_estimate,
        }
    }
}

/// The group made of messages.
pub open spec fn group_of(messages: Seq<MessageModel>) -> GroupModel {
    GroupModel {
        messages,
        topic_hint: topic(messages),
        token_estimate: padded_tokens(chars_in(messages)),
    }
}

/// The models of groups.
pub open spec fn groups_view(groups: Seq<MessageGroup>) -> Seq<GroupModel> {
    Seq::new(groups.len(), |i: int| groups[i]@)
}

impl MessageGroup {
    /// Makes a group of messages.
    pub fn from_messages(messages: Vec<Message>) -> (r: MessageGroup)
        requires
            chars_in(messages_view(messages@)) <= usize::MAX,
        ensures
            r@ == group_of(messages_view(messages@)),
    {
        let topic_hint = extract_topic_hint(messages.as_slice());
        let token_estimate: usize = estimate_tokens_for_messages(messages.as_slice());
        MessageGroup { messages, topic_hint, token_estimate }
    }
}

/// The messages after the last assistant message: the round that is not
/// complete.
pub open spec fn open_round(messages: Seq<MessageModel>) -> Seq<MessageModel>
    decreases messages.len(),
{
    if messages.len() == 0 || messages.last().role == Role::Assistant {
        Seq::empty()
    } else {
        open_round(messages.drop_last()).push(messages.last())
    }
}

/// The complete rounds: each ends with an assistant message.
pub open spec fn closed_rounds(messages: Seq<MessageModel>) -> Seq<Seq<MessageModel>>
    decreases messages.len(),
{
    if messages.len() == 0 {
        Seq::empty()
    } else if messages.last().role == Role::Assistant {
        closed_rounds(messages.drop_last()).push(
            open_round(messages.drop_last()).push(messages.last()),
        )
    } else {
        closed_rounds(messages.drop_last())
    }
}

/// The rounds of a conversation: the complete ones, and the messages after
/// the last assistant message, where there are any, as one more.
pub open spec fn api_rounds(messages: Seq<MessageModel>) -> Seq<Seq<MessageModel>> {
    if open_round(messages).len() == 0 {
        closed_rounds(messages)
    } else {
        closed_rounds(messages).push(open_round(messages))
    }
}

/// The groups of a conversation, one for each round.
pub open spec fn api_groups(messages: Seq<MessageModel>) -> Seq<GroupModel> {
    api_rounds(messages).map_values(|round: Seq<MessageModel>| group_of(round))
}

/// The rounds hold all messages, each once and in order.
pub proof fn lemma_rounds_partition(messages: Seq<MessageModel>)
    ensures
        joined(api_rounds(messages)) == messages,
{
    lemma_closed_and_open(messages);
    if open_round(messages).len() == 0 {
        assert(joined(closed_rounds(messages)) =~= messages);
    } else {
        lemma_joined_push(closed_rounds(messages), open_round(messages));
    }
}

proof fn lemma_closed_and_open(messages: Seq<MessageModel>)
    ensures
        joined(closed_rounds(messages)) + open_round(messages) == messages,
    decreases messages.len(),
{
    if messages.len() > 0 {
        let init = messages.drop_last();
        lemma_closed_and_open(init);
        if messages.last().role == Role::Assistant {
            lemma_joined_push(closed_rounds(init), open_round(init).push(messages.last()));
        }
        assert(messages =~= (joined(closed_rounds(init)) + open_round(init)).push(
            messages.last(),
        ));
        assert(joined(closed_rounds(messages)) + open_round(messages) =~= messages);
    } else {
        assert(joined(closed_rounds(messages)) + open_round(messages) =~= messages);
    }
}

/// Every round has a message; an assistant message ends its round; every
/// round but the last ends with one, and so does the last where the
/// conversation does.
pub proof fn lemma_rounds_end_with_assistant(messages: Seq<MessageModel>)
    ensures
        forall|i: int|
            0 <= i < api_rounds(messages).len() ==> (#[trigger] api_rounds(messages)[i]).len() > 0,
        forall|i: int, j: int|
            0 <= i < api_rounds(messages).len() && 0 <= j < api_rounds(messages)[i].len() - 1
                ==> (#[trigger] api_rounds(messages)[i][j]).role == Role::User,
        forall|i: int|
            0 <= i < api_rounds(messages).len() - 1 ==> (
            #[trigger] api_rounds(messages)[i]).last().role == Role::Assistant,
        messages.len() > 0 && messages.last().role == Role::Assistant ==> api_rounds(
            messages,
        ).last().last().role == Role::Assistant,
{
    lemma_open_round_users(messages);
    lemma_closed_rounds_shape(messages);
}

proof fn lemma_open_round_users(messages: Seq<MessageModel>)
    ensures
        forall|j: int|
            0 <= j < open_round(messages).len() ==> (#[trigger] open_round(messages)[j]).role
                == Role::User,
    decreases messages.len(),
{
    if messages.len() > 0 {
        lemma_open_round_users(messages.drop_last());
    }
}

proof fn lemma_closed_rounds_shape(messages: Seq<MessageModel>)
    ensures
        forall|i: int|
            0 <= i < closed_rounds(messages).len() ==> (
            #[trigger] closed_rounds(messages)[i]).len() > 0 && closed_rounds(
                messages,
            )[i].last().role == Role::Assistant,
        forall|i: int, j: int|
            0 <= i < closed_rounds(messages).len() && 0 <= j < closed_rounds(messages)[i].len() - 1
                ==> (#[trigger] closed_rounds(messages)[i][j]).role == Role::User,
    decreases messages.len(),
{
    if messages.len() > 0 {
        lemma_closed_rounds_shape(messages.drop_last());
        lemma_open_round_users(messages.drop_last());
    }
}

/// The size of rounds, each by itself and then together.
pub open spec fn round_chars() -> spec_fn(Seq<MessageModel>) -> nat {
    |round: Seq<MessageModel>| chars_in(round)
}

/// The rounds together are as large as the conversation.
pub proof fn lemma_rounds_chars(messages: Seq<MessageModel>)
    ensures
        sum_of(closed_rounds(messages), round_chars()) + chars_in(open_round(messages)) == chars_in(
            messages,
        ),
        sum_of(api_rounds(messages), round_chars()) == chars_in(messages),
    decreases messages.len(),
{
    if messages.len() > 0 {
        let init = messages.drop_last();
        lemma_rounds_chars(init);
        let open = open_round(init).push(messages.last());
        assert(open.drop_last() =~= open_round(init));
        if messages.last().role == Role::Assistant {
            assert(closed_rounds(init).push(open).drop_last() =~= closed_rounds(init));
        }
    }
    let closed = closed_rounds(messages);
    assert(closed.push(open_round(messages)).drop_last() =~= closed);
}

/// Groups messages by API round (assistant message boundaries).
pub fn group_messages_by_api_round(messages: &[Message]) -> (r: Vec<MessageGroup>)
    requires
        chars_in(messages_view(messages@)) <= usize::MAX,
    ensures
        groups_view(r@) == api_groups(messages_view(messages@)),
{
    let ghost model = messages_view(messages@);
    let ghost f = |round: Seq<MessageModel>| group_of(round);
    let mut groups: Vec<MessageGroup> = Vec::new();
    let mut current: Vec<Message> = Vec::new();
    let mut i: usize = 0;
    while i < messages.len()
        invariant
            i <= messages@.len(),
            model == messages_view(messages@),
            chars_in(model) <= usize::MAX,
            f == (|round: Seq<MessageModel>| group_of(round)),
            groups_view(groups@) == closed_rounds(model.take(i as int)).map_values(f),
            messages_view(current@) == open_round(model.take(i as int)),
        decreases messages@.len() - i,
    {
        let ghost sofar = model.take(i + 1);
        let ghost before = current@;
        let ghost groups_before = groups@;
        proof {
            assert(sofar.drop_last() =~= model.take(i as int));
            assert(sofar.last() == messages@[i as int]@);
            lemma_round_fits(model, i + 1);
            lemma_round_fits(model, i as int);
        }
        let message = &messages[i];
        current.push(message.clone());
        proof {
            assert(messages_view(current@) =~= messages_view(before).push(message@));
        }
        if message.role == Role::Assistant {
            proof {
                lemma_closing_round_fits(model, i as int);
            }
            let group = MessageGroup::from_messages(current);
            groups.push(group);
            current = Vec::new();
            proof {
                assert(groups_view(groups@) =~= groups_view(groups_before).push(group@));
                assert(closed_rounds(sofar).map_values(f) =~= groups_view(groups@));
                assert(messages_view(current@) =~= open_round(sofar));
            }
        }
        i += 1;
    }
    proof {
        assert(model.take(i as int) =~= model);
        lemma_round_fits(model, i as int);
    }
    let ghost groups_before = groups@;
    if !current.is_empty() {
        let group = MessageGroup::from_messages(current);
        groups.push(group);
        proof {
            assert(groups_view(groups@) =~= groups_view(groups_before).push(group@));
            assert(api_groups(model) =~= groups_view(groups@));
        }
    } else {
        assert(api_groups(model) =~= groups_view(groups@));
    }
    groups
}

/// The round that is open after `n` messages is no larger than the
/// conversation.
proof fn lemma_round_fits(messages: Seq<MessageModel>, n: int)
    requires
        0 <= n <= messages.len(),
    ensures
        chars_in(open_round(messages.take(n))) <= chars_in(messages),
{
    lemma_rounds_chars(messages.take(n));
    crate::estimate::lemma_total_chars_split(
        messages,
        n,
        MEDIA_CHARS as nat,
        OTHER_CHARS as nat,
    );
}

/// So is the round that message `n` closes.
proof fn lemma_closing_round_fits(messages: Seq<MessageModel>, n: int)
    requires
        0 <= n < messages.len(),
    ensures
        chars_in(open_round(messages.take(n)).push(messages[n])) <= chars_in(messages),
{
    let open = open_round(messages.take(n));
    lemma_rounds_chars(messages.take(n));
    assert(open.push(messages[n]).drop_last() =~= open);
    assert(messages.take(n + 1).drop_last() =~= messages.take(n));
    crate::estimate::lemma_total_chars_split(
        messages,
        n + 1,
        MEDIA_CHARS as nat,
        OTHER_CHARS as nat,
    );
}

} // verus!
