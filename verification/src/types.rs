//! Conversation messages.

use crate::json::JsonText;
use crate::seqs::{first_some, lemma_first_some_stays, lemma_first_some_step};
use crate::text::{clone_opt_text, opt_text};
use vstd::prelude::*;

verus! {

/// Who wrote a message.
#[derive(Debug, Clone, Copy, PartialEq, Eq, Hash, Structural)]
pub enum Role {
    User,
    Assistant,
}

/// What a tool gave back.
#[derive(Debug)]
pub enum ToolResultContent {
    Text(String),
    Blocks(Vec<ContentBlock>),
}

/// One part of a message.
#[derive(Debug)]
pub enum ContentBlock {
    Text { text: String },
    ToolUse { id: String, name: String, input: JsonText },
    ToolResult { tool_use_id: String, content: ToolResultContent, is_error: Option<bool> },
    Thinking { thinking: String, signature: String },
    RedactedThinking { data: String },
    Image { source: JsonText },
    Document { source: JsonText },
    /// Any other kind of block.
    Other { block_type: String, payload: JsonText },
}

/// The model of a tool's result.
pub enum ResultModel {
    Text(Seq<char>),
    Blocks(Seq<BlockModel>),
}

/// The model of a content block: the same block over mathematical texts.
pub enum BlockModel {
    Text { text: Seq<char> },
    ToolUse { id: Seq<char>, name: Seq<char>, input: Seq<char> },
    ToolResult { tool_use_id: Seq<char>, content: ResultModel, is_error: Option<bool> },
    Thinking { thinking: Seq<char>, signature: Seq<char> },
    RedactedThinking { data: Seq<char> },
    Image { source: Seq<char> },
    Document { source: Seq<char> },
    Other { block_type: Seq<char>, payload: Seq<char> },
}

impl ToolResultContent {
    pub open spec fn view(&self) -> ResultModel
        decreases self,
    {
        match self {
            ToolResultContent::Text(t) => ResultModel::Text(t@),
            ToolResultContent::Blocks(blocks) => ResultModel::Blocks(blocks_view(blocks@)),
        }
    }
}

impl ContentBlock {
    pub open spec fn view(&self) -> BlockModel
        decreases self,
    {
        match self {
            ContentBlock::Text { text } => BlockModel::Text { text: text@ },
            ContentBlock::ToolUse { id, name, input } => BlockModel::ToolUse {
                id: id@,
                name: name@,
                input: input@,
            },
            ContentBlock::ToolResult { tool_use_id, content, is_error } => BlockModel::ToolResult {
                tool_use_id: tool_use_id@,
                content: content.view(),
                is_error: *is_error,
            },
            ContentBlock::Thinking { thinking, signature } => BlockModel::Thinking {
                thinking: thinking@,
                signature: signature@,
            },
            ContentBlock::RedactedThinking { data } => BlockModel::RedactedThinking { data: data@ },
            ContentBlock::Image { source } => BlockModel::Image { source: source@ },
            ContentBlock::Document { source } => BlockModel::Document { source: source@ },
            ContentBlock::Other { block_type, payload } => BlockModel::Other {
                block_type: block_type@,
                payload: payload@,
            },
        }
    }
}

/// The models of a sequence of blocks.
pub open spec fn blocks_view(blocks: Seq<ContentBlock>) -> Seq<BlockModel>
    decreases blocks,
{
    Seq::new(
        blocks.len(),
        |i: int|
            if 0 <= i < blocks.len() {
                blocks[i].view()
            } else {
                arbitrary()
            },
    )
}

impl Clone for ToolResultContent {
    fn clone(&self) -> (r: Self)
        ensures
            r@ == self@,
        decreases self,
    {
        match self {
            ToolResultContent::Text(t) => ToolResultContent::Text(t.clone()),
            ToolResultContent::Blocks(blocks) => ToolResultContent::Blocks(clone_blocks(blocks)),
        }
    }
}

fn clone_blocks(blocks: &Vec<ContentBlock>) -> (r: Vec<ContentBlock>)
    ensures
        blocks_view(r@) == blocks_view(blocks@),
    decreases blocks,
{
    let mut r: Vec<ContentBlock> = Vec::new();
    let mut i: usize = 0;
    while i < blocks.len()
        invariant
            i <= blocks.len(),
            r.len() == i,
            forall|k: int| 0 <= k < i ==> (#[trigger] r@[k])@ == blocks@[k]@,
        decreases blocks.len() - i,
    {
        r.push(blocks[i].clone());
        i += 1;
    }
    r
}

impl Clone for ContentBlock {
    fn clone(&self) -> (r: Self)
        ensures
            r@ == self@,
        decreases self,
    {
        match self {
            ContentBlock::Text { text } => ContentBlock::Text { text: text.clone() },
            ContentBlock::ToolUse { id, name, input } => ContentBlock::ToolUse {
                id: id.clone(),
                name: name.clone(),
                input: input.clone(),
            },
            ContentBlock::ToolResult { tool_use_id, content, is_error } => ContentBlock::ToolResult {
                tool_use_id: tool_use_id.clone(),
                content: content.clone(),
                is_error: *is_error,
            },
            ContentBlock::Thinking { thinking, signature } => ContentBlock::Thinking {
                thinking: thinking.clone(),
                signature: signature.clone(),
            },
            ContentBlock::RedactedThinking { data } => ContentBlock::RedactedThinking {
                data: data.clone(),
            },
            ContentBlock::Image { source } => ContentBlock::Image { source: source.clone() },
            ContentBlock::Document { source } => ContentBlock::Document { source: source.clone() },
            ContentBlock::Other { block_type, payload } => ContentBlock::Other {
                block_type: block_type.clone(),
                payload: payload.clone(),
            },
        }
    }
}

/// The tokens that a message was billed for.
#[derive(Debug, Clone, Copy, PartialEq, Eq, Structural)]
pub struct MessageCost {
    pub input_tokens: u64,
    pub output_tokens: u64,
    pub cache_read_input_tokens: u64,
    pub cache_creation_input_tokens: u64,
}

/// Token usage, summed over messages.
#[derive(Debug, Clone, Copy, PartialEq, Eq, Structural)]
pub struct UsageInfo {
    pub input_tokens: u64,
    pub output_tokens: u64,
    pub cache_read_input_tokens: u64,
    pub cache_creation_input_tokens: u64,
}

impl Default for UsageInfo {
    fn default() -> (r: Self)
        ensures
            r.input_tokens == 0,
            r.output_tokens == 0,
            r.cache_read_input_tokens == 0,
            r.cache_creation_input_tokens == 0,
    {
        UsageInfo {
            input_tokens: 0,
            output_tokens: 0,
            cache_read_input_tokens: 0,
            cache_creation_input_tokens: 0,
        }
    }
}

/// What a message says.
#[derive(Debug)]
pub enum MessageContent {
    Text(String),
    Blocks(Vec<ContentBlock>),
}

/// The model of a message's content.
pub enum ContentModel {
    Text(Seq<char>),
    Blocks(Seq<BlockModel>),
}

impl View for MessageContent {
    type V = ContentModel;

    open spec fn view(&self) -> ContentModel {
        match self {
            MessageContent::Text(t) => ContentModel::Text(t@),
            MessageContent::Blocks(blocks) => ContentModel::Blocks(blocks_view(blocks@)),
        }
    }
}

impl Clone for MessageContent {
    fn clone(&self) -> (r: Self)
        ensures
            r@ == self@,
    {
        match self {
            MessageContent::Text(t) => MessageContent::Text(t.clone()),
            MessageContent::Blocks(blocks) => MessageContent::Blocks(clone_blocks(blocks)),
        }
    }
}

/// A message of the conversation.
#[derive(Debug)]
pub struct Message {
    pub role: Role,
    pub content: MessageContent,
    pub uuid: Option<String>,
    pub cost: Option<MessageCost>,
}

/// The model of a message.
pub struct MessageModel {
    pub role: Role,
    pub content: ContentModel,
    pub uuid: Option<Seq<char>>,
    pub cost: Option<MessageCost>,
}

impl View for Message {
    type V = MessageModel;

    open spec fn view(&self) -> MessageModel {
        MessageModel {
            role: self.role,
            content: self.content@,
            uuid: opt_text(self.uuid),
            cost: self.cost,
        }
    }
}

impl Clone for Message {
    fn clone(&self) -> (r: Self)
        ensures
            r@ == self@,
    {
        Message {
            role: self.role,
            content: self.content.clone(),
            uuid: clone_opt_text(&self.uuid),
            cost: self.cost,
        }
    }
}

/// The models of a sequence of messages.
pub open spec fn messages_view(messages: Seq<Message>) -> Seq<MessageModel> {
    Seq::new(messages.len(), |i: int| messages[i]@)
}

/// A copy of the messages.
pub fn clone_messages(messages: &[Message]) -> (r: Vec<Message>)
    ensures
        messages_view(r@) == messages_view(messages@),
{
    let mut r: Vec<Message> = Vec::new();
    let mut i: usize = 0;
    while i < messages.len()
        invariant
            i <= messages@.len(),
            r.len() == i,
            forall|k: int| 0 <= k < i ==> (#[trigger] r@[k])@ == messages@[k]@,
        decreases messages@.len() - i,
    {
        r.push(messages[i].clone());
        i += 1;
    }
    proof {
        assert(messages_view(r@) =~= messages_view(messages@));
    }
    r
}

/// A message that holds a text and nothing else.
pub open spec fn text_message(role: Role, text: Seq<char>) -> MessageModel {
    MessageModel { role, content: ContentModel::Text(text), uuid: None, cost: None }
}

/// The tool uses among the blocks, in order.
pub open spec fn tool_uses(blocks: Seq<BlockModel>) -> Seq<BlockModel> {
    blocks.filter(|b: BlockModel| b is ToolUse)
}

/// The tool results among the blocks, in order.
pub open spec fn tool_results(blocks: Seq<BlockModel>) -> Seq<BlockModel> {
    blocks.filter(|b: BlockModel| b is ToolResult)
}

/// The text of a text block.
pub open spec fn block_text() -> spec_fn(BlockModel) -> Option<Seq<char>> {
    |b: BlockModel|
        match b {
            BlockModel::Text { text } => Some(text),
            _ => None,
        }
}

/// The text of the first text block.
pub open spec fn first_text(blocks: Seq<BlockModel>) -> Option<Seq<char>> {
    first_some(blocks, block_text())
}

impl MessageModel {
    /// The blocks of the message; none where the content is a text.
    pub open spec fn blocks(self) -> Seq<BlockModel> {
        match self.content {
            ContentModel::Text(_) => Seq::empty(),
            ContentModel::Blocks(blocks) => blocks,
        }
    }

    /// The tool uses of the message.
    pub open spec fn tool_uses(self) -> Seq<BlockModel> {
        tool_uses(self.blocks())
    }

    /// The tool results of the message.
    pub open spec fn tool_results(self) -> Seq<BlockModel> {
        tool_results(self.blocks())
    }

    /// The text of the message: its content where that is a text, the first
    /// text block where it is not.
    pub open spec fn text(self) -> Option<Seq<char>> {
        match self.content {
            ContentModel::Text(text) => Some(text),
            ContentModel::Blocks(blocks) => first_text(blocks),
        }
    }
}

/// The models of borrowed blocks.
pub open spec fn block_refs_view(blocks: Seq<&ContentBlock>) -> Seq<BlockModel> {
    Seq::new(blocks.len(), |i: int| blocks[i]@)
}

impl Message {
    /// A user message with a text.
    pub fn user(content: &str) -> (r: Message)
        ensures
            r@ == text_message(Role::User, content@),
    {
        Message {
            role: Role::User,
            content: MessageContent::Text(content.to_owned()),
            uuid: None,
            cost: None,
        }
    }

    /// An assistant message with a text.
    pub fn assistant(content: &str) -> (r: Message)
        ensures
            r@ == text_message(Role::Assistant, content@),
    {
        Message {
            role: Role::Assistant,
            content: MessageContent::Text(content.to_owned()),
            uuid: None,
            cost: None,
        }
    }

    /// A user message made of blocks.
    pub fn user_blocks(blocks: Vec<ContentBlock>) -> (r: Message)
        ensures
            r@ == (MessageModel {
                role: Role::User,
                content: ContentModel::Blocks(blocks_view(blocks@)),
                uuid: None,
                cost: None,
            }),
    {
        Message {
            role: Role::User,
            content: MessageContent::Blocks(blocks),
            uuid: None,
            cost: None,
        }
    }

    /// An assistant message made of blocks.
    pub fn assistant_blocks(blocks: Vec<ContentBlock>) -> (r: Message)
        ensures
            r@ == (MessageModel {
                role: Role::Assistant,
                content: ContentModel::Blocks(blocks_view(blocks@)),
                uuid: None,
                cost: None,
            }),
    {
        Message {
            role: Role::Assistant,
            content: MessageContent::Blocks(blocks),
            uuid: None,
            cost: None,
        }
    }

    /// The text of the message, where it has one.
    pub fn get_text(&self) -> (r: Option<&str>)
        ensures
            match r {
                Some(text) => self@.text() == Some(text@),
                None => self@.text() is None,
            },
    {
        match &self.content {
            MessageContent::Text(text) => Some(text.as_str()),
            MessageContent::Blocks(blocks) => {
                let ghost model = blocks_view(blocks@);
                let mut i: usize = 0;
                while i < blocks.len()
                    invariant
                        i <= blocks.len(),
                        model == blocks_view(blocks@),
                        self@.text() == first_text(model),
                        first_text(model.take(i as int)) is None,
                    decreases blocks.len() - i,
                {
                    proof {
                        lemma_first_some_step(model, block_text(), i as int);
                    }
                    if let ContentBlock::Text { text } = &blocks[i] {
                        proof {
                            lemma_first_some_stays(model, block_text(), i + 1);
                        }
                        return Some(text.as_str());
                    }
                    i += 1;
                }
                proof {
                    assert(model.take(i as int) =~= model);
                }
                None
            },
        }
    }

    /// The tool uses of the message.
    pub fn get_tool_use_blocks(&self) -> (r: Vec<&ContentBlock>)
        ensures
            block_refs_view(r@) == self@.tool_uses(),
    {
        let mut r: Vec<&ContentBlock> = Vec::new();
        let ghost model = self@.blocks();
        if let MessageContent::Blocks(blocks) = &self.content {
            let mut i: usize = 0;
            while i < blocks.len()
                invariant
                    i <= blocks.len(),
                    model == blocks_view(blocks@),
                    block_refs_view(r@) == tool_uses(model.take(i as int)),
                decreases blocks.len() - i,
            {
                let ghost before = r@;
                let block = &blocks[i];
                proof {
                    reveal_with_fuel(Seq::filter, 2);
                    assert(model.take(i + 1).drop_last() =~= model.take(i as int));
                    assert(model.take(i + 1).last() == blocks@[i as int]@);
                }
                if let ContentBlock::ToolUse { .. } = block {
                    r.push(block);
                    assert(block_refs_view(r@) =~= block_refs_view(before).push(block@));
                }
                i += 1;
            }
            proof {
                assert(model.take(i as int) =~= model);
            }
        } else {
            reveal_with_fuel(Seq::filter, 1);
            assert(block_refs_view(r@) =~= tool_uses(model));
        }
        r
    }

    /// The tool results of the message.
    pub fn get_tool_result_blocks(&self) -> (r: Vec<&ContentBlock>)
        ensures
            block_refs_view(r@) == self@.tool_results(),
    {
        let mut r: Vec<&ContentBlock> = Vec::new();
        let ghost model = self@.blocks();
        if let MessageContent::Blocks(blocks) = &self.content {
            let mut i: usize = 0;
            while i < blocks.len()
                invariant
                    i <= blocks.len(),
                    model == blocks_view(blocks@),
                    block_refs_view(r@) == tool_results(model.take(i as int)),
                decreases blocks.len() - i,
            {
                let ghost before = r@;
                let block = &blocks[i];
                proof {
                    reveal_with_fuel(Seq::filter, 2);
                    assert(model.take(i + 1).drop_last() =~= model.take(i as int));
                    assert(model.take(i + 1).last() == blocks@[i as int]@);
                }
                if let ContentBlock::ToolResult { .. } = block {
                    r.push(block);
                    assert(block_refs_view(r@) =~= block_refs_view(before).push(block@));
                }
                i += 1;
            }
            proof {
                assert(model.take(i as int) =~= model);
            }
        } else {
            reveal_with_fuel(Seq::filter, 1);
            assert(block_refs_view(r@) =~= tool_results(model));
        }
        r
    }
}

} // verus!
