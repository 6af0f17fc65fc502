//! Token usage by role and by content type.

use crate::compact::estimate::{
    chars_in, chars_in_block, chars_in_message, estimate_block_chars, estimate_message_chars,
    DEFAULT_CONTEXT_WINDOW, MEDIA_CHARS, OTHER_CHARS,
};
use crate::compact::split::quarter_tokens;
use crate::compact::threshold::{calculate_token_warning_state, warning_state, TokenWarningState};
use crate::estimate::{blocks_chars, lemma_blocks_chars_prefix, lemma_total_chars_split};
use crate::fraction::Fraction;
use crate::seqs::{lemma_sum_step, sum_of};
use crate::tally::{added, sum_at, Key, Tally};
use crate::types::{
    blocks_view, messages_view, BlockModel, ContentBlock, Message, MessageContent, MessageModel,
    Role,
};
use vstd::prelude::*;

verus! {

/// Content types for token accounting.
#[derive(Debug, Clone, Copy, PartialEq, Eq, Hash, Structural)]
pub enum ContentType {
    Text,
    ToolUse,
    ToolResult,
    Thinking,
    Image,
    Document,
}

impl Key for ContentType {
    fn same(&self, other: &Self) -> (r: bool) {
        *self == *other
    }
}

impl Key for Role {
    fn same(&self, other: &Self) -> (r: bool) {
        *self == *other
    }
}

/// Result of token analysis.
#[derive(Debug)]
pub struct TokenAnalysis {
    /// Total estimated tokens.
    pub total_tokens: u64,
    /// Tokens by message role.
    pub by_role: Tally<Role>,
    /// Tokens by content type.
    pub by_content_type: Tally<ContentType>,
    /// Share of the context window in use.
    pub fraction_used: Fraction,
    /// Warning state.
    pub warning_state: TokenWarningState,
}

impl Clone for TokenAnalysis {
    fn clone(&self) -> (r: Self)
        ensures
            r.total_tokens == self.total_tokens,
            r.by_role@ == self.by_role@,
            self.by_role.well_formed() ==> r.by_role.well_formed(),
            r.by_content_type@ == self.by_content_type@,
            self.by_content_type.well_formed() ==> r.by_content_type.well_formed(),
            r.fraction_used == self.fraction_used,
            r.warning_state == self.warning_state,
    {
        TokenAnalysis {
            total_tokens: self.total_tokens,
            by_role: self.by_role.clone(),
            by_content_type: self.by_content_type.clone(),
            fraction_used: self.fraction_used,
            warning_state: self.warning_state,
        }
    }
}

/// The content type that a block counts under. Redacted thinking and unknown
/// blocks count as text.
pub open spec fn content_type(b: BlockModel) -> ContentType {
    match b {
        BlockModel::Text { .. } => ContentType::Text,
        BlockModel::ToolUse { .. } => ContentType::ToolUse,
        BlockModel::ToolResult { .. } => ContentType::ToolResult,
        BlockModel::Thinking { .. } => ContentType::Thinking,
        BlockModel::Image { .. } => ContentType::Image,
        BlockModel::Document { .. } => ContentType::Document,
        BlockModel::RedactedThinking { .. } => ContentType::Text,
        BlockModel::Other { .. } => ContentType::Text,
    }
}

/// The tokens of all messages.
pub open spec fn total_quarter_tokens(messages: Seq<MessageModel>) -> nat {
    sum_of(messages, quarter_tokens())
}

/// The tokens of messages by role; a role that does not occur has no entry.
pub open spec fn tokens_by_role(messages: Seq<MessageModel>) -> Map<Role, nat>
    decreases messages.len(),
{
    if messages.len() == 0 {
        Map::empty()
    } else {
        added(
            tokens_by_role(messages.drop_last()),
            messages.last().role,
            chars_in_message(messages.last()) / 4,
        )
    }
}

/// Tokens by content type, after those of blocks are added.
pub open spec fn add_blocks(m: Map<ContentType, nat>, blocks: Seq<BlockModel>) -> Map<
    ContentType,
    nat,
>
    decreases blocks.len(),
{
    if blocks.len() == 0 {
        m
    } else {
        added(
            add_blocks(m, blocks.drop_last()),
            content_type(blocks.last()),
            chars_in_block(blocks.last()) / 4,
        )
    }
}

/// The tokens of the blocks of messages by content type; a type that does not
/// occur has no entry.
pub open spec fn tokens_by_type(messages: Seq<MessageModel>) -> Map<ContentType, nat>
    decreases messages.len(),
{
    if messages.len() == 0 {
        Map::empty()
    } else {
        add_blocks(tokens_by_type(messages.drop_last()), messages.last().blocks())
    }
}

/// A role has an entry exactly where a message has it, and the roles' tokens
/// together are all tokens.
pub proof fn lemma_roles_add_up(messages: Seq<MessageModel>)
    ensures
        forall|role: Role|
            #[trigger] tokens_by_role(messages).contains_key(role) <==> exists|i: int|
                0 <= i < messages.len() && (#[trigger] messages[i]).role == role,
        sum_at(tokens_by_role(messages), Role::User) + sum_at(
            tokens_by_role(messages),
            Role::Assistant,
        ) == total_quarter_tokens(messages),
    decreases messages.len(),
{
    if messages.len() > 0 {
        let init = messages.drop_last();
        lemma_roles_add_up(init);
        let n = messages.len() - 1;
        assert forall|role: Role|
            #[trigger] tokens_by_role(messages).contains_key(role) <==> exists|i: int|
                0 <= i < messages.len() && (#[trigger] messages[i]).role == role by {
            if tokens_by_role(init).contains_key(role) {
                let i = choose|i: int| 0 <= i < init.len() && (#[trigger] init[i]).role == role;
                assert(messages[i].role == role);
            }
            if messages.last().role == role {
                assert(messages[n].role == role);
            }
            if exists|i: int| 0 <= i < messages.len() && (#[trigger] messages[i]).role == role {
                let i = choose|i: int|
                    0 <= i < messages.len() && (#[trigger] messages[i]).role == role;
                if i < n {
                    assert(init[i].role == role);
                }
            }
        }
    }
}

proof fn lemma_total_fits(messages: Seq<MessageModel>)
    ensures
        total_quarter_tokens(messages) <= chars_in(messages),
    decreases messages.len(),
{
    if messages.len() > 0 {
        lemma_total_fits(messages.drop_last());
    }
}

proof fn lemma_add_blocks_fits(m: Map<ContentType, nat>, blocks: Seq<BlockModel>)
    ensures
        forall|t: ContentType|
            #[trigger] sum_at(add_blocks(m, blocks), t) <= sum_at(m, t) + blocks_chars(
                blocks,
                MEDIA_CHARS as nat,
                OTHER_CHARS as nat,
            ),
    decreases blocks.len(),
{
    if blocks.len() > 0 {
        let init = blocks.drop_last();
        lemma_add_blocks_fits(m, init);
        assert forall|t: ContentType|
            #[trigger] sum_at(add_blocks(m, blocks), t) <= sum_at(m, t) + blocks_chars(
                blocks,
                MEDIA_CHARS as nat,
                OTHER_CHARS as nat,
            ) by {
            assert(sum_at(add_blocks(m, init), t) <= sum_at(m, t) + blocks_chars(
                init,
                MEDIA_CHARS as nat,
                OTHER_CHARS as nat,
            ));
        }
    }
}

proof fn lemma_types_fit(messages: Seq<MessageModel>)
    ensures
        forall|t: ContentType| #[trigger]
            sum_at(tokens_by_type(messages), t) <= chars_in(messages),
    decreases messages.len(),
{
    if messages.len() > 0 {
        let init = messages.drop_last();
        lemma_types_fit(init);
        lemma_add_blocks_fits(tokens_by_type(init), messages.last().blocks());
        assert forall|t: ContentType| #[trigger]
            sum_at(tokens_by_type(messages), t) <= chars_in(messages) by {
            assert(sum_at(tokens_by_type(init), t) <= chars_in(init));
        }
    }
}

fn type_of_block(block: &ContentBlock) -> (r: ContentType)
    ensures
        r == content_type(block@),
{
    match block {
        ContentBlock::Text { .. } => ContentType::Text,
        ContentBlock::ToolUse { .. } => ContentType::ToolUse,
        ContentBlock::ToolResult { .. } => ContentType::ToolResult,
        ContentBlock::Thinking { .. } => ContentType::Thinking,
        ContentBlock::Image { .. } => ContentType::Image,
        ContentBlock::Document { .. } => ContentType::Document,
        ContentBlock::RedactedThinking { .. } => ContentType::Text,
        ContentBlock::Other { .. } => ContentType::Text,
    }
}

fn count_blocks(tally: &mut Tally<ContentType>, blocks: &Vec<ContentBlock>, Ghost(limit): Ghost<nat>)
    requires
        old(tally).well_formed(),
        limit + blocks_chars(blocks_view(blocks@), MEDIA_CHARS as nat, OTHER_CHARS as nat)
            <= usize::MAX,
        forall|t: ContentType| #[trigger] sum_at(old(tally)@, t) <= limit,
    ensures
        final(tally).well_formed(),
        final(tally)@ == add_blocks(old(tally)@, blocks_view(blocks@)),
{
    let ghost model = blocks_view(blocks@);
    let ghost start = tally@;
    let mut i: usize = 0;
    while i < blocks.len()
        invariant
            i <= blocks.len(),
            model == blocks_view(blocks@),
            limit + blocks_chars(model, MEDIA_CHARS as nat, OTHER_CHARS as nat) <= usize::MAX,
            forall|t: ContentType| #[trigger] sum_at(start, t) <= limit,
            tally.well_formed(),
            tally@ == add_blocks(start, model.take(i as int)),
        decreases blocks.len() - i,
    {
        let ghost next = model.take(i + 1);
        proof {
            assert(next.drop_last() =~= model.take(i as int));
            assert(next.last() == blocks@[i as int]@);
            lemma_blocks_chars_prefix(model, i + 1, MEDIA_CHARS as nat, OTHER_CHARS as nat);
            lemma_add_blocks_fits(start, model.take(i as int));
            let t = content_type(next.last());
            assert(sum_at(add_blocks(start, model.take(i as int)), t) <= sum_at(start, t)
                + blocks_chars(model.take(i as int), MEDIA_CHARS as nat, OTHER_CHARS as nat));
        }
        let tokens: u64 = (estimate_block_chars(&blocks[i]) / 4) as u64;
        tally.count(type_of_block(&blocks[i]), tokens);
        i += 1;
    }
    proof {
        assert(model.take(i as int) =~= model);
    }
}

/// Analyzes the token usage breakdown.
pub fn analyze_tokens(messages: &[Message]) -> (r: TokenAnalysis)
    requires
        chars_in(messages_view(messages@)) <= usize::MAX,
    ensures
        r.total_tokens == total_quarter_tokens(messages_view(messages@)),
        r.by_role.well_formed(),
        r.by_role@ == tokens_by_role(messages_view(messages@)),
        r.by_content_type.well_formed(),
        r.by_content_type@ == tokens_by_type(messages_view(messages@)),
        r.fraction_used.num() == r.total_tokens,
        r.fraction_used.den() == DEFAULT_CONTEXT_WINDOW,
        r.warning_state == warning_state(r.total_tokens as nat, DEFAULT_CONTEXT_WINDOW as nat),
{
    let ghost model = messages_view(messages@);
    let mut by_role: Tally<Role> = Tally::new();
    let mut by_content_type: Tally<ContentType> = Tally::new();
    let mut total: u64 = 0;
    let mut i: usize = 0;
    while i < messages.len()
        invariant
            i <= messages@.len(),
            model == messages_view(messages@),
            chars_in(model) <= usize::MAX,
            total == total_quarter_tokens(model.take(i as int)),
            by_role.well_formed(),
            by_role@ == tokens_by_role(model.take(i as int)),
            by_content_type.well_formed(),
            by_content_type@ == tokens_by_type(model.take(i as int)),
        decreases messages@.len() - i,
    {
        let ghost done = model.take(i as int);
        let ghost next = model.take(i + 1);
        proof {
            assert(next.drop_last() =~= done);
            assert(next.last() == messages@[i as int]@);
            lemma_total_chars_split(model, i + 1, MEDIA_CHARS as nat, OTHER_CHARS as nat);
            lemma_sum_step(model, quarter_tokens(), i as int);
            lemma_total_fits(done);
            lemma_total_fits(next);
            lemma_roles_add_up(done);
            lemma_types_fit(done);
        }
        let message = &messages[i];
        let tokens: u64 = estimate_message_chars(message) as u64 / 4;
        total += tokens;
        proof {
            assert(sum_at(by_role@, message.role) <= total_quarter_tokens(done)) by {
                assert(message.role == Role::User || message.role == Role::Assistant);
            }
        }
        by_role.count(message.role, tokens);
        if let MessageContent::Blocks(blocks) = &message.content {
            count_blocks(&mut by_content_type, blocks, Ghost(chars_in(done)));
        }
        i += 1;
    }
    proof {
        assert(model.take(i as int) =~= model);
    }
    TokenAnalysis {
        total_tokens: total,
        by_role,
        by_content_type,
        fraction_used: Fraction::share(total, DEFAULT_CONTEXT_WINDOW),
        warning_state: calculate_token_warning_state(total, DEFAULT_CONTEXT_WINDOW),
    }
}

} // verus!
