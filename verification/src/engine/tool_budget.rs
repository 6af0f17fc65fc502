//! The budget for tool results.

use crate::seqs::{lemma_sum_prefix, lemma_sum_step, sum_of};
use crate::text::{byte_len, utf8_len};
use crate::types::{
    blocks_view, messages_view, BlockModel, ContentBlock, ContentModel, Message, MessageContent,
    MessageModel, ResultModel, Role, ToolResultContent,
};
use vstd::prelude::*;

verus! {

/// What stands in place of a tool result that was cleared.
pub const CLEARED_NOTICE: &'static str = "[Old tool result content cleared to save context]";

/// The size of a text block; other blocks inside a result have none.
pub open spec fn text_chars() -> spec_fn(BlockModel) -> nat {
    |b: BlockModel|
        match b {
            BlockModel::Text { text } => utf8_len(text),
            _ => 0,
        }
}

/// The size of a tool result's content.
pub open spec fn result_chars(content: ResultModel) -> nat {
    match content {
        ResultModel::Text(text) => utf8_len(text),
        ResultModel::Blocks(blocks) => sum_of(blocks, text_chars()),
    }
}

/// The size that a block counts with: that of its content where it is a tool
/// result, else none.
pub open spec fn budget_chars() -> spec_fn(BlockModel) -> nat {
    |b: BlockModel|
        match b {
            BlockModel::ToolResult { tool_use_id, content, is_error } => result_chars(content),
            _ => 0,
        }
}

/// The size that a message counts with: that of its tool results where the
/// user sent it, else none.
pub open spec fn message_budget_chars() -> spec_fn(MessageModel) -> nat {
    |m: MessageModel|
        if m.role == Role::User {
            sum_of(m.blocks(), budget_chars())
        } else {
            0
        }
}

/// The size of all tool results that the user sent.
pub open spec fn tool_result_chars(messages: Seq<MessageModel>) -> nat {
    sum_of(messages, message_budget_chars())
}

/// Whether one of the first `n` blocks is as large as what is to be shed.
pub open spec fn enough_in(blocks: Seq<BlockModel>, n: int, to_shed: nat) -> bool {
    exists|j: int| 0 <= j < n && #[trigger] budget_chars()(blocks[j]) >= to_shed
}

/// Whether a tool result in one of the first `n` messages is as large as what
/// is to be shed.
pub open spec fn enough_before(messages: Seq<MessageModel>, n: int, to_shed: nat) -> bool {
    exists|i: int|
        0 <= i < n && (#[trigger] messages[i]).role == Role::User && enough_in(
            messages[i].blocks(),
            messages[i].blocks().len() as int,
            to_shed,
        )
}

/// Whether block `j` is shed, where nothing large enough came in earlier
/// messages: it is a tool result with some content, and no earlier one is as
/// large as what is to be shed.
pub open spec fn is_shed(blocks: Seq<BlockModel>, j: int, to_shed: nat) -> bool {
    budget_chars()(blocks[j]) > 0 && !enough_in(blocks, j, to_shed)
}

/// A tool result after shedding.
pub open spec fn shed_block(b: BlockModel) -> BlockModel {
    match b {
        BlockModel::ToolResult { tool_use_id, content, is_error } => BlockModel::ToolResult {
            tool_use_id,
            content: ResultModel::Text(CLEARED_NOTICE@),
            is_error,
        },
        other => other,
    }
}

/// Blocks after shedding.
pub open spec fn shed_blocks(blocks: Seq<BlockModel>, to_shed: nat) -> Seq<BlockModel> {
    Seq::new(
        blocks.len(),
        |j: int|
            if is_shed(blocks, j, to_shed) {
                shed_block(blocks[j])
            } else {
                blocks[j]
            },
    )
}

/// How many of the first `n` blocks are shed.
pub open spec fn shed_count(blocks: Seq<BlockModel>, n: int, to_shed: nat) -> nat
    decreases n,
{
    if n <= 0 {
        0
    } else {
        shed_count(blocks, n - 1, to_shed) + (if is_shed(blocks, n - 1, to_shed) {
            1nat
        } else {
            0
        })
    }
}

/// Whether message `i` loses tool results: the user sent it, and nothing large
/// enough came before it.
pub open spec fn sheds(messages: Seq<MessageModel>, i: int, to_shed: nat) -> bool {
    messages[i].role == Role::User && !enough_before(messages, i, to_shed)
}

/// A message after shedding.
pub open spec fn shed_message(m: MessageModel, to_shed: nat) -> MessageModel {
    match m.content {
        ContentModel::Blocks(blocks) => MessageModel {
            content: ContentModel::Blocks(shed_blocks(blocks, to_shed)),
            ..m
        },
        ContentModel::Text(_) => m,
    }
}

/// The conversation after shedding: tool results go, the oldest first, up to
/// and with the first that is as large as what is to be shed.
pub open spec fn shed_messages(messages: Seq<MessageModel>, to_shed: nat) -> Seq<MessageModel> {
    Seq::new(
        messages.len(),
        |i: int|
            if sheds(messages, i, to_shed) {
                shed_message(messages[i], to_shed)
            } else {
                messages[i]
            },
    )
}

/// How many tool results in the first `n` messages are shed.
pub open spec fn shed_total(messages: Seq<MessageModel>, n: int, to_shed: nat) -> nat
    decreases n,
{
    if n <= 0 {
        0
    } else {
        shed_total(messages, n - 1, to_shed) + (if sheds(messages, n - 1, to_shed) {
            shed_count(
                messages[n - 1].blocks(),
                messages[n - 1].blocks().len() as int,
                to_shed,
            )
        } else {
            0
        })
    }
}

/// The conversation within the budget for tool results.
pub open spec fn within_budget(messages: Seq<MessageModel>, budget: nat) -> Seq<MessageModel> {
    if tool_result_chars(messages) <= budget {
        messages
    } else {
        shed_messages(messages, (tool_result_chars(messages) - budget) as nat)
    }
}

/// How many tool results the budget costs.
pub open spec fn budget_cost(messages: Seq<MessageModel>, budget: nat) -> nat {
    if tool_result_chars(messages) <= budget {
        0
    } else {
        shed_total(
            messages,
            messages.len() as int,
            (tool_result_chars(messages) - budget) as nat,
        )
    }
}

/// The budget changes tool results that the user sent and nothing else: every
/// message stays in its place with its role, uuid and cost, and so does every
/// block that is no tool result.
pub proof fn lemma_budget_keeps_rest(messages: Seq<MessageModel>, budget: nat)
    ensures
        within_budget(messages, budget).len() == messages.len(),
        forall|i: int|
            0 <= i < messages.len() ==> {
                let m = #[trigger] within_budget(messages, budget)[i];
                &&& m.role == messages[i].role
                &&& m.uuid == messages[i].uuid
                &&& m.cost == messages[i].cost
                &&& m.blocks().len() == messages[i].blocks().len()
                &&& messages[i].role == Role::Assistant ==> m == messages[i]
                &&& messages[i].content is Text ==> m == messages[i]
            },
        forall|i: int, j: int|
            0 <= i < messages.len() && 0 <= j < messages[i].blocks().len()
                && !(messages[i].blocks()[j] is ToolResult) ==> #[trigger] within_budget(
                messages,
                budget,
            )[i].blocks()[j] == messages[i].blocks()[j],
{
}

/// The oldest tool results go first: where one is shed, so is every earlier
/// one in its message that has some content, and no earlier message of the
/// user keeps one.
pub proof fn lemma_oldest_first(messages: Seq<MessageModel>, to_shed: nat, i: int, j: int)
    requires
        0 <= i < messages.len(),
        0 <= j < messages[i].blocks().len(),
        sheds(messages, i, to_shed),
        is_shed(messages[i].blocks(), j, to_shed),
    ensures
        forall|k: int|
            0 <= k < j && budget_chars()(messages[i].blocks()[k]) > 0 ==> #[trigger] is_shed(
                messages[i].blocks(),
                k,
                to_shed,
            ),
        forall|h: int, k: int|
            0 <= h < i && messages[h].role == Role::User && 0 <= k < messages[h].blocks().len()
                && budget_chars()(messages[h].blocks()[k]) > 0 ==> sheds(messages, h, to_shed)
                && #[trigger] is_shed(messages[h].blocks(), k, to_shed),
{
    let blocks = messages[i].blocks();
    assert forall|k: int| 0 <= k < j && budget_chars()(blocks[k]) > 0 implies #[trigger] is_shed(
        blocks,
        k,
        to_shed,
    ) by {
        if enough_in(blocks, k, to_shed) {
            let w = choose|w: int| 0 <= w < k && #[trigger] budget_chars()(blocks[w]) >= to_shed;
            assert(budget_chars()(blocks[w]) >= to_shed);
            assert(enough_in(blocks, j, to_shed));
        }
    }
    assert forall|h: int, k: int|
        0 <= h < i && messages[h].role == Role::User && 0 <= k < messages[h].blocks().len()
            && budget_chars()(messages[h].blocks()[k]) > 0 implies sheds(messages, h, to_shed)
        && #[trigger] is_shed(messages[h].blocks(), k, to_shed) by {
        let earlier = messages[h].blocks();
        if enough_before(messages, h, to_shed) {
            let w = choose|w: int|
                0 <= w < h && (#[trigger] messages[w]).role == Role::User && enough_in(
                    messages[w].blocks(),
                    messages[w].blocks().len() as int,
                    to_shed,
                );
            assert(messages[w].role == Role::User);
            assert(enough_before(messages, i, to_shed));
        }
        if enough_in(earlier, k, to_shed) {
            let w = choose|w: int| 0 <= w < k && #[trigger] budget_chars()(earlier[w]) >= to_shed;
            assert(budget_chars()(earlier[w]) >= to_shed);
            assert(enough_in(earlier, earlier.len() as int, to_shed));
            assert(messages[h].role == Role::User);
            assert(enough_before(messages, i, to_shed));
        }
    }
}

/// The size of those of the first `n` blocks that stay.
pub open spec fn kept_in(blocks: Seq<BlockModel>, n: int, to_shed: nat) -> nat
    decreases n,
{
    if n <= 0 {
        0
    } else {
        kept_in(blocks, n - 1, to_shed) + (if is_shed(blocks, n - 1, to_shed) {
            0
        } else {
            budget_chars()(blocks[n - 1])
        })
    }
}

/// The size of the user's tool results in the first `n` messages that stay.
pub open spec fn kept_total(messages: Seq<MessageModel>, n: int, to_shed: nat) -> nat
    decreases n,
{
    if n <= 0 {
        0
    } else {
        let m = messages[n - 1];
        kept_total(messages, n - 1, to_shed) + (if sheds(messages, n - 1, to_shed) {
            kept_in(m.blocks(), m.blocks().len() as int, to_shed)
        } else {
            message_budget_chars()(m)
        })
    }
}

/// Among blocks nothing stays, or at least what is to be shed goes.
proof fn lemma_kept_in(blocks: Seq<BlockModel>, n: int, to_shed: nat)
    requires
        0 <= n <= blocks.len(),
        to_shed > 0,
    ensures
        kept_in(blocks, n, to_shed) <= sum_of(blocks.take(n), budget_chars()),
        enough_in(blocks, n, to_shed) ==> kept_in(blocks, n, to_shed) + to_shed <= sum_of(
            blocks.take(n),
            budget_chars(),
        ),
        !enough_in(blocks, n, to_shed) ==> kept_in(blocks, n, to_shed) == 0,
    decreases n,
{
    if n > 0 {
        lemma_kept_in(blocks, n - 1, to_shed);
        lemma_sum_step(blocks, budget_chars(), n - 1);
        if enough_in(blocks, n, to_shed) {
            let w = choose|w: int| 0 <= w < n && #[trigger] budget_chars()(blocks[w]) >= to_shed;
            if w < n - 1 {
                assert(enough_in(blocks, n - 1, to_shed));
            }
        } else {
            if enough_in(blocks, n - 1, to_shed) {
                let w = choose|w: int|
                    0 <= w < n - 1 && #[trigger] budget_chars()(blocks[w]) >= to_shed;
                assert(budget_chars()(blocks[w]) >= to_shed);
            }
        }
    }
}

proof fn lemma_kept_total(messages: Seq<MessageModel>, n: int, to_shed: nat)
    requires
        0 <= n <= messages.len(),
        to_shed > 0,
    ensures
        kept_total(messages, n, to_shed) <= tool_result_chars(messages.take(n)),
        enough_before(messages, n, to_shed) ==> kept_total(messages, n, to_shed) + to_shed
            <= tool_result_chars(messages.take(n)),
        !enough_before(messages, n, to_shed) ==> kept_total(messages, n, to_shed) == 0,
    decreases n,
{
    if n > 0 {
        lemma_kept_total(messages, n - 1, to_shed);
        lemma_sum_step(messages, message_budget_chars(), n - 1);
        let m = messages[n - 1];
        let blocks = m.blocks();
        lemma_kept_in(blocks, blocks.len() as int, to_shed);
        assert(blocks.take(blocks.len() as int) =~= blocks);
        if enough_before(messages, n, to_shed) {
            let w = choose|w: int|
                0 <= w < n && (#[trigger] messages[w]).role == Role::User && enough_in(
                    messages[w].blocks(),
                    messages[w].blocks().len() as int,
                    to_shed,
                );
            if w < n - 1 {
                assert(messages[w].role == Role::User);
                assert(enough_before(messages, n - 1, to_shed));
            }
        } else {
            if enough_before(messages, n - 1, to_shed) {
                let w = choose|w: int|
                    0 <= w < n - 1 && (#[trigger] messages[w]).role == Role::User && enough_in(
                        messages[w].blocks(),
                        messages[w].blocks().len() as int,
                        to_shed,
                    );
                assert(messages[w].role == Role::User);
            }
            if m.role == Role::User {
                assert(messages[n - 1].role == Role::User);
            }
        }
    }
}

/// The budget is kept: the tool results that stay are no larger than the
/// budget together, and where there were too many, some go.
pub proof fn lemma_budget_kept(messages: Seq<MessageModel>, budget: nat)
    requires
        tool_result_chars(messages) > budget,
    ensures
        ({
            let to_shed = (tool_result_chars(messages) - budget) as nat;
            kept_total(messages, messages.len() as int, to_shed) <= budget
        }),
        budget_cost(messages, budget) > 0,
{
    let to_shed = (tool_result_chars(messages) - budget) as nat;
    let n = messages.len() as int;
    assert(messages.take(n) =~= messages);
    lemma_kept_total(messages, n, to_shed);
    if budget_cost(messages, budget) == 0 {
        lemma_none_shed(messages, n, to_shed);
    }
}

/// Where nothing is shed, nothing is lost.
proof fn lemma_none_shed(messages: Seq<MessageModel>, n: int, to_shed: nat)
    requires
        0 <= n <= messages.len(),
        shed_total(messages, n, to_shed) == 0,
    ensures
        kept_total(messages, n, to_shed) == tool_result_chars(messages.take(n)),
    decreases n,
{
    if n > 0 {
        lemma_none_shed(messages, n - 1, to_shed);
        lemma_sum_step(messages, message_budget_chars(), n - 1);
        let blocks = messages[n - 1].blocks();
        if sheds(messages, n - 1, to_shed) {
            lemma_none_shed_in(blocks, blocks.len() as int, to_shed);
            assert(blocks.take(blocks.len() as int) =~= blocks);
        }
    }
}

proof fn lemma_none_shed_in(blocks: Seq<BlockModel>, n: int, to_shed: nat)
    requires
        0 <= n <= blocks.len(),
        shed_count(blocks, n, to_shed) == 0,
    ensures
        kept_in(blocks, n, to_shed) == sum_of(blocks.take(n), budget_chars()),
    decreases n,
{
    if n > 0 {
        lemma_none_shed_in(blocks, n - 1, to_shed);
        lemma_sum_step(blocks, budget_chars(), n - 1);
    }
}

fn count_text_chars(blocks: &Vec<ContentBlock>) -> (r: Option<usize>)
    ensures
        match r {
            Some(n) => n == sum_of(blocks_view(blocks@), text_chars()),
            None => sum_of(blocks_view(blocks@), text_chars()) > usize::MAX,
        },
{
    let ghost model = blocks_view(blocks@);
    let mut sum: usize = 0;
    let mut i: usize = 0;
    while i < blocks.len()
        invariant
            i <= blocks.len(),
            model == blocks_view(blocks@),
            sum == sum_of(model.take(i as int), text_chars()),
        decreases blocks.len() - i,
    {
        proof {
            lemma_sum_step(model, text_chars(), i as int);
            lemma_sum_prefix(model, text_chars(), i + 1, model.len() as int);
            assert(model.take(model.len() as int) =~= model);
        }
        if let ContentBlock::Text { text } = &blocks[i] {
            match sum.checked_add(byte_len(text.as_str())) {
                Some(s) => {
                    sum = s;
                },
                None => {
                    return None;
                },
            }
        }
        i += 1;
    }
    assert(model.take(i as int) =~= model);
    Some(sum)
}

fn count_block(block: &ContentBlock) -> (r: Option<usize>)
    ensures
        match r {
            Some(n) => n == budget_chars()(block@),
            None => budget_chars()(block@) > usize::MAX,
        },
{
    match block {
        ContentBlock::ToolResult { tool_use_id, content, is_error } => match content {
            ToolResultContent::Text(text) => Some(byte_len(text.as_str())),
            ToolResultContent::Blocks(blocks) => count_text_chars(blocks),
        },
        _ => Some(0),
    }
}

fn count_message(message: &Message) -> (r: Option<usize>)
    ensures
        match r {
            Some(n) => n == message_budget_chars()(message@),
            None => message_budget_chars()(message@) > usize::MAX,
        },
{
    if message.role != Role::User {
        return Some(0);
    }
    match &message.content {
        MessageContent::Text(_) => Some(0),
        MessageContent::Blocks(blocks) => {
            let ghost model = blocks_view(blocks@);
            let mut sum: usize = 0;
            let mut i: usize = 0;
            while i < blocks.len()
                invariant
                    i <= blocks.len(),
                    model == blocks_view(blocks@),
                    message@.role == Role::User,
                    message@.blocks() == model,
                    sum == sum_of(model.take(i as int), budget_chars()),
                decreases blocks.len() - i,
            {
                proof {
                    lemma_sum_step(model, budget_chars(), i as int);
                    lemma_sum_prefix(model, budget_chars(), i + 1, model.len() as int);
                    assert(model.take(model.len() as int) =~= model);
                }
                match count_block(&blocks[i]) {
                    Some(n) => match sum.checked_add(n) {
                        Some(s) => {
                            sum = s;
                        },
                        None => {
                            return None;
                        },
                    },
                    None => {
                        return None;
                    },
                }
                i += 1;
            }
            assert(model.take(i as int) =~= model);
            Some(sum)
        },
    }
}

/// The size of all tool results that the user sent; `None` where it is no
/// `usize`.
pub fn checked_tool_result_chars(messages: &[Message]) -> (r: Option<usize>)
    ensures
        match r {
            Some(n) => n == tool_result_chars(messages_view(messages@)),
            None => tool_result_chars(messages_view(messages@)) > usize::MAX,
        },
{
    let ghost model = messages_view(messages@);
    let mut sum: usize = 0;
    let mut i: usize = 0;
    while i < messages.len()
        invariant
            i <= messages@.len(),
            model == messages_view(messages@),
            sum == tool_result_chars(model.take(i as int)),
        decreases messages@.len() - i,
    {
        proof {
            lemma_sum_step(model, message_budget_chars(), i as int);
            lemma_sum_prefix(model, message_budget_chars(), i + 1, model.len() as int);
            assert(model.take(model.len() as int) =~= model);
        }
        match count_message(&messages[i]) {
            Some(n) => match sum.checked_add(n) {
                Some(s) => {
                    sum = s;
                },
                None => {
                    return None;
                },
            },
            None => {
                return None;
            },
        }
        i += 1;
    }
    assert(model.take(i as int) =~= model);
    Some(sum)
}

proof fn lemma_shed_count_fits(blocks: Seq<BlockModel>, n: int, to_shed: nat)
    requires
        0 <= n <= blocks.len(),
    ensures
        shed_count(blocks, n, to_shed) <= sum_of(blocks.take(n), budget_chars()),
    decreases n,
{
    if n > 0 {
        lemma_shed_count_fits(blocks, n - 1, to_shed);
        lemma_sum_step(blocks, budget_chars(), n - 1);
    }
}

proof fn lemma_shed_total_fits(messages: Seq<MessageModel>, n: int, to_shed: nat)
    requires
        0 <= n <= messages.len(),
    ensures
        shed_total(messages, n, to_shed) <= tool_result_chars(messages.take(n)),
    decreases n,
{
    if n > 0 {
        lemma_shed_total_fits(messages, n - 1, to_shed);
        lemma_sum_step(messages, message_budget_chars(), n - 1);
        let blocks = messages[n - 1].blocks();
        lemma_shed_count_fits(blocks, blocks.len() as int, to_shed);
        assert(blocks.take(blocks.len() as int) =~= blocks);
    }
}

/// Sheds tool results of one message; says how many, and whether one was
/// large enough.
fn shed_in_blocks(blocks: &mut Vec<ContentBlock>, to_shed: usize) -> (r: (usize, bool))
    requires
        to_shed > 0,
        sum_of(blocks_view(old(blocks)@), budget_chars()) <= usize::MAX,
    ensures
        blocks_view(final(blocks)@) == shed_blocks(blocks_view(old(blocks)@), to_shed as nat),
        r.0 == shed_count(
            blocks_view(old(blocks)@),
            old(blocks)@.len() as int,
            to_shed as nat,
        ),
        r.1 == enough_in(blocks_view(old(blocks)@), old(blocks)@.len() as int, to_shed as nat),
{
    let ghost before = blocks_view(blocks@);
    let mut count: usize = 0;
    let mut enough: bool = false;
    let mut j: usize = 0;
    while j < blocks.len()
        invariant
            j <= blocks.len(),
            blocks.len() == before.len(),
            to_shed > 0,
            sum_of(before, budget_chars()) <= usize::MAX,
            count == shed_count(before, j as int, to_shed as nat),
            enough == enough_in(before, j as int, to_shed as nat),
            forall|k: int|
                0 <= k < j ==> (#[trigger] blocks@[k])@ == shed_blocks(before, to_shed as nat)[k],
            forall|k: int| j <= k < blocks.len() ==> (#[trigger] blocks@[k])@ == before[k],
        decreases blocks.len() - j,
    {
        proof {
            lemma_shed_count_fits(before, j + 1, to_shed as nat);
            lemma_sum_step(before, budget_chars(), j as int);
            lemma_sum_prefix(before, budget_chars(), j + 1, before.len() as int);
            assert(before.take(before.len() as int) =~= before);
            assert(blocks@[j as int]@ == before[j as int]);
        }
        let size: usize = count_block(&blocks[j]).unwrap();
        let ghost was_enough = enough;
        if size > 0 && !enough {
            if let ContentBlock::ToolResult { tool_use_id, content, is_error } = &mut blocks[j] {
                *content = ToolResultContent::Text(CLEARED_NOTICE.to_owned());
            }
            count += 1;
            if size >= to_shed {
                enough = true;
            }
        }
        proof {
            assert(enough == enough_in(before, j + 1, to_shed as nat)) by {
                if was_enough {
                    let w = choose|w: int|
                        0 <= w < j && #[trigger] budget_chars()(before[w]) >= to_shed;
                    assert(budget_chars()(before[w]) >= to_shed);
                } else {
                    if size >= to_shed {
                        assert(budget_chars()(before[j as int]) >= to_shed);
                    }
                    assert forall|w: int| 0 <= w < j + 1 && !enough implies !(
                    #[trigger] budget_chars()(before[w]) >= to_shed) by {
                        if w < j {
                            assert(!(enough_in(before, j as int, to_shed as nat)));
                        }
                    }
                }
            }
        }
        j += 1;
    }
    proof {
        assert(blocks_view(blocks@) =~= shed_blocks(before, to_shed as nat));
    }
    (count, enough)
}

fn shed_in_message(message: &mut Message, to_shed: usize) -> (r: (usize, bool))
    requires
        to_shed > 0,
        old(message)@.role == Role::User,
        message_budget_chars()(old(message)@) <= usize::MAX,
    ensures
        final(message)@ == shed_message(old(message)@, to_shed as nat),
        r.0 == shed_count(
            old(message)@.blocks(),
            old(message)@.blocks().len() as int,
            to_shed as nat,
        ),
        r.1 == enough_in(
            old(message)@.blocks(),
            old(message)@.blocks().len() as int,
            to_shed as nat,
        ),
{
    match &mut message.content {
        MessageContent::Blocks(blocks) => shed_in_blocks(blocks, to_shed),
        MessageContent::Text(_) => (0, false),
    }
}

/// Applies the budget for tool results: where those that the user sent are
/// larger than the budget together, old ones are truncated. Gives back how
/// many.
pub fn apply_tool_result_budget(messages: &mut Vec<Message>, budget: usize) -> (r: usize)
    requires
        tool_result_chars(messages_view(old(messages)@)) <= usize::MAX,
    ensures
        messages_view(final(messages)@) == within_budget(
            messages_view(old(messages)@),
            budget as nat,
        ),
        r == budget_cost(messages_view(old(messages)@), budget as nat),
{
    let ghost before = messages_view(messages@);
    let total: usize = checked_tool_result_chars(messages.as_slice()).unwrap();
    if total <= budget {
        return 0;
    }
    let to_shed: usize = total - budget;
    let mut truncated: usize = 0;
    let mut enough: bool = false;
    let mut i: usize = 0;
    while i < messages.len()
        invariant
            i <= messages.len(),
            messages.len() == before.len(),
            to_shed > 0,
            tool_result_chars(before) <= usize::MAX,
            truncated == shed_total(before, i as int, to_shed as nat),
            enough == enough_before(before, i as int, to_shed as nat),
            forall|k: int|
                0 <= k < i ==> (#[trigger] messages@[k])@ == shed_messages(
                    before,
                    to_shed as nat,
                )[k],
            forall|k: int| i <= k < messages.len() ==> (#[trigger] messages@[k])@ == before[k],
        decreases messages.len() - i,
    {
        proof {
            lemma_shed_total_fits(before, i + 1, to_shed as nat);
            lemma_sum_step(before, message_budget_chars(), i as int);
            lemma_sum_prefix(before, message_budget_chars(), i + 1, before.len() as int);
            assert(before.take(before.len() as int) =~= before);
            assert(messages@[i as int]@ == before[i as int]);
        }
        let ghost was_enough = enough;
        if messages[i].role == Role::User && !enough {
            let (count, reached) = shed_in_message(&mut messages[i], to_shed);
            truncated += count;
            enough = reached;
        }
        proof {
            assert(enough == enough_before(before, i + 1, to_shed as nat)) by {
                let here = before[i as int].role == Role::User && enough_in(
                    before[i as int].blocks(),
                    before[i as int].blocks().len() as int,
                    to_shed as nat,
                );
                if was_enough {
                    let w = choose|w: int|
                        0 <= w < i && (#[trigger] before[w]).role == Role::User && enough_in(
                            before[w].blocks(),
                            before[w].blocks().len() as int,
                            to_shed as nat,
                        );
                    assert(before[w].role == Role::User);
                } else {
                    if here {
                        assert(before[i as int].role == Role::User);
                    }
                    assert(enough == here);
                }
            }
        }
        i += 1;
    }
    proof {
        assert(messages_view(messages@) =~= shed_messages(before, to_shed as nat));
    }
    truncated
}

} // verus!
