//! What holds of tool results within their budget, of summaries and of
//! estimates.

use crate::counting::{count_in, Counted};
use crate::engine::estimate::{
    chars_in_block, chars_in_message, conversation_tokens, message_tokens,
};
use crate::engine::summary::{messages_summary, quote_line, quote_lines, user_messages};
use crate::engine::tool_budget::{
    budget_chars, budget_cost, enough_before, enough_in, is_shed, message_budget_chars, shed_count,
    shed_total, sheds, text_chars, tool_result_chars, within_budget,
};
use crate::seqs::{joined, sum_of};
use crate::text::{clipped, decimal, utf8_len};
use crate::text_laws::lemma_sum_add;
use crate::types::{BlockModel, MessageModel, ResultModel, Role};
use vstd::prelude::*;

verus! {

/// What counts toward the budget: the bytes of a tool result's text, or of
/// the texts among its blocks, where the user sent it, and nothing else.
pub proof fn lemma_budget_sizes(
    a: Seq<MessageModel>,
    b: Seq<MessageModel>,
    m: MessageModel,
    x: Seq<BlockModel>,
    y: Seq<BlockModel>,
    id: Seq<char>,
    text: Seq<char>,
    is_error: Option<bool>,
)
    ensures
        tool_result_chars(a + b) == tool_result_chars(a) + tool_result_chars(b),
        m.role == Role::Assistant ==> tool_result_chars(seq![m]) == 0,
        m.role == Role::User ==> tool_result_chars(seq![m]) == sum_of(m.blocks(), budget_chars()),
        budget_chars()(
            BlockModel::ToolResult {
                tool_use_id: id,
                content: ResultModel::Text(text),
                is_error,
            },
        ) == utf8_len(text),
        budget_chars()(
            BlockModel::ToolResult {
                tool_use_id: id,
                content: ResultModel::Blocks(x + y),
                is_error,
            },
        ) == sum_of(x, text_chars()) + sum_of(y, text_chars()),
        text_chars()(BlockModel::Text { text }) == utf8_len(text),
        forall|k: BlockModel| !(k is Text) ==> #[trigger] text_chars()(k) == 0,
        forall|k: BlockModel| !(k is ToolResult) ==> #[trigger] budget_chars()(k) == 0,
{
    lemma_sum_add(a, b, message_budget_chars());
    lemma_sum_add(x, y, text_chars());
    reveal_with_fuel(sum_of, 2);
    assert(seq![m].drop_last() =~= Seq::<MessageModel>::empty());
}

/// Whether the budget takes the content of block `j` of message `i`: it is a
/// result with some content that the user sent, the results are over budget,
/// and none before it is as large as what they are over.
pub open spec fn goes(messages: Seq<MessageModel>, budget: nat, i: int, j: int) -> bool {
    &&& tool_result_chars(messages) > budget
    &&& 0 <= i < messages.len()
    &&& 0 <= j < messages[i].blocks().len()
    &&& messages[i].role == Role::User
    &&& budget_chars()(messages[i].blocks()[j]) > 0
    &&& forall|p: int, q: int|
        0 <= p <= i && 0 <= q < messages[p].blocks().len() && (p < i || q < j)
            && messages[p].role == Role::User ==> #[trigger] budget_chars()(
            messages[p].blocks()[q],
        ) + budget < tool_result_chars(messages)
}

/// The budget takes the content of the results that go, leaves a notice in its
/// place, and leaves every other block as it is.
pub proof fn lemma_budget_in_full(messages: Seq<MessageModel>, budget: nat, i: int, j: int)
    requires
        0 <= i < messages.len(),
        0 <= j < messages[i].blocks().len(),
    ensures
        ({
            let before = messages[i].blocks()[j];
            let after = within_budget(messages, budget)[i].blocks()[j];
            &&& !goes(messages, budget, i, j) ==> after == before
            &&& goes(messages, budget, i, j) ==> match before {
                BlockModel::ToolResult { tool_use_id, content, is_error } => after
                    == BlockModel::ToolResult {
                    tool_use_id,
                    content: ResultModel::Text(
                        "[Old tool result content cleared to save context]"@,
                    ),
                    is_error,
                },
                _ => false,
            }
        }),
{
    lemma_goes(messages, budget, i, j);
}

/// The two ways to say that a result goes.
proof fn lemma_goes(messages: Seq<MessageModel>, budget: nat, i: int, j: int)
    requires
        0 <= i < messages.len(),
        0 <= j < messages[i].blocks().len(),
    ensures
        goes(messages, budget, i, j) <==> tool_result_chars(messages) > budget && ({
            let to_shed = (tool_result_chars(messages) - budget) as nat;
            sheds(messages, i, to_shed) && is_shed(messages[i].blocks(), j, to_shed)
        }),
{
    if tool_result_chars(messages) > budget {
        let to_shed = (tool_result_chars(messages) - budget) as nat;
        let blocks = messages[i].blocks();
        if goes(messages, budget, i, j) {
            if enough_before(messages, i, to_shed) {
                let p = choose|p: int|
                    0 <= p < i && (#[trigger] messages[p]).role == Role::User && enough_in(
                        messages[p].blocks(),
                        messages[p].blocks().len() as int,
                        to_shed,
                    );
                let q = choose|q: int|
                    0 <= q < messages[p].blocks().len() && #[trigger] budget_chars()(
                        messages[p].blocks()[q],
                    ) >= to_shed;
                assert(budget_chars()(messages[p].blocks()[q]) >= to_shed);
            }
            if enough_in(blocks, j, to_shed) {
                let q = choose|q: int| 0 <= q < j && #[trigger] budget_chars()(blocks[q]) >= to_shed;
                assert(budget_chars()(messages[i].blocks()[q]) >= to_shed);
            }
        }
        if sheds(messages, i, to_shed) && is_shed(blocks, j, to_shed) {
            assert forall|p: int, q: int|
                0 <= p <= i && 0 <= q < messages[p].blocks().len() && (p < i || q < j)
                    && messages[p].role == Role::User implies #[trigger] budget_chars()(
                messages[p].blocks()[q],
            ) + budget < tool_result_chars(messages) by {
                if budget_chars()(messages[p].blocks()[q]) >= to_shed {
                    if p < i {
                        assert(enough_in(
                            messages[p].blocks(),
                            messages[p].blocks().len() as int,
                            to_shed,
                        ));
                        assert(messages[p].role == Role::User);
                        assert(enough_before(messages, i, to_shed));
                    } else {
                        assert(enough_in(blocks, j, to_shed));
                    }
                }
            }
        }
    }
}

/// The places before block `j` of message `i` whose results go.
pub open spec fn places_that_go(messages: Seq<MessageModel>, budget: nat, i: int, j: int) -> Set<
    (int, int),
> {
    Set::new(
        |place: (int, int)|
            goes(messages, budget, place.0, place.1) && (place.0 < i || (place.0 == i && place.1
                < j)),
    )
}

/// The budget costs as many results as go.
pub proof fn lemma_budget_cost(messages: Seq<MessageModel>, budget: nat)
    ensures
        places_that_go(messages, budget, messages.len() as int, 0).finite(),
        budget_cost(messages, budget) == places_that_go(
            messages,
            budget,
            messages.len() as int,
            0,
        ).len(),
{
    if tool_result_chars(messages) > budget {
        lemma_places_counted(messages, budget, messages.len() as int, 0);
    } else {
        assert(places_that_go(messages, budget, messages.len() as int, 0) =~= Set::empty());
    }
}

proof fn lemma_places_counted(messages: Seq<MessageModel>, budget: nat, i: int, j: int)
    requires
        tool_result_chars(messages) > budget,
        0 <= i < messages.len() && 0 <= j <= messages[i].blocks().len() || i == messages.len() && j
            == 0,
    ensures
        places_that_go(messages, budget, i, j).finite(),
        ({
            let to_shed = (tool_result_chars(messages) - budget) as nat;
            places_that_go(messages, budget, i, j).len() == shed_total(messages, i, to_shed) + (
            if j > 0 && sheds(messages, i, to_shed) {
                shed_count(messages[i].blocks(), j, to_shed)
            } else {
                0
            })
        }),
    decreases i, j,
{
    let places = places_that_go(messages, budget, i, j);
    if j > 0 {
        lemma_places_counted(messages, budget, i, j - 1);
        lemma_goes(messages, budget, i, j - 1);
        let fewer = places_that_go(messages, budget, i, j - 1);
        if goes(messages, budget, i, j - 1) {
            assert(places =~= fewer.insert((i, j - 1)));
        } else {
            assert(places =~= fewer);
        }
    } else if i > 0 {
        let len = messages[i - 1].blocks().len() as int;
        lemma_places_counted(messages, budget, i - 1, len);
        assert(places =~= places_that_go(messages, budget, i - 1, len));
    } else {
        assert(places =~= Set::empty());
    }
}

/// The user's messages in two conversations are those of each, and a message
/// is among them exactly where the user sent it.
pub proof fn lemma_user_messages_add(a: Seq<MessageModel>, b: Seq<MessageModel>, m: MessageModel)
    ensures
        user_messages(a + b) == user_messages(a) + user_messages(b),
        m.role == Role::User ==> user_messages(seq![m]) == seq![m],
        m.role == Role::Assistant ==> user_messages(seq![m]).len() == 0,
{
    Seq::filter_distributes_over_add(a, b, |m: MessageModel| m.role == Role::User);
    reveal_with_fuel(Seq::filter, 2);
    assert(seq![m].drop_last() =~= Seq::<MessageModel>::empty());
    assert(m.role == Role::User ==> user_messages(seq![m]) =~= seq![m]);
}

/// The summary of messages holds how many the user and the assistant sent, how
/// many tools were used, if any, and how the first five of the user's messages
/// begin.
pub proof fn lemma_messages_summary(messages: Seq<MessageModel>)
    ensures
        ({
            let users = user_messages(messages);
            let first = if users.len() < 5 {
                users
            } else {
                users.take(5)
            };
            let tools = count_in(messages, Counted::ToolUses);
            messages_summary(messages) == "Previous conversation summary:\n\n"@ + ("- "@ + decimal(
                count_in(messages, Counted::Messages(Role::User)),
            ) + " user messages\n"@) + ("- "@ + decimal(
                count_in(messages, Counted::Messages(Role::Assistant)),
            ) + " assistant responses\n"@) + (if tools > 0 {
                "- "@ + decimal(tools) + " tool uses\n"@
            } else {
                Seq::empty()
            }) + "\nKey topics discussed:\n"@ + joined(quote_lines(first))
        }),
{
    let users = user_messages(messages);
    if users.len() == 5 {
        assert(users.take(5) =~= users);
    }
}

/// A quote is the number of the message, counted from one, and the first
/// hundred characters of its text; a message without text has none.
pub proof fn lemma_quotes(users: Seq<MessageModel>, i: int)
    requires
        0 <= i < users.len(),
    ensures
        quote_lines(users).len() == users.len(),
        quote_lines(users)[i] == quote_line(i, users[i]),
        match users[i].text() {
            Some(text) => quote_line(i, users[i]) == decimal((i + 1) as nat) + ". "@ + clipped(
                text,
                100,
            ) + "...\n"@,
            None => quote_line(i, users[i]).len() == 0,
        },
{
}

/// The estimate of two conversations is that of each, and a message counts a
/// quarter of its characters, padded by a third.
pub proof fn lemma_estimates_add(a: Seq<MessageModel>, b: Seq<MessageModel>, m: MessageModel)
    ensures
        conversation_tokens(a + b) == conversation_tokens(a) + conversation_tokens(b),
        3 * conversation_tokens(seq![m]) <= chars_in_message(m) - chars_in_message(m) % 4,
        chars_in_message(m) - chars_in_message(m) % 4 < 3 * (conversation_tokens(seq![m]) + 1),
{
    lemma_sum_add(a, b, message_tokens());
    reveal_with_fuel(sum_of, 2);
    assert(seq![m].drop_last() =~= Seq::<MessageModel>::empty());
}

/// A block without text counts with two hundred characters.
pub proof fn lemma_other_blocks_count(b: BlockModel)
    requires
        b is Image || b is Document || b is Other,
    ensures
        chars_in_block(b) == 200,
{
}

} // verus!
