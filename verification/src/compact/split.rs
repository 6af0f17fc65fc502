//! Where to split a conversation for compaction.

use crate::compact::estimate::{
    chars_in, chars_in_message, estimate_message_chars, MEDIA_CHARS, OTHER_CHARS,
};
use crate::compact::threshold::KEEP_RECENT_MESSAGES;
use crate::estimate::lemma_total_chars_split;
use crate::seqs::{lemma_sum_prefix, lemma_sum_step, sum_of};
use crate::types::{messages_view, Message, MessageModel};
use vstd::prelude::*;

verus! {

/// The tokens of a message: a quarter of its characters.
pub open spec fn quarter_tokens() -> spec_fn(MessageModel) -> nat {
    |m: MessageModel| chars_in_message(m) / 4
}

/// The tokens of the messages from `from` up to, not including, `to`.
pub open spec fn span_tokens(messages: Seq<MessageModel>, from: int, to: int) -> nat {
    sum_of(messages.subrange(from, to), quarter_tokens())
}

/// Whether the conversation may be cut before message `index`: not where the
/// message before it uses a tool. What answers a tool use thus stays with it,
/// and no tool use that is still to be answered is cut off.
pub open spec fn safe_cut(messages: Seq<MessageModel>, index: int) -> bool {
    0 < index < messages.len() ==> messages[index - 1].tool_uses().len() == 0
}

/// The last safe cut that is not after `index`.
pub open spec fn safe_index(messages: Seq<MessageModel>, index: int) -> int
    decreases index,
{
    if index <= 0 || safe_cut(messages, index) {
        index
    } else {
        safe_index(messages, index - 1)
    }
}

/// A safe cut is found, at the index or before it, and none between.
pub proof fn lemma_safe_index(messages: Seq<MessageModel>, index: int)
    requires
        0 <= index,
    ensures
        0 <= safe_index(messages, index) <= index,
        safe_cut(messages, safe_index(messages, index)),
        forall|k: int|
            safe_index(messages, index) < k <= index ==> !#[trigger] safe_cut(messages, k),
    decreases index,
{
    if index > 0 && !safe_cut(messages, index) {
        lemma_safe_index(messages, index - 1);
    }
}

/// A safe cut never parts a tool use from the result that follows it.
pub proof fn lemma_results_stay(messages: Seq<MessageModel>, index: int, use_at: int)
    requires
        0 <= index,
        0 <= use_at < messages.len() - 1,
        messages[use_at].tool_uses().len() > 0,
        messages[use_at + 1].tool_results().len() > 0,
    ensures
        safe_index(messages, index) != use_at + 1,
{
    lemma_safe_index(messages, index);
}

/// Adjusts an index to preserve API invariants (no orphaned tool use).
pub fn adjust_index_to_preserve_invariants(messages: &[Message], index: usize) -> (r: usize)
    ensures
        r == safe_index(messages_view(messages@), index as int),
{
    let ghost model = messages_view(messages@);
    let mut at: usize = index;
    while at > 0 && at < messages.len()
        invariant_except_break
            safe_index(model, index as int) == safe_index(model, at as int),
        invariant
            model == messages_view(messages@),
        ensures
            at == safe_index(model, index as int),
        decreases at,
    {
        let prev_has_tool_use: bool = messages[at - 1].get_tool_use_blocks().len() > 0;
        proof {
            assert(model[at - 1] == messages@[at - 1]@);
        }
        if prev_has_tool_use {
            at -= 1;
        } else {
            break;
        }
    }
    at
}

/// The halving search for a split point between `low` and `high`: a point up
/// to which the messages from `start` on hold at least `min` and at most `max`
/// tokens, or else the last point tried that held too few.
pub open spec fn split_search(
    messages: Seq<MessageModel>,
    start: int,
    min: nat,
    max: nat,
    low: int,
    high: int,
    best: int,
) -> int
    decreases high - low + 1,
{
    if low > high {
        best
    } else {
        let mid = low + (high - low) / 2;
        let tokens = span_tokens(messages, start, mid);
        if min <= tokens <= max {
            mid
        } else if tokens < min {
            split_search(messages, start, min, max, mid + 1, high, mid)
        } else if mid > 0 {
            split_search(messages, start, min, max, low, mid - 1, best)
        } else {
            best
        }
    }
}

/// The split point that the search finds among all that keep the recent
/// messages.
pub open spec fn split_point(messages: Seq<MessageModel>, start: int, min: nat, max: nat) -> int {
    split_search(
        messages,
        start,
        min,
        max,
        start,
        messages.len() - KEEP_RECENT_MESSAGES,
        start,
    )
}

/// The index at which to split: zero where there are too few messages or too
/// few tokens, else a safe cut at the split point or before it.
pub open spec fn keep_index(messages: Seq<MessageModel>, start: int, min: nat, max: nat) -> int {
    if messages.len() < KEEP_RECENT_MESSAGES * 2 {
        0
    } else if span_tokens(messages, start, messages.len() as int) < min {
        0
    } else {
        safe_index(messages, split_point(messages, start, min, max))
    }
}

proof fn lemma_span_grows(messages: Seq<MessageModel>, start: int, a: int, b: int)
    requires
        0 <= start <= a <= b <= messages.len(),
    ensures
        span_tokens(messages, start, a) <= span_tokens(messages, start, b),
{
    let tail = messages.skip(start);
    assert(tail.take(a - start) =~= messages.subrange(start, a));
    assert(tail.take(b - start) =~= messages.subrange(start, b));
    lemma_sum_prefix(tail, quarter_tokens(), a - start, b - start);
}

/// The search stays in its range, finds a point within the token limits
/// wherever there is one, and else gives the last point with too few tokens.
proof fn lemma_split_search(
    messages: Seq<MessageModel>,
    start: int,
    min: nat,
    max: nat,
    low: int,
    high: int,
    best: int,
)
    requires
        0 <= start <= low,
        high <= messages.len(),
        start <= best <= messages.len(),
        low <= high + 1 || best == start,
        best == low - 1 && span_tokens(messages, start, best) < min || best == start && low
            == start,
    ensures
        ({
            let r = split_search(messages, start, min, max, low, high, best);
            &&& r == best || low <= r <= high
            &&& (exists|k: int|
                low <= k <= high && min <= #[trigger] span_tokens(messages, start, k) <= max)
                ==> min <= span_tokens(messages, start, r) <= max
            &&& !(min <= span_tokens(messages, start, r) <= max && low <= r <= high) ==> {
                &&& r == start || span_tokens(messages, start, r) < min
                &&& forall|k: int|
                    r < k <= high ==> #[trigger] span_tokens(messages, start, k) >= min
            }
        }),
    decreases high - low + 1,
{
    if low <= high {
        let mid = low + (high - low) / 2;
        let tokens = span_tokens(messages, start, mid);
        if min <= tokens <= max {
        } else if tokens < min {
            lemma_split_search(messages, start, min, max, mid + 1, high, mid);
            assert forall|k: int|
                low <= k <= high && min <= #[trigger] span_tokens(
                    messages,
                    start,
                    k,
                ) <= max implies mid + 1 <= k by {
                if k <= mid {
                    lemma_span_grows(messages, start, k, mid);
                }
            }
        } else {
            assert forall|k: int| mid <= k <= high implies #[trigger] span_tokens(
                messages,
                start,
                k,
            ) >= tokens by {
                lemma_span_grows(messages, start, mid, k);
            }
            if mid > 0 {
                lemma_split_search(messages, start, min, max, low, mid - 1, best);
            }
        }
    }
}

/// The split point keeps the recent messages unless the search starts after
/// them. It is within the token limits wherever a split that keeps the recent
/// messages is; else no later split holds too few tokens, and it holds too few
/// itself or is the start.
pub proof fn lemma_split_point(messages: Seq<MessageModel>, start: int, min: nat, max: nat)
    requires
        0 <= start <= messages.len(),
        KEEP_RECENT_MESSAGES <= messages.len(),
    ensures
        ({
            let r = split_point(messages, start, min, max);
            let high = messages.len() - KEEP_RECENT_MESSAGES;
            &&& start <= r
            &&& r <= high || r == start
            &&& (exists|k: int|
                start <= k <= high && min <= #[trigger] span_tokens(messages, start, k) <= max)
                ==> min <= span_tokens(messages, start, r) <= max
            &&& !(min <= span_tokens(messages, start, r) <= max) ==> {
                &&& r == start || span_tokens(messages, start, r) < min
                &&& forall|k: int|
                    r < k <= high ==> #[trigger] span_tokens(messages, start, k) >= min
            }
        }),
{
    lemma_split_search(
        messages,
        start,
        min,
        max,
        start,
        messages.len() - KEEP_RECENT_MESSAGES,
        start,
    );
}

/// The index never splits off more than all but the recent messages, unless
/// the search starts after them, and it is a safe cut.
pub proof fn lemma_keep_index(messages: Seq<MessageModel>, start: int, min: nat, max: nat)
    requires
        0 <= start <= messages.len(),
    ensures
        0 <= keep_index(messages, start, min, max),
        keep_index(messages, start, min, max) <= messages.len() - KEEP_RECENT_MESSAGES
            || keep_index(messages, start, min, max) <= start,
        safe_cut(messages, keep_index(messages, start, min, max)),
{
    if messages.len() >= KEEP_RECENT_MESSAGES * 2 {
        lemma_split_point(messages, start, min, max);
        lemma_safe_index(messages, split_point(messages, start, min, max));
    }
}

/// Counts the tokens of the messages from `from` up to, not including, `to`.
fn count_span_tokens(messages: &[Message], from: usize, to: usize) -> (r: u64)
    requires
        from <= to <= messages@.len(),
        chars_in(messages_view(messages@)) <= usize::MAX,
    ensures
        r == span_tokens(messages_view(messages@), from as int, to as int),
{
    let ghost model = messages_view(messages@);
    let ghost span = model.subrange(from as int, to as int);
    let mut sum: u64 = 0;
    let mut i: usize = from;
    while i < to
        invariant
            from <= i <= to <= messages@.len(),
            model == messages_view(messages@),
            span == model.subrange(from as int, to as int),
            chars_in(model) <= usize::MAX,
            sum == sum_of(span.take(i - from), quarter_tokens()),
            sum <= chars_in(model.take(i as int)),
        decreases to - i,
    {
        proof {
            lemma_sum_step(span, quarter_tokens(), i - from);
            assert(model.take(i + 1).drop_last() =~= model.take(i as int));
            assert(model.take(i + 1).last() == messages@[i as int]@);
            lemma_total_chars_split(model, i + 1, MEDIA_CHARS as nat, OTHER_CHARS as nat);
        }
        let chars: usize = estimate_message_chars(&messages[i]);
        sum += chars as u64 / 4;
        i += 1;
    }
    proof {
        assert(span.take(to - from) =~= span);
    }
    sum
}

/// Calculates the index at which to split messages for compaction.
pub fn calculate_messages_to_keep_index(
    messages: &[Message],
    last_summarized_index: Option<usize>,
    min_tokens: u64,
    max_tokens: u64,
) -> (r: usize)
    requires
        messages@.len() >= KEEP_RECENT_MESSAGES * 2 ==> {
            &&& last_summarized_index matches Some(start) ==> start <= messages@.len()
            &&& chars_in(messages_view(messages@)) <= usize::MAX
        },
    ensures
        r == keep_index(
            messages_view(messages@),
            (match last_summarized_index {
                Some(start) => start as int,
                None => 0,
            }),
            min_tokens as nat,
            max_tokens as nat,
        ),
{
    if messages.len() < KEEP_RECENT_MESSAGES * 2 {
        return 0;
    }
    let ghost model = messages_view(messages@);
    let start: usize = match last_summarized_index {
        Some(at) => at,
        None => 0,
    };
    let total: u64 = count_span_tokens(messages, start, messages.len());
    if total < min_tokens {
        return 0;
    }
    let mut low: usize = start;
    let mut high: usize = messages.len() - KEEP_RECENT_MESSAGES;
    let mut best: usize = start;
    while low <= high
        invariant_except_break
            split_point(model, start as int, min_tokens as nat, max_tokens as nat) == split_search(
                model,
                start as int,
                min_tokens as nat,
                max_tokens as nat,
                low as int,
                high as int,
                best as int,
            ),
            high < messages@.len() <= usize::MAX,
        invariant
            model == messages_view(messages@),
            start <= low,
            chars_in(model) <= usize::MAX,
        ensures
            best == split_point(model, start as int, min_tokens as nat, max_tokens as nat),
        decreases high + 1 - low,
    {
        let mid: usize = low + (high - low) / 2;
        let tokens: u64 = count_span_tokens(messages, start, mid);
        if tokens >= min_tokens && tokens <= max_tokens {
            best = mid;
            break;
        } else if tokens < min_tokens {
            low = mid + 1;
            best = mid;
        } else if mid > 0 {
            high = mid - 1;
        } else {
            break;
        }
    }
    adjust_index_to_preserve_invariants(messages, best)
}

} // verus!
