//! What holds of the functions on text and on sequences.

use crate::seqs::{first_some, joined, sum_of};
use crate::text::{
    clipped, decimal, digits_value, first_word, is_digit, number_in, occurs_at, replaced_from,
    run_end, signed_decimal, utf8_len, white_space,
};
use vstd::prelude::*;
use vstd::utf8::encode_utf8;

verus! {

/// Joining one piece gives the piece.
pub proof fn lemma_joined_one<A>(piece: Seq<A>)
    ensures
        joined(seq![piece]) == piece,
        joined(Seq::<Seq<A>>::empty()) == Seq::<A>::empty(),
{
    reveal_with_fuel(joined, 2);
    assert(seq![piece].drop_last() =~= Seq::<Seq<A>>::empty());
    assert(joined(seq![piece]) =~= piece);
}

/// The sum over one element is its value, and the sum over two parts is the sum
/// of their sums.
pub proof fn lemma_sum_add<A>(a: Seq<A>, b: Seq<A>, f: spec_fn(A) -> nat)
    ensures
        sum_of(a + b, f) == sum_of(a, f) + sum_of(b, f),
        forall|x: A| sum_of(#[trigger] seq![x], f) == f(x),
    decreases b.len(),
{
    if b.len() == 0 {
        assert(a + b =~= a);
    } else {
        lemma_sum_add(a, b.drop_last(), f);
        assert((a + b).drop_last() =~= a + b.drop_last());
    }
    assert forall|x: A| sum_of(#[trigger] seq![x], f) == f(x) by {
        reveal_with_fuel(sum_of, 2);
        assert(seq![x].drop_last() =~= Seq::<A>::empty());
    }
}

/// The first value along a sequence is that of an element before which no
/// other gives one, and there is none only where no element gives one.
pub proof fn lemma_first_some<A, B>(s: Seq<A>, f: spec_fn(A) -> Option<B>)
    ensures
        match first_some(s, f) {
            Some(b) => exists|i: int|
                0 <= i < s.len() && f(#[trigger] s[i]) == Some(b) && forall|k: int|
                    0 <= k < i ==> f(#[trigger] s[k]) is None,
            None => forall|k: int| 0 <= k < s.len() ==> f(#[trigger] s[k]) is None,
        },
    decreases s.len(),
{
    if s.len() > 0 {
        let init = s.drop_last();
        lemma_first_some(init, f);
        match first_some(init, f) {
            Some(b) => {
                let i = choose|i: int|
                    0 <= i < init.len() && f(#[trigger] init[i]) == Some(b) && forall|k: int|
                        0 <= k < i ==> f(#[trigger] init[k]) is None;
                assert(f(s[i]) == Some(b));
                assert forall|k: int| 0 <= k < i implies f(#[trigger] s[k]) is None by {
                    assert(f(init[k]) is None);
                }
            },
            None => {
                assert forall|k: int| 0 <= k < s.len() - 1 implies f(#[trigger] s[k]) is None by {
                    assert(f(init[k]) is None);
                }
                assert(s[s.len() - 1] == s.last());
            },
        }
    }
}

/// A number in decimal: one digit below ten, one digit more for each factor of
/// ten, and no zero in front of other digits.
pub proof fn lemma_decimal_shape(n: nat)
    ensures
        n < 10 ==> decimal(n).len() == 1 && decimal(n)[0] as u32 == '0' as u32 + n,
        forall|d: nat|
            n > 0 && d < 10 ==> #[trigger] decimal(n * 10 + d) == decimal(n).push(decimal(d)[0]),
        n > 0 ==> decimal(n)[0] != '0',
        decimal(n).len() > 0,
    decreases n,
{
    if n >= 10 {
        lemma_decimal_shape(n / 10);
    }
    assert forall|d: nat| n > 0 && d < 10 implies #[trigger] decimal(n * 10 + d) == decimal(
        n,
    ).push(decimal(d)[0]) by {
        assert((n * 10 + d) / 10 == n);
        assert((n * 10 + d) % 10 == d);
    }
}

/// A negative number is a minus sign and its size; others are their size.
pub proof fn lemma_signed_decimal(n: int)
    ensures
        n >= 0 ==> signed_decimal(n) == decimal(n as nat),
        n < 0 ==> signed_decimal(n) == seq!['-'] + decimal((-n) as nat),
{
}

/// A text of one digit is that digit's number.
pub proof fn lemma_digits(d: char)
    ensures
        is_digit(d) <==> '0' <= d <= '9',
        '0' <= d <= '9' ==> number_in(seq![d]) == Some((d as u32 - '0' as u32) as u64),
        !('0' <= d <= '9') ==> number_in(seq![d]) is None,
{
    reveal_with_fuel(digits_value, 2);
    assert(seq![d].drop_last() =~= Seq::<char>::empty());
    assert(seq![d][0] == d);
}

/// The length in bytes is that of the characters together: one to four bytes
/// each.
pub proof fn lemma_utf8_len(a: Seq<char>, b: Seq<char>, c: char)
    ensures
        utf8_len(a + b) == utf8_len(a) + utf8_len(b),
        utf8_len(seq![c]) == (if c as u32 <= 0x7f {
            1nat
        } else if c as u32 <= 0x7ff {
            2
        } else if c as u32 <= 0xffff {
            3
        } else {
            4
        }),
        utf8_len(Seq::empty()) == 0,
    decreases a.len(),
{
    if a.len() == 0 {
        assert(a + b =~= b);
    } else {
        lemma_utf8_len(a.drop_first(), b, c);
        assert((a + b).drop_first() =~= a.drop_first() + b);
        assert((a + b)[0] == a[0]);
    }
    reveal_with_fuel(encode_utf8, 2);
    assert(seq![c].drop_first() =~= Seq::<char>::empty());
}

/// A text is read as a number only where it is made of digits, after a plus
/// sign at most; the plus sign makes no difference, and one digit more is ten
/// times the number and the digit.
pub proof fn lemma_number_in(s: Seq<char>)
    ensures
        s.len() == 0 ==> number_in(s) is None,
        (exists|i: int| 1 <= i < s.len() && !is_digit(#[trigger] s[i])) ==> number_in(s) is None,
        s.len() > 0 && !is_digit(s[0]) && s[0] != '+' ==> number_in(s) is None,
        s.len() > 0 && s[0] != '+' ==> number_in(seq!['+'] + s) == number_in(s),
        forall|d: char|
            is_digit(d) && number_in(s) is Some ==> number_in(#[trigger] s.push(d)) == (if (
            number_in(s)->0) * 10 + (d as u32 - '0' as u32) <= u64::MAX {
                Some(((number_in(s)->0) * 10 + (d as u32 - '0' as u32)) as u64)
            } else {
                None
            }),
{
    let digits = if s.len() > 0 && s[0] == '+' {
        s.skip(1)
    } else {
        s
    };
    if exists|i: int| 1 <= i < s.len() && !is_digit(#[trigger] s[i]) {
        let i = choose|i: int| 1 <= i < s.len() && !is_digit(#[trigger] s[i]);
        if s[0] == '+' {
            assert(!is_digit(digits[i - 1]));
        } else {
            assert(!is_digit(digits[i]));
        }
    }
    if s.len() > 0 && s[0] != '+' {
        assert((seq!['+'] + s).skip(1) =~= s);
    }
    assert forall|d: char| is_digit(d) && number_in(s) is Some implies number_in(
        #[trigger] s.push(d),
    ) == (if (number_in(s)->0) * 10 + (d as u32 - '0' as u32) <= u64::MAX {
        Some(((number_in(s)->0) * 10 + (d as u32 - '0' as u32)) as u64)
    } else {
        None
    }) by {
        let more = s.push(d);
        let more_digits = if more[0] == '+' {
            more.skip(1)
        } else {
            more
        };
        assert(more_digits =~= digits.push(d));
        assert(digits.push(d).drop_last() =~= digits);
        assert forall|i: int| 0 <= i < more_digits.len() implies is_digit(
            #[trigger] more_digits[i],
        ) by {
            if i < digits.len() {
                assert(is_digit(digits[i]));
            }
        }
    }
}

/// A cut text is the start of the text, as long as asked for or all of it.
pub proof fn lemma_clipped(s: Seq<char>, n: nat)
    ensures
        clipped(s, n).len() == (if s.len() <= n {
            s.len()
        } else {
            n
        }),
        clipped(s, n) == s.take(clipped(s, n).len() as int),
{
    assert(s.take(s.len() as int) =~= s);
}

/// A pattern stands at a position exactly where the text is something of that
/// length, the pattern, and a rest.
pub proof fn lemma_occurs_at(before: Seq<char>, pattern: Seq<char>, after: Seq<char>)
    ensures
        occurs_at(before + pattern + after, before.len() as int, pattern),
{
    assert((before + pattern + after).subrange(
        before.len() as int,
        (before.len() + pattern.len()) as int,
    ) =~= pattern);
}

/// Where a pattern stands, the text is what comes before it, the pattern, and
/// what follows.
pub proof fn lemma_occurrence_parts(s: Seq<char>, n: int, pattern: Seq<char>)
    requires
        occurs_at(s, n, pattern),
    ensures
        0 <= n,
        n + pattern.len() <= s.len(),
        s == s.take(n) + pattern + s.skip(n + pattern.len()),
{
    let there = s.subrange(n, n + pattern.len());
    assert(s =~= s.take(n) + there + s.skip(n + pattern.len()));
}

/// Replacing takes the first occurrence, puts the other text in its place, and
/// goes on behind it; a text in which the pattern does not occur stays.
pub proof fn lemma_replaced(s: Seq<char>, n: int, at: int, pattern: Seq<char>, with: Seq<char>)
    requires
        0 <= n <= at <= s.len(),
        pattern.len() > 0,
        forall|k: int| n <= k < at ==> !#[trigger] occurs_at(s, k, pattern),
    ensures
        at == s.len() ==> replaced_from(s, n, pattern, with) == s.subrange(n, at),
        occurs_at(s, at, pattern) ==> replaced_from(s, n, pattern, with) == s.subrange(n, at)
            + with + replaced_from(s, at + pattern.len(), pattern, with),
    decreases at - n,
{
    if n < at {
        assert(!occurs_at(s, n, pattern));
        lemma_replaced(s, n + 1, at, pattern, with);
        assert(s.subrange(n, at) =~= seq![s[n]] + s.subrange(n + 1, at));
        if occurs_at(s, at, pattern) {
            assert(replaced_from(s, n, pattern, with) =~= s.subrange(n, at) + with
                + replaced_from(s, at + pattern.len(), pattern, with));
        }
    } else {
        assert(s.subrange(n, at) =~= Seq::<char>::empty());
        if occurs_at(s, at, pattern) {
            assert(replaced_from(s, n, pattern, with) =~= s.subrange(n, at) + with
                + replaced_from(s, at + pattern.len(), pattern, with));
        }
    }
}

proof fn lemma_run(s: Seq<char>, n: int, space: bool)
    requires
        0 <= n <= s.len(),
    ensures
        n <= run_end(s, n, space) <= s.len(),
        forall|k: int| n <= k < run_end(s, n, space) ==> white_space(#[trigger] s[k]) == space,
        run_end(s, n, space) < s.len() ==> white_space(s[run_end(s, n, space)]) != space,
    decreases s.len() - n,
{
    if n < s.len() && white_space(s[n]) == space {
        lemma_run(s, n + 1, space);
    }
}

/// The first word has only white space before it, none in it, and white space
/// or nothing behind it. A text of white space alone is its own first word.
pub proof fn lemma_first_word(s: Seq<char>)
    ensures
        (forall|k: int| 0 <= k < s.len() ==> white_space(#[trigger] s[k])) ==> first_word(s) == s,
        (exists|k: int| 0 <= k < s.len() && !white_space(#[trigger] s[k])) ==> exists|
            from: int,
            to: int,
        |
            {
                &&& 0 <= from < to <= s.len()
                &&& first_word(s) == #[trigger] s.subrange(from, to)
                &&& forall|k: int| 0 <= k < from ==> white_space(#[trigger] s[k])
                &&& forall|k: int| from <= k < to ==> !white_space(#[trigger] s[k])
                &&& to < s.len() ==> white_space(s[to])
            },
{
    let from = run_end(s, 0, true);
    lemma_run(s, 0, true);
    lemma_run(s, from, false);
    let to = run_end(s, from, false);
    if exists|k: int| 0 <= k < s.len() && !white_space(#[trigger] s[k]) {
        let k = choose|k: int| 0 <= k < s.len() && !white_space(#[trigger] s[k]);
        assert(from <= k);
        assert(first_word(s) == s.subrange(from, to));
    }
}

/// Spaces, tabs and line breaks are white space; visible ASCII is not.
pub proof fn lemma_white_space(c: char)
    ensures
        c == ' ' || c == '\t' || c == '\n' || c == '\r' ==> white_space(c),
        0x21 <= c as u32 <= 0x7e ==> !white_space(c),
{
}

} // verus!
