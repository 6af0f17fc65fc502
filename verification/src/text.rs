//! Text as sequences of characters: lengths, numbers, cutting and joining.

use vstd::prelude::*;
use vstd::string::StringExecFns;
use vstd::utf8::{decode_utf8, encode_utf8, valid_utf8};

verus! {

/// `String::push`: the character is added at the end.
pub assume_specification[ String::push ](s: &mut String, c: char)
    ensures
        final(s)@ == old(s)@.push(c),
;

/// The view of an optional text.
pub open spec fn opt_text(s: Option<String>) -> Option<Seq<char>> {
    match s {
        Some(t) => Some(t@),
        None => None,
    }
}

/// A copy of an optional text.
pub fn clone_opt_text(s: &Option<String>) -> (r: Option<String>)
    ensures
        opt_text(r) == opt_text(*s),
{
    match s {
        Some(t) => Some(t.clone()),
        None => None,
    }
}

/// How many bytes a text takes in UTF-8.
pub open spec fn utf8_len(s: Seq<char>) -> nat {
    encode_utf8(s).len()
}

/// The length of a text in bytes.
pub fn byte_len(s: &str) -> (n: usize)
    ensures
        n == utf8_len(s@),
{
    s.as_bytes().len()
}

/// `String::from_utf8`: gives the text exactly where the bytes are valid
/// UTF-8, and it is what they encode.
#[verifier::external_body]
pub(crate) fn utf8_text(bytes: Vec<u8>) -> (r: Option<String>)
    ensures
        match r {
            Some(s) => valid_utf8(bytes@) && s@ == decode_utf8(bytes@),
            None => !valid_utf8(bytes@),
        },
{
    String::from_utf8(bytes).ok()
}

/// The characters of a text.
pub fn to_chars(s: &str) -> (v: Vec<char>)
    ensures
        v@ == s@,
{
    let mut v: Vec<char> = Vec::new();
    for c in it: s.chars()
        invariant
            it.seq() == s@,
            v@ == it.seq().take(it.index() as int),
    {
        v.push(c);
    }
    v
}

/// The text made of the characters from `from` up to, not including, `to`.
pub fn from_chars(v: &[char], from: usize, to: usize) -> (s: String)
    requires
        from <= to <= v@.len(),
    ensures
        s@ == v@.subrange(from as int, to as int),
{
    let mut s = String::new();
    let mut i: usize = from;
    while i < to
        invariant
            from <= i <= to <= v@.len(),
            s@ == v@.subrange(from as int, i as int),
        decreases to - i,
    {
        s.push(v[i]);
        i += 1;
    }
    s
}

/// The decimal digit of `d`, for `d` below ten.
pub open spec fn digit(d: nat) -> char {
    (('0' as u32) + d) as char
}

/// A natural number in decimal, without leading zeros.
pub open spec fn decimal(n: nat) -> Seq<char>
    decreases n,
{
    if n < 10 {
        seq![digit(n)]
    } else {
        decimal(n / 10).push(digit(n % 10))
    }
}

/// Adds a number in decimal at the end of a text.
pub fn push_decimal(out: &mut String, n: u64)
    ensures
        final(out)@ == old(out)@ + decimal(n as nat),
    decreases n,
{
    if n >= 10 {
        push_decimal(out, n / 10);
    }
    let d: u8 = (n % 10) as u8;
    let c: char = (48u8 + d) as char;
    out.push(c);
}

/// The characters with the Unicode property `White_Space`.
pub open spec fn white_space(c: char) -> bool {
    let u = c as u32;
    ||| 0x09 <= u <= 0x0d
    ||| u == 0x20
    ||| u == 0x85
    ||| u == 0xa0
    ||| u == 0x1680
    ||| 0x2000 <= u <= 0x200a
    ||| u == 0x2028
    ||| u == 0x2029
    ||| u == 0x202f
    ||| u == 0x205f
    ||| u == 0x3000
}

/// Whether a character is white space.
pub fn is_white_space(c: char) -> (r: bool)
    ensures
        r == white_space(c),
{
    let u: u32 = c as u32;
    (0x09 <= u && u <= 0x0d) || u == 0x20 || u == 0x85 || u == 0xa0 || u == 0x1680 || (0x2000 <= u
        && u <= 0x200a) || u == 0x2028 || u == 0x2029 || u == 0x202f || u == 0x205f || u == 0x3000
}

/// Where the run of white space (`space`), or of other characters (`!space`),
/// that starts at position `n` ends.
pub open spec fn run_end(s: Seq<char>, n: int, space: bool) -> int
    decreases s.len() - n,
{
    if 0 <= n < s.len() && white_space(s[n]) == space {
        run_end(s, n + 1, space)
    } else {
        n
    }
}

/// The first word of a text: its first run of characters that are not white
/// space. A text without one is its own first word.
pub open spec fn first_word(s: Seq<char>) -> Seq<char> {
    let from = run_end(s, 0, true);
    let to = run_end(s, from, false);
    if from < s.len() {
        s.subrange(from, to)
    } else {
        s
    }
}

fn find_run_end(v: &[char], n: usize, space: bool) -> (r: usize)
    requires
        n <= v@.len(),
    ensures
        n <= r <= v@.len(),
        r == run_end(v@, n as int, space),
{
    let mut i: usize = n;
    while i < v.len() && is_white_space(v[i]) == space
        invariant
            n <= i <= v@.len(),
            run_end(v@, n as int, space) == run_end(v@, i as int, space),
        decreases v@.len() - i,
    {
        i += 1;
    }
    i
}

/// Finds the first word of a text.
pub fn word(s: &str) -> (r: String)
    ensures
        r@ == first_word(s@),
{
    let v = to_chars(s);
    let from: usize = find_run_end(v.as_slice(), 0, true);
    if from < v.len() {
        let to: usize = find_run_end(v.as_slice(), from, false);
        from_chars(v.as_slice(), from, to)
    } else {
        s.to_owned()
    }
}

/// The first `n` characters of a text, or all of it where it has no more.
pub open spec fn clipped(s: Seq<char>, n: nat) -> Seq<char> {
    if s.len() <= n {
        s
    } else {
        s.take(n as int)
    }
}

/// Cuts a text after `n` characters.
pub fn clip(s: &str, n: usize) -> (r: String)
    ensures
        r@ == clipped(s@, n as nat),
{
    let v = to_chars(s);
    if v.len() <= n {
        s.to_owned()
    } else {
        from_chars(v.as_slice(), 0, n)
    }
}

/// Whether a pattern stands at position `n` of a text.
pub open spec fn occurs_at(s: Seq<char>, n: int, pattern: Seq<char>) -> bool {
    &&& 0 <= n
    &&& n + pattern.len() <= s.len()
    &&& s.subrange(n, n + pattern.len()) == pattern
}

fn find_at(s: &[char], n: usize, pattern: &[char]) -> (r: bool)
    requires
        n <= s@.len(),
    ensures
        r == occurs_at(s@, n as int, pattern@),
{
    let total: usize = s.len();
    if total - n < pattern.len() {
        return false;
    }
    let mut i: usize = 0;
    while i < pattern.len()
        invariant
            i <= pattern@.len(),
            n + pattern@.len() <= total == s@.len(),
            forall|k: int| 0 <= k < i ==> s@[n + k] == #[trigger] pattern@[k],
        decreases pattern@.len() - i,
    {
        if s[n + i] != pattern[i] {
            assert(s@.subrange(n as int, n + pattern@.len())[i as int] != pattern@[i as int]);
            return false;
        }
        i += 1;
    }
    assert(s@.subrange(n as int, n + pattern@.len()) =~= pattern@);
    true
}

/// Whether a text begins with another.
pub fn starts_with(s: &str, prefix: &str) -> (r: bool)
    ensures
        r == occurs_at(s@, 0, prefix@),
{
    find_at(to_chars(s).as_slice(), 0, to_chars(prefix).as_slice())
}

/// A text from position `n` on, with every occurrence of a pattern, from the
/// left and without overlap, replaced.
pub open spec fn replaced_from(
    s: Seq<char>,
    n: int,
    pattern: Seq<char>,
    with: Seq<char>,
) -> Seq<char>
    decreases s.len() - n,
{
    if n < 0 || n >= s.len() || pattern.len() == 0 {
        Seq::empty()
    } else if occurs_at(s, n, pattern) {
        with + replaced_from(s, n + pattern.len(), pattern, with)
    } else {
        seq![s[n]] + replaced_from(s, n + 1, pattern, with)
    }
}

/// Replaces every occurrence of a pattern in a text.
pub fn replace_all(s: &str, pattern: &str, with: &str) -> (r: String)
    requires
        pattern@.len() > 0,
    ensures
        r@ == replaced_from(s@, 0, pattern@, with@),
{
    let text = to_chars(s);
    let wanted = to_chars(pattern);
    let mut r = String::new();
    let mut i: usize = 0;
    assert(r@ + replaced_from(s@, 0, pattern@, with@) =~= replaced_from(s@, 0, pattern@, with@));
    while i < text.len()
        invariant
            i <= text.len(),
            text@ == s@,
            wanted@ == pattern@,
            pattern@.len() > 0,
            r@ + replaced_from(s@, i as int, pattern@, with@) == replaced_from(
                s@,
                0,
                pattern@,
                with@,
            ),
        decreases text.len() - i,
    {
        let ghost before = r@;
        if find_at(text.as_slice(), i, wanted.as_slice()) {
            let ghost rest = replaced_from(s@, i + pattern@.len(), pattern@, with@);
            r.append(with);
            assert(r@ + rest =~= before + (with@ + rest));
            i += wanted.len();
        } else {
            let ghost rest = replaced_from(s@, i + 1, pattern@, with@);
            r.push(text[i]);
            assert(r@ + rest =~= before + (seq![text@[i as int]] + rest));
            i += 1;
        }
    }
    assert(r@ + replaced_from(s@, i as int, pattern@, with@) =~= r@);
    r
}

/// A whole number in decimal.
pub open spec fn signed_decimal(n: int) -> Seq<char> {
    if n < 0 {
        seq!['-'] + decimal((-n) as nat)
    } else {
        decimal(n as nat)
    }
}

/// Adds a whole number in decimal at the end of a text.
pub fn push_signed_decimal(out: &mut String, n: i64)
    ensures
        final(out)@ == old(out)@ + signed_decimal(n as int),
{
    let ghost start = out@;
    if n < 0 {
        out.push('-');
        let size: u64 = (-(n as i128)) as u64;
        push_decimal(out, size);
        assert(out@ =~= start + signed_decimal(n as int));
    } else {
        push_decimal(out, n as u64);
    }
}

/// Whether a character is a decimal digit.
pub open spec fn is_digit(c: char) -> bool {
    '0' <= c <= '9'
}

/// Whether all characters are decimal digits.
pub open spec fn all_digits(s: Seq<char>) -> bool {
    forall|i: int| 0 <= i < s.len() ==> is_digit(#[trigger] s[i])
}

/// The number that decimal digits stand for.
pub open spec fn digits_value(s: Seq<char>) -> nat
    decreases s.len(),
{
    if s.len() == 0 {
        0
    } else {
        (digits_value(s.drop_last()) * 10 + (s.last() as u32 - '0' as u32)) as nat
    }
}

/// The number that a text stands for, where it is one in decimal, with an
/// optional plus sign, and a `u64`.
pub open spec fn number_in(s: Seq<char>) -> Option<u64> {
    let digits = if s.len() > 0 && s[0] == '+' {
        s.skip(1)
    } else {
        s
    };
    if digits.len() > 0 && all_digits(digits) && digits_value(digits) <= u64::MAX {
        Some(digits_value(digits) as u64)
    } else {
        None
    }
}

proof fn lemma_digits_value_grows(s: Seq<char>, n: int)
    requires
        0 <= n <= s.len(),
        all_digits(s),
    ensures
        digits_value(s.take(n)) <= digits_value(s),
    decreases s.len() - n,
{
    if n < s.len() {
        assert(s.take(n + 1).drop_last() =~= s.take(n));
        assert(is_digit(s[n]));
        lemma_digits_value_grows(s, n + 1);
    } else {
        assert(s.take(n) =~= s);
    }
}

/// Reads a number.
pub fn parse_u64(s: &str) -> (r: Option<u64>)
    ensures
        r == number_in(s@),
{
    let text = to_chars(s);
    let from: usize = if text.len() > 0 && text[0] == '+' {
        1
    } else {
        0
    };
    let ghost digits = text@.skip(from as int);
    proof {
        if from == 0 {
            assert(digits =~= text@);
        }
    }
    if from == text.len() {
        return None;
    }
    let mut bad: bool = false;
    let mut k: usize = from;
    while k < text.len()
        invariant
            from <= k <= text.len(),
            digits == text@.skip(from as int),
            bad == !all_digits(digits.take(k - from)),
        decreases text.len() - k,
    {
        let c = text[k];
        let ok: bool = '0' <= c && c <= '9';
        proof {
            let next = digits.take(k - from + 1);
            let done = digits.take(k - from);
            assert(next[k - from] == c);
            assert(forall|i: int| 0 <= i < done.len() ==> done[i] == #[trigger] next[i]);
            if all_digits(next) {
                assert(all_digits(done)) by {
                    assert forall|i: int| 0 <= i < done.len() implies is_digit(
                        #[trigger] done[i],
                    ) by {
                        assert(is_digit(next[i]));
                    }
                }
                assert(is_digit(next[k - from]));
            }
            if all_digits(done) && ok {
                assert forall|i: int| 0 <= i < next.len() implies is_digit(
                    #[trigger] next[i],
                ) by {
                    if i < done.len() {
                        assert(is_digit(done[i]));
                    }
                }
            }
        }
        if !ok {
            bad = true;
        }
        k += 1;
    }
    assert(digits.take(k - from) =~= digits);
    if bad {
        return None;
    }
    let mut value: u64 = 0;
    let mut i: usize = from;
    while i < text.len()
        invariant
            from <= i <= text.len(),
            digits == text@.skip(from as int),
            all_digits(digits),
            digits.len() > 0,
            digits == (if s@.len() > 0 && s@[0] == '+' {
                s@.skip(1)
            } else {
                s@
            }),
            value == digits_value(digits.take(i - from)),
        decreases text.len() - i,
    {
        proof {
            assert(digits.take(i - from + 1).drop_last() =~= digits.take(i - from));
            assert(is_digit(digits[i - from]));
            lemma_digits_value_grows(digits, i - from + 1);
        }
        let d: u64 = (text[i] as u32 - '0' as u32) as u64;
        match value.checked_mul(10) {
            Some(tens) => match tens.checked_add(d) {
                Some(v) => {
                    value = v;
                },
                None => {
                    return None;
                },
            },
            None => {
                return None;
            },
        }
        i += 1;
    }
    assert(digits.take(i - from) =~= digits);
    Some(value)
}

/// A number written in decimal is read back.
pub proof fn lemma_decimal_read_back(n: u64)
    ensures
        number_in(decimal(n as nat)) == Some(n),
{
    lemma_decimal_digits(n as nat);
    let s = decimal(n as nat);
    assert(is_digit(s[0]));
}

proof fn lemma_decimal_digits(n: nat)
    ensures
        decimal(n).len() > 0,
        all_digits(decimal(n)),
        digits_value(decimal(n)) == n,
    decreases n,
{
    let s = decimal(n);
    if n < 10 {
        assert(s.drop_last() =~= Seq::<char>::empty());
        assert(is_digit(s[0]));
        assert(digits_value(s) == n) by {
            reveal_with_fuel(digits_value, 2);
        }
    } else {
        let init = decimal(n / 10);
        lemma_decimal_digits(n / 10);
        assert(s.drop_last() =~= init);
        assert forall|i: int| 0 <= i < s.len() implies is_digit(#[trigger] s[i]) by {
            if i < init.len() {
                assert(is_digit(init[i]));
            }
        }
    }
}

} // verus!
