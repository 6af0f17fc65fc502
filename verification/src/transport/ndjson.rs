//! Messages as lines of JSON.

use crate::clock::{utc_now, Timestamp};
use crate::json::{json_document, JsonError, JsonText};
use crate::seqs::{joined, lemma_joined_push};
use crate::text::{push_signed_decimal, signed_decimal, to_chars};
use vstd::prelude::*;
use vstd::string::StringExecFns;

verus! {

/// A character of a JSON text, where the two separators that some readers
/// take for line breaks are escaped.
pub open spec fn escaped_char(c: char) -> Seq<char> {
    if c == '\u{2028}' {
        "\\u2028"@
    } else if c == '\u{2029}' {
        "\\u2029"@
    } else {
        seq![c]
    }
}

/// The escaped characters.
pub open spec fn escaped_chars(json: Seq<char>) -> Seq<Seq<char>> {
    json.map_values(|c: char| escaped_char(c))
}

/// A JSON text with the separators escaped.
pub open spec fn ndjson(json: Seq<char>) -> Seq<char> {
    joined(escaped_chars(json))
}

/// Makes a JSON text safe for a stream of lines.
pub fn to_ndjson(json: &str) -> (r: String)
    ensures
        r@ == ndjson(json@),
{
    let chars = to_chars(json);
    let ghost pieces = escaped_chars(json@);
    let mut out = String::new();
    let mut i: usize = 0;
    while i < chars.len()
        invariant
            i <= chars.len(),
            chars@ == json@,
            pieces == escaped_chars(json@),
            out@ == joined(pieces.take(i as int)),
        decreases chars.len() - i,
    {
        let ghost before = out@;
        let c = chars[i];
        if c == '\u{2028}' {
            out.append("\\u2028");
        } else if c == '\u{2029}' {
            out.append("\\u2029");
        } else {
            out.push(c);
        }
        proof {
            assert(pieces[i as int] == escaped_char(c));
            assert(out@ =~= before + pieces[i as int]);
            assert(pieces.take(i + 1) =~= pieces.take(i as int).push(pieces[i as int]));
            lemma_joined_push(pieces.take(i as int), pieces[i as int]);
        }
        i += 1;
    }
    assert(pieces.take(i as int) =~= pieces);
    out
}

/// Whether a text holds no separator that some readers take for a line break.
pub open spec fn separator_free(s: Seq<char>) -> bool {
    forall|i: int| 0 <= i < s.len() ==> #[trigger] s[i] != '\u{2028}' && s[i] != '\u{2029}'
}

/// Whether a text holds no line break.
pub open spec fn single_line(s: Seq<char>) -> bool {
    forall|i: int| 0 <= i < s.len() ==> #[trigger] s[i] != '\n'
}

/// No separator is left, a text on one line stays on one line, and a text
/// without separators stays as it is.
pub proof fn lemma_ndjson_safe(json: Seq<char>)
    ensures
        separator_free(ndjson(json)),
        single_line(json) ==> single_line(ndjson(json)),
        separator_free(json) ==> ndjson(json) == json,
    decreases json.len(),
{
    reveal_strlit("\\u2028");
    reveal_strlit("\\u2029");
    if json.len() > 0 {
        let init = json.drop_last();
        lemma_ndjson_safe(init);
        assert(escaped_chars(json).drop_last() =~= escaped_chars(init));
        let last = escaped_char(json.last());
        let whole = ndjson(json);
        assert(whole == ndjson(init) + last);
        assert forall|i: int| 0 <= i < whole.len() implies #[trigger] whole[i] != '\u{2028}'
            && whole[i] != '\u{2029}' by {
            if i < ndjson(init).len() {
                assert(whole[i] == ndjson(init)[i]);
            } else {
                assert(whole[i] == last[i - ndjson(init).len()]);
            }
        }
        if single_line(json) {
            assert forall|i: int| 0 <= i < init.len() implies #[trigger] init[i] != '\n' by {
                assert(json[i] != '\n');
            }
            assert(json[json.len() - 1] != '\n');
            assert forall|i: int| 0 <= i < whole.len() implies #[trigger] whole[i] != '\n' by {
                if i < ndjson(init).len() {
                    assert(whole[i] == ndjson(init)[i]);
                } else {
                    assert(whole[i] == last[i - ndjson(init).len()]);
                }
            }
        }
        if separator_free(json) {
            assert forall|i: int| 0 <= i < init.len() implies #[trigger] init[i] != '\u{2028}'
                && init[i] != '\u{2029}' by {
                assert(json[i] != '\u{2028}');
            }
            assert(json[json.len() - 1] != '\u{2028}');
            assert(whole =~= json);
        }
    } else {
        assert(ndjson(json) =~= json);
    }
}

/// Makes the line that carries a message from the JSON text written for it.
/// The line reads as the same document, holds no separator, and is one line
/// where the text was.
pub fn message_line(json: &str) -> (r: Result<String, JsonError>)
    ensures
        r is Ok <==> json_document(json@) is Some,
        r matches Ok(line) ==> {
            &&& line@ == ndjson(json@)
            &&& json_document(line@) == json_document(json@)
            &&& separator_free(line@)
            &&& single_line(json@) ==> single_line(line@)
        },
{
    proof {
        lemma_ndjson_safe(json@);
    }
    match JsonText::parse(json) {
        Ok(_) => Ok(to_ndjson(json)),
        Err(e) => Err(e),
    }
}

/// Makes the line that carries a document: one line without separators, which
/// reads as the document's own text does.
pub fn document_line(document: &JsonText) -> (r: String)
    ensures
        r@ == ndjson(document@),
        single_line(r@),
        separator_free(r@),
        json_document(r@) == json_document(document@),
{
    let text = document.as_text();
    proof {
        lemma_ndjson_safe(document@);
    }
    to_ndjson(text)
}

/// An event with the time it was sent at.
pub open spec fn envelope(document: Seq<char>, millis: int) -> Seq<char> {
    "{\"event\":"@ + document + ",\"ts\":"@ + signed_decimal(millis) + "}"@
}

/// Puts a document in an envelope.
pub fn event_envelope(document: &JsonText, millis: i64) -> (r: String)
    ensures
        r@ == envelope(document@, millis as int),
{
    let mut out = "{\"event\":".to_owned();
    out.append(document.as_text());
    out.append(",\"ts\":");
    push_signed_decimal(&mut out, millis);
    out.append("}");
    out
}

/// The body that posts an event: the document of a JSON line in an envelope.
pub fn event_body(line: &str, millis: i64) -> (r: Result<String, JsonError>)
    ensures
        match json_document(line@) {
            Some(document) => r matches Ok(body) && body@ == envelope(document, millis as int),
            None => r is Err,
        },
{
    match JsonText::parse(line) {
        Ok(document) => Ok(event_envelope(&document, millis)),
        Err(e) => Err(e),
    }
}

/// The body that posts a message now: the document of its JSON text, sent as
/// a safe line, in an envelope with the current time.
pub fn message_body(json: &str) -> (r: Result<String, JsonError>)
    ensures
        match json_document(json@) {
            Some(document) => r matches Ok(body) && exists|now: Timestamp|
                #[trigger] now.in_calendar() && body@ == envelope(document, now.millis()),
            None => r is Err,
        },
{
    match message_line(json) {
        Ok(line) => {
            let now = utc_now();
            let r = event_body(line.as_str(), now.unix_millis());
            assert(now.in_calendar());
            r
        },
        Err(e) => Err(e),
    }
}

} // verus!
