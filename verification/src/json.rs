//! JSON documents, kept as the text that `serde_json` writes for them.

use crate::text::opt_text;
use crate::transport::ndjson::{ndjson, single_line};
use vstd::prelude::*;

verus! {

/// `serde_json::Error`, carried through without being looked into.
#[verifier::external_type_specification]
#[verifier::external_body]
pub struct ExSerdeJsonError(serde_json::Error);

/// What `serde_json::from_str::<serde_json::Value>` reads from a text, as the
/// compact text that `serde_json` writes for the value; `None` where the text
/// is no JSON document.
pub uninterp spec fn json_document(text: Seq<char>) -> Option<Seq<char>>;

/// What `serde_json::Value::get` gives for a key of the document written in
/// `text`, as compact text; `None` where the text is no JSON document, where
/// the document is no object, or where it has no such key.
pub uninterp spec fn json_member(text: Seq<char>, key: Seq<char>) -> Option<Seq<char>>;

/// What `serde_json::Value::as_str` gives for the document written in `text`;
/// `None` where the text is no JSON document or the document no string.
pub uninterp spec fn json_string(text: Seq<char>) -> Option<Seq<char>>;

/// What holds of every compact text of a document: it is one line, and it reads
/// the same where its separators are written as escapes.
pub open spec fn written_document(text: Seq<char>) -> bool {
    &&& single_line(text)
    &&& json_document(ndjson(text)) == json_document(text)
}

/// `serde_json::from_str`: succeeds exactly on the texts that
/// [`json_document`] gives a document for, and that document, written
/// compactly, is the result. Where it succeeds, the line and the paragraph
/// separator stand only inside strings, and a string reads the same where they
/// are written as escapes: the escaped text gives the same document. The same
/// holds of the compact text, which has no line break in it.
#[verifier::external_body]
fn read_document(text: &str) -> (r: Result<String, serde_json::Error>)
    ensures
        r is Ok <==> json_document(text@) is Some,
        r matches Ok(s) ==> json_document(text@) == Some(s@),
        r matches Ok(s) ==> json_document(ndjson(text@)) == Some(s@),
        r matches Ok(s) ==> written_document(s@),
{
    let value: serde_json::Value = serde_json::from_str(text)?;
    Ok(value.to_string())
}

/// `serde_json::Value::get` with a string key, on the document read from
/// `text`: the result is [`json_member`]. It is compact text as `serde_json`
/// writes it: without a line break, and read the same where its separators
/// are written as escapes.
#[verifier::external_body]
fn read_member(text: &str, key: &str) -> (r: Option<String>)
    ensures
        opt_text(r) == json_member(text@, key@),
        r matches Some(s) ==> written_document(s@),
{
    let value: serde_json::Value = serde_json::from_str(text).ok()?;
    match value.get(key) {
        Some(member) => Some(member.to_string()),
        None => None,
    }
}

/// `serde_json::Value::as_str` on the document read from `text`: the result
/// is [`json_string`].
#[verifier::external_body]
fn read_string(text: &str) -> (r: Option<String>)
    ensures
        opt_text(r) == json_string(text@),
{
    let value: serde_json::Value = serde_json::from_str(text).ok()?;
    match value.as_str() {
        Some(s) => Some(s.to_string()),
        None => None,
    }
}

/// A text was no JSON document.
#[derive(Debug)]
pub struct JsonError {
    pub cause: serde_json::Error,
}

/// A JSON document in compact form.
#[derive(Debug)]
pub struct JsonText {
    text: String,
}

impl JsonText {
    #[verifier::type_invariant]
    spec fn well_formed(self) -> bool {
        written_document(self.text@)
    }
}

impl View for JsonText {
    type V = Seq<char>;

    closed spec fn view(&self) -> Seq<char> {
        self.text@
    }
}

impl Clone for JsonText {
    fn clone(&self) -> (r: Self)
        ensures
            r@ == self@,
    {
        proof {
            use_type_invariant(self);
        }
        JsonText { text: self.text.clone() }
    }
}

impl JsonText {
    /// Reads a JSON document.
    pub fn parse(raw: &str) -> (r: Result<JsonText, JsonError>)
        ensures
            r is Ok <==> json_document(raw@) is Some,
            r matches Ok(doc) ==> json_document(raw@) == Some(doc@),
            r matches Ok(doc) ==> json_document(ndjson(raw@)) == Some(doc@),
    {
        match read_document(raw) {
            Ok(text) => Ok(JsonText { text }),
            Err(cause) => Err(JsonError { cause }),
        }
    }

    /// Reads a JSON document and takes a member of it.
    pub fn parse_member(raw: &str, key: &str) -> (r: Option<JsonText>)
        ensures
            match r {
                Some(member) => json_member(raw@, key@) == Some(member@),
                None => json_member(raw@, key@) is None,
            },
    {
        match read_member(raw, key) {
            Some(text) => Some(JsonText { text }),
            None => None,
        }
    }

    /// The compact text of the document.
    pub fn as_text(&self) -> (s: &str)
        ensures
            s@ == self@,
            written_document(s@),
    {
        proof {
            use_type_invariant(self);
        }
        self.text.as_str()
    }

    /// The member of an object.
    pub fn get(&self, key: &str) -> (r: Option<JsonText>)
        ensures
            match r {
                Some(member) => json_member(self@, key@) == Some(member@),
                None => json_member(self@, key@) is None,
            },
    {
        JsonText::parse_member(self.text.as_str(), key)
    }

    /// The text of a JSON string.
    pub fn as_str(&self) -> (r: Option<String>)
        ensures
            opt_text(r) == json_string(self@),
    {
        read_string(self.text.as_str())
    }
}

} // verus!
