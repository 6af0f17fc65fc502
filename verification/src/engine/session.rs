//! Session identifiers.

use vstd::prelude::*;

verus! {

/// A hexadecimal digit in lower case.
pub open spec fn lower_hex(c: char) -> bool {
    '0' <= c <= '9' || 'a' <= c <= 'f'
}

/// The text of a random UUID: groups of 8, 4, 4, 4 and 12 hexadecimal digits
/// in lower case, with hyphens between them; the version digit is 4, and the
/// variant digit is 8, 9, a or b.
pub open spec fn random_uuid_text(s: Seq<char>) -> bool {
    &&& s.len() == 36
    &&& forall|i: int|
        0 <= i < 36 ==> if i == 8 || i == 13 || i == 18 || i == 23 {
            #[trigger] s[i] == '-'
        } else {
            lower_hex(s[i])
        }
    &&& s[14] == '4'
    &&& s[19] == '8' || s[19] == '9' || s[19] == 'a' || s[19] == 'b'
}

/// `uuid::Uuid::new_v4`, written out by its `Display`: the text is that of a
/// random UUID. Which one it is depends on chance; the call panics where the
/// machine has no source of randomness.
#[verifier::external_body]
pub(crate) fn new_session_id() -> (r: String)
    ensures
        random_uuid_text(r@),
{
    uuid::Uuid::new_v4().to_string()
}

} // verus!
