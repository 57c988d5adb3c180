use vstd::prelude::*;

verus! {

pub open spec fn is_lower_hex_digit(c: char) -> bool {
    ('0' <= c && c <= '9') || ('a' <= c && c <= 'f')
}

/// The 36-character lowercase hyphenated form of a version-4 UUID:
/// groups of 8, 4, 4, 4 and 12 hex digits, with `4` as the version digit.
pub open spec fn is_hyphenated_v4(s: Seq<char>) -> bool {
    &&& s.len() == 36
    &&& forall|i: int|
        0 <= i < 36 ==> (if i == 8 || i == 13 || i == 18 || i == 23 {
            s[i] == '-'
        } else {
            is_lower_hex_digit(#[trigger] s[i])
        })
    &&& s[14] == '4'
}

/// The form of an identifier that the store hands out: a version-4 UUID in
/// hyphenated form, followed by any number of further hyphens (added only
/// when the drawn UUID was taken already).
pub open spec fn is_issued_id(s: Seq<char>) -> bool {
    &&& s.len() >= 36
    &&& is_hyphenated_v4(s.take(36))
    &&& forall|i: int| 36 <= i < s.len() ==> #[trigger] s[i] == '-'
}

/// Relies on uuid::Uuid::new_v4 and its `Display` impl: a random version-4
/// UUID, written in lowercase hyphenated form. Nothing is promised about
/// which value comes out; two calls may return the same text.
#[verifier::external_body]
pub(crate) fn random_issue_id() -> (r: String)
    ensures
        is_hyphenated_v4(r@),
{
    uuid::Uuid::new_v4().to_string()
}

} // verus!
