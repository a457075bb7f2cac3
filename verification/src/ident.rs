//! Identifiers and timestamps.

use vstd::prelude::*;

verus! {

/// Whether `c` is a lower-case hexadecimal digit.
pub open spec fn is_lower_hex(c: char) -> bool {
    ('0' <= c && c <= '9') || ('a' <= c && c <= 'f')
}

/// The hyphenated form of a random UUID: lower-case hexadecimal digits in
/// groups of 8, 4, 4, 4 and 12, the third of which starts with the version.
pub open spec fn is_uuid(s: Seq<char>) -> bool {
    &&& s.len() == 36
    &&& forall|i: int|
        0 <= i < 36 ==> if i == 8 || i == 13 || i == 18 || i == 23 {
            s[i] == '-'
        } else {
            is_lower_hex(s[i])
        }
    &&& s[14] == '4'
}

/// The form of a random UUID without hyphens.
pub open spec fn is_simple_uuid(s: Seq<char>) -> bool {
    &&& s.len() == 32
    &&& forall|i: int| 0 <= i < 32 ==> is_lower_hex(s[i])
    &&& s[12] == '4'
}

/// `uuid::Uuid::new_v4`, written with hyphens. Which one it is, is left open.
#[verifier::external_body]
pub(crate) fn new_uuid() -> (r: String)
    ensures
        is_uuid(r@),
{
    uuid::Uuid::new_v4().to_string()
}

/// `uuid::Uuid::new_v4`, written without hyphens. Which one it is, is left open.
#[verifier::external_body]
pub(crate) fn new_simple_uuid() -> (r: String)
    ensures
        is_simple_uuid(r@),
{
    uuid::Uuid::new_v4().simple().to_string()
}

/// `chrono::Utc::now`, in seconds since 1970. Nothing is said of the time.
#[verifier::external_body]
pub(crate) fn unix_time() -> (r: i64) {
    chrono::Utc::now().timestamp()
}

} // verus!
