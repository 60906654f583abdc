//! The current time and fresh identifiers.

use vstd::prelude::*;

verus! {

/// The current time in RFC 3339 form (`chrono::Utc::now().to_rfc3339()`).
/// The time itself depends on the clock; what is stated is that, the
/// offset being UTC, the text ends with `+00:00`.
#[verifier::external_body]
pub(crate) fn now_rfc3339() -> (r: String)
    ensures
        r@.len() >= 6,
        r@.subrange(r@.len() - 6, r@.len() as int) == "+00:00"@,
{
    chrono::Utc::now().to_rfc3339()
}

/// Whether `c` is a lower-case hexadecimal digit.
pub open spec fn is_lower_hex(c: char) -> bool {
    ('0' <= c && c <= '9') || ('a' <= c && c <= 'f')
}

/// The written form of a version-4 UUID: 36 characters, hyphens at 8, 13,
/// 18 and 23, lower-case hexadecimal digits elsewhere, and the version
/// digit `4` at 14.
pub open spec fn uuid_v4_form(s: Seq<char>) -> bool {
    &&& s.len() == 36
    &&& forall|i: int|
        0 <= i < 36 ==> if i == 8 || i == 13 || i == 18 || i == 23 {
            s[i] == '-'
        } else {
            is_lower_hex(#[trigger] s[i])
        }
    &&& s[14] == '4'
}

/// A random version-4 UUID in hyphenated form (`uuid::Uuid::new_v4`,
/// written by its `Display`). Its bits are random; what is stated is its
/// form (see `uuid_v4_form`).
#[verifier::external_body]
pub(crate) fn new_uuid_v4() -> (r: String)
    ensures
        uuid_v4_form(r@),
{
    uuid::Uuid::new_v4().to_string()
}

} // verus!
