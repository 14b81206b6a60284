//! Identifiers for incoming requests.
use vstd::prelude::*;

verus! {

/// Lower-case hex digits.
pub open spec fn is_lower_hex(c: char) -> bool {
    ('0' <= c && c <= '9') || ('a' <= c && c <= 'f')
}

/// A version 7 UUID in hyphenated form: 36 characters, hyphens at 8, 13, 18
/// and 23, the version digit `7` at 14, lower-case hex digits elsewhere.
pub open spec fn is_uuid_v7_text(s: Seq<char>) -> bool {
    &&& s.len() == 36
    &&& forall|i: int|
        0 <= i < 36 ==> if i == 8 || i == 13 || i == 18 || i == 23 {
            s[i] == '-'
        } else {
            is_lower_hex(#[trigger] s[i])
        }
    &&& s[14] == '7'
}

/// Relies on uuid::Uuid::now_v7, a version 7 UUID from the current time,
/// ordered by creation within the process, and on its `Display`, the
/// lower-case hyphenated form.
#[verifier::external_body]
fn uuid_v7_text() -> (r: String)
    ensures
        is_uuid_v7_text(r@),
{
    uuid::Uuid::now_v7().to_string()
}

/// Makes request ids that sort by the time they were made.
#[derive(Clone, Copy, Debug)]
pub struct MakeRequestUuidV7;

impl MakeRequestUuidV7 {
    /// A fresh request id: a version 7 UUID in hyphenated form.
    pub fn make_request_id(&self) -> (r: String)
        ensures
            is_uuid_v7_text(r@),
    {
        uuid_v7_text()
    }
}

} // verus!
