//! The timestamp line written into a summary block. The clock itself is
//! outside work; only the shape of the rendered text is stated.

use vstd::prelude::*;

verus! {

/// A character that an RFC 3339 timestamp can be built from.
pub open spec fn rfc3339_char(c: char) -> bool {
    ('0' <= c <= '9') || c == '-' || c == '+' || c == 'T' || c == ':' || c == '.'
}

/// Every character of `s` is one an RFC 3339 timestamp can contain: in
/// particular no newline and no sentinel bracket.
pub open spec fn rfc3339_line(s: Seq<char>) -> bool {
    forall|i: int| 0 <= i < s.len() ==> rfc3339_char(#[trigger] s[i])
}

/// Relies on chrono's `DateTime::to_rfc3339` on `Local::now()`: the rendered
/// timestamp consists only of decimal digits and the characters `- + T : .`,
/// so it is a single line that contains no sentinel bracket.
#[verifier::external_body]
pub fn now_rfc3339() -> (r: String)
    ensures
        rfc3339_line(r@),
{
    chrono::Local::now().to_rfc3339()
}

} // verus!
