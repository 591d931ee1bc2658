//! Fresh identifiers for macros, strands, instructions, comments and
//! blocks.
use vstd::prelude::*;

verus! {

pub open spec fn is_lower_hex_digit(c: char) -> bool {
    ('0' <= c && c <= '9') || ('a' <= c && c <= 'f')
}

/// The shape of `Uuid::simple().to_string()`: 32 lowercase hex digits.
pub open spec fn is_simple_uuid(s: Seq<char>) -> bool {
    &&& s.len() == 32
    &&& forall|i: int| 0 <= i < s.len() ==> is_lower_hex_digit(#[trigger] s[i])
}

/// `uuid::Uuid::new_v4().simple().to_string()`: a random version-4 UUID in
/// its simple form, 32 lowercase hex digits. Which digits come out is left
/// open, and so is whether two calls differ: they come from the operating
/// system's random source (whose failure makes the call panic).
#[verifier::external_body]
pub(crate) fn fresh_id() -> (r: String)
    ensures
        is_simple_uuid(r@),
{
    uuid::Uuid::new_v4().simple().to_string()
}

} // verus!
