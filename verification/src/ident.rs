//! Fresh identifiers.

use vstd::prelude::*;

verus! {

/// A digit of a lowercase hexadecimal number.
pub open spec fn is_hex_digit(c: char) -> bool {
    let n = c as u32;
    0x30 <= n <= 0x39 || 0x61 <= n <= 0x66
}

/// Where the hyphens stand in the text of an identifier.
pub open spec fn is_hyphen_place(i: int) -> bool {
    i == 8 || i == 13 || i == 18 || i == 23
}

/// The text of a randomly drawn identifier: thirty-two lowercase
/// hexadecimal digits in groups of eight, four, four, four and twelve, with
/// hyphens between the groups. The third group starts with the version,
/// `4`, and the fourth with the variant: `8`, `9`, `a` or `b`.
pub open spec fn is_uuid_text(s: Seq<char>) -> bool {
    &&& s.len() == 36
    &&& forall|i: int| 0 <= i < 36 && is_hyphen_place(i) ==> #[trigger] s[i] == '-'
    &&& forall|i: int| 0 <= i < 36 && !is_hyphen_place(i) ==> is_hex_digit(#[trigger] s[i])
    &&& s[14] == '4'
    &&& s[19] == '8' || s[19] == '9' || s[19] == 'a' || s[19] == 'b'
}

/// `uuid::Uuid::new_v4`, written out as text with `to_string`. Which
/// identifier comes back is left to chance; the contract gives the form
/// that every such text has.
#[verifier::external_body]
pub(crate) fn get_uuid() -> (id: String)
    ensures
        is_uuid_text(id@),
{
    uuid::Uuid::new_v4().to_string()
}

} // verus!
