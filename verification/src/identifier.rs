//! The identifier of a sample record.
//!
//! Each record gets an identifier of its own, drawn at random, so that two
//! records of the same message text can be told apart.

use vstd::prelude::*;

verus! {

/// A digit of lower-case hexadecimal notation.
pub open spec fn is_lower_hex(c: char) -> bool {
    ('0' <= c && c <= '9') || ('a' <= c && c <= 'f')
}

/// The places of the four hyphens in an identifier.
pub open spec fn is_hyphen_place(i: int) -> bool {
    i == 8 || i == 13 || i == 18 || i == 23
}

/// The canonical text of a random identifier of 128 bits: 32 lower-case
/// hexadecimal digits in groups of 8, 4, 4, 4 and 12, hyphens between the
/// groups, the version digit `4` at the head of the third group, and one of
/// `8`, `9`, `a`, `b` at the head of the fourth.
pub open spec fn is_canonical_identifier(id: Seq<char>) -> bool {
    &&& id.len() == 36
    &&& forall|i: int|
        0 <= i < 36 ==> if is_hyphen_place(i) {
            id[i] == '-'
        } else {
            is_lower_hex(#[trigger] id[i])
        }
    &&& id[14] == '4'
    &&& (id[19] == '8' || id[19] == '9' || id[19] == 'a' || id[19] == 'b')
}

/// Draws a fresh identifier with `uuid::Uuid::new_v4` and writes it out with
/// the type's `to_string`.
///
/// Not proved: the shape of the text. `new_v4` sets the version and variant
/// bits of 128 random bits, and the type's `Display` writes the hyphenated
/// lower-case form. Nothing is claimed of the digits themselves, nor that two
/// identifiers differ. `new_v4` panics where the operating system hands out
/// no random bytes.
#[verifier::external_body]
pub(crate) fn fresh_identifier() -> (id: String)
    ensures
        is_canonical_identifier(id@),
{
    uuid::Uuid::new_v4().to_string()
}

/// A canonical identifier holds neither a double quote nor a line feed, so it
/// can stand in a quoted field of a sample line as it is.
pub proof fn lemma_identifier_is_plain(id: Seq<char>)
    requires
        is_canonical_identifier(id),
    ensures
        forall|i: int| 0 <= i < id.len() ==> id[i] != '"' && id[i] != '\n',
{
    assert forall|i: int| 0 <= i < id.len() implies id[i] != '"' && id[i] != '\n' by {
        if !is_hyphen_place(i) {
            assert(is_lower_hex(id[i]));
        }
    }
}

} // verus!
