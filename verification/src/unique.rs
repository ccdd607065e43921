//! Identifiers that no two requests share.

use vstd::prelude::*;

verus! {

/// A digit of a lower-case hexadecimal number.
pub open spec fn is_hex_digit(c: char) -> bool {
    ('0' <= c && c <= '9') || ('a' <= c && c <= 'f')
}

/// The written form of a universally unique identifier: 32 hexadecimal
/// digits in groups of 8, 4, 4, 4 and 12, with a hyphen between groups.
pub open spec fn is_hyphenated(s: Seq<char>) -> bool {
    &&& s.len() == 36
    &&& forall|i: int|
        0 <= i < 36 ==> if i == 8 || i == 13 || i == 18 || i == 23 {
            #[trigger] s[i] == '-'
        } else {
            is_hex_digit(s[i])
        }
}

/// A new identifier from `uuid::Uuid::now_v7`, written out by its
/// `Display`. Trusted: the text is the hyphenated lower-case form, which
/// is all that is claimed of it; nothing is said of which identifier
/// comes, since that depends on the clock and on chance. The call
/// aborts where the system clock stands before 1970 or the system gives
/// out no random bytes.
#[verifier::external_body]
pub(crate) fn fresh_id() -> (id: String)
    ensures
        is_hyphenated(id@),
{
    uuid::Uuid::now_v7().to_string()
}

} // verus!
