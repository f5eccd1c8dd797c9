//! Generated ids: random UUIDs, written in their usual text form.

use vstd::prelude::*;
use crate::text::is_blank;

verus! {

/// A digit or one of the letters `a` to `f`.
pub open spec fn is_lower_hex(c: char) -> bool {
    ('0' <= c <= '9') || ('a' <= c <= 'f')
}

/// The text form of a random (version 4) UUID: thirty-six characters, hyphens after the
/// eighth, twelfth, sixteenth and twentieth digit, lower-case hexadecimal digits elsewhere,
/// the version digit `4` and a variant digit from `8` to `b`.
pub open spec fn is_generated_id(id: Seq<char>) -> bool {
    &&& id.len() == 36
    &&& forall|i: int|
        0 <= i < 36 ==> if i == 8 || i == 13 || i == 18 || i == 23 {
            #[trigger] id[i] == '-'
        } else {
            is_lower_hex(id[i])
        }
    &&& id[14] == '4'
    &&& id[19] == '8' || id[19] == '9' || id[19] == 'a' || id[19] == 'b'
}

/// A generated id is neither empty nor blank.
pub proof fn lemma_generated_id_not_blank(id: Seq<char>)
    requires
        is_generated_id(id),
    ensures
        id.len() > 0,
        !is_blank(id),
{
    assert(id[8] == '-');
}

/// Draws a fresh id from the operating system's random numbers.
///
/// Trusted: the body calls `uuid::Uuid::new_v4` and writes the value with its `Display`
/// impl. The contract claims only the shape of that text, which holds of every draw; nothing
/// is claimed about which id comes, nor that two draws differ. `new_v4` stops the program
/// where the operating system can give no random bytes.
#[verifier::external_body]
pub(crate) fn generate_id() -> (id: String)
    ensures
        is_generated_id(id@),
{
    uuid::Uuid::new_v4().to_string()
}

} // verus!
