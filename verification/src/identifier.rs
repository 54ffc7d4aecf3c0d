//! Random identifiers.

use vstd::prelude::*;

verus! {

/// The notation of a random UUID: groups of hexadecimal digits in lower case, parted by
/// hyphens, with the version at the beginning of the third group.
pub open spec fn uuid_shaped(s: Seq<char>) -> bool {
    &&& s.len() == 36
    &&& s[14] == '4'
    &&& forall|i: int|
        0 <= i < 36 ==> if i == 8 || i == 13 || i == 18 || i == 23 {
            #[trigger] s[i] == '-'
        } else {
            ('0' <= s[i] && s[i] <= '9') || ('a' <= s[i] && s[i] <= 'f')
        }
}

/// `uuid::Uuid::new_v4`, written out: a random identifier in the usual notation. Which one
/// it is is left to chance.
#[verifier::external_body]
pub(crate) fn new_identifier() -> (r: String)
    ensures
        uuid_shaped(r@),
{
    uuid::Uuid::new_v4().to_string()
}

} // verus!
