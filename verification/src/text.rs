//! Building strings character by character.

use vstd::prelude::*;

verus! {

/// `String::push` of std. Not proved: that it appends exactly the given
/// character and leaves what the string already held as it was.
#[verifier::external_body]
pub(crate) fn push_char(s: &mut String, c: char)
    ensures
        final(s)@ == old(s)@.push(c),
{
    s.push(c)
}

} // verus!
