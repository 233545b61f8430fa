//! Case normalization of single characters, as used by the guess
//! comparison and the hint lookup.

use vstd::prelude::*;

verus! {

/// The lowercase form of a character, as the Unicode lowercase mapping
/// gives it (its first character where the mapping yields several). The
/// mapping depends on the character alone.
pub uninterp spec fn lower_of(c: char) -> char;

/// Relies on char::to_lowercase: it yields the lowercase mapping of the
/// character, at least one character long (the character itself when there
/// is no mapping), and depends on the character alone.
#[verifier::external_body]
pub fn lower_char(c: char) -> (r: char)
    ensures
        r == lower_of(c),
{
    c.to_lowercase().next().unwrap()
}

} // verus!
