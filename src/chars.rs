use vstd::prelude::*;

verus! {

/// Relies on `str::chars` collected into a `Vec`: the characters of the text, in order.
#[verifier::external_body]
pub(crate) fn chars_of(s: &str) -> (r: Vec<char>)
    ensures
        r@ == s@,
{
    s.chars().collect()
}

/// Relies on `String: FromIterator<&char>`: the text made of the given characters, in order.
#[verifier::external_body]
pub(crate) fn string_of(v: &Vec<char>) -> (r: String)
    ensures
        r@ == v@,
{
    v.iter().collect()
}

} // verus!

verus! {

/// Whether `c` has Unicode's White_Space property, as `char::is_whitespace` reports it.
pub uninterp spec fn white_space(c: char) -> bool;

/// Relies on `char::is_whitespace`: a property of the character alone.
#[verifier::external_body]
pub(crate) fn is_white_space(c: char) -> (r: bool)
    ensures
        r == white_space(c),
{
    c.is_whitespace()
}

} // verus!
