//! The two character classes of the Unicode standard that the tokenizer
//! scans by. Their tables belong to the standard library; here they have a
//! name each, and nothing is proved of them.

use vstd::prelude::*;

verus! {

/// Whether `c` has the Unicode property `Alphabetic`, as
/// `char::is_alphabetic` reports it.
pub uninterp spec fn alphabetic(c: char) -> bool;

/// Whether `c` is in one of the Unicode general categories for numbers
/// (`Nd`, `Nl`, `No`), as `char::is_numeric` reports it.
pub uninterp spec fn numeric(c: char) -> bool;

/// Calls `char::is_alphabetic`. Trusted: the result is the class by its name,
/// a function of the character alone.
#[verifier::external_body]
pub(crate) fn is_alphabetic(c: char) -> (b: bool)
    ensures
        b == alphabetic(c),
{
    c.is_alphabetic()
}

/// Calls `char::is_numeric`. Trusted: the result is the class by its name,
/// a function of the character alone.
#[verifier::external_body]
pub(crate) fn is_numeric(c: char) -> (b: bool)
    ensures
        b == numeric(c),
{
    c.is_numeric()
}

} // verus!
