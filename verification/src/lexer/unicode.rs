//! Character classes of the Unicode standard and the few operations of the
//! standard library on `char` and `String` that the tokenizer relies on.
//!
//! Nothing in this file is proved: each item states what the standard
//! library documents of one of its functions.
use vstd::prelude::*;

verus! {

/// Whether `c` has the Unicode property `Alphabetic`, as `char::is_alphabetic`
/// decides it. The property is a table of the Unicode standard; it is named
/// here and not written out.
pub uninterp spec fn alphabetic(c: char) -> bool;

/// Whether `c` belongs to one of the Unicode number categories (`Nd`, `Nl`,
/// `No`), as `char::is_numeric` decides it.
pub uninterp spec fn numeric(c: char) -> bool;

/// Whether `c` has the Unicode property `White_Space`, as
/// `char::is_whitespace` decides it.
pub uninterp spec fn whitespace(c: char) -> bool;

/// `char::is_alphabetic` is a function of the character alone; its result is
/// named [`alphabetic`].
pub assume_specification[ char::is_alphabetic ](c: char) -> (b: bool)
    ensures
        b == alphabetic(c),
;

/// `char::is_numeric` is a function of the character alone; its result is
/// named [`numeric`].
pub assume_specification[ char::is_numeric ](c: char) -> (b: bool)
    ensures
        b == numeric(c),
;

/// `char::is_whitespace` is a function of the character alone; its result is
/// named [`whitespace`].
pub assume_specification[ char::is_whitespace ](c: char) -> (b: bool)
    ensures
        b == whitespace(c),
;

/// `char::is_alphanumeric` holds exactly of the characters of which
/// `char::is_alphabetic` or `char::is_numeric` holds, as its documentation
/// defines it.
pub assume_specification[ char::is_alphanumeric ](c: char) -> (b: bool)
    ensures
        b == (alphabetic(c) || numeric(c)),
;

/// `String::push` appends the character at the end and changes nothing else.
pub assume_specification[ std::string::String::push ](s: &mut std::string::String, c: char)
    ensures
        final(s)@ == old(s)@.push(c),
;

} // verus!
