//! What is taken on trust about building text.

use vstd::prelude::*;

verus! {

/// `String::push` of the standard library, which appends one character to
/// the end of a string: afterwards the string holds the characters it held
/// before, in the same order, followed by `ch`. Like vstd's contract for
/// `Vec::push`, this says nothing of a machine that runs out of memory.
pub assume_specification[ String::push ](s: &mut String, ch: char)
    ensures
        final(s)@ == old(s)@.push(ch),
;

} // verus!
