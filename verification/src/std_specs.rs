//! What is taken on trust of the standard library: the two functions below
//! are called as they are, and their contracts are believed, not proved.

use vstd::prelude::*;

verus! {

/// `String::push` of the standard library: the character is appended at the
/// end, and the characters before it stay as they are.
pub assume_specification[ String::push ](s: &mut String, ch: char)
    ensures
        final(s)@ == old(s)@.push(ch),
;

/// `char::from_u32` of the standard library: the character with the given
/// number, where the number is a Unicode scalar value, and `None` for the
/// surrogates and for what lies above the last code point.
pub assume_specification[ char::from_u32 ](i: u32) -> (r: Option<char>)
    ensures
        r == if i <= 0xD7FF || (0xE000 <= i && i <= 0x10FFFF) {
            Some(i as char)
        } else {
            None::<char>
        },
;

} // verus!
