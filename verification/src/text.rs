//! Small helpers on text.

use vstd::prelude::*;

verus! {

/// Whether two pieces of text are the same.
pub fn str_eq(a: &str, b: &str) -> (same: bool)
    ensures
        same == (a@ == b@),
{
    let a_owned = String::from_str(a);
    let b_owned = String::from_str(b);
    a_owned == b_owned
}

/// The text without a leading `0x`, where it has one.
pub open spec fn without_hex_prefix(text: Seq<char>) -> Seq<char> {
    if text.len() >= 2 && text[0] == '0' && text[1] == 'x' {
        text.subrange(2, text.len() as int)
    } else {
        text
    }
}

/// Takes a leading `0x` off a piece of text.
pub fn strip_hex_prefix(text: &str) -> (rest: String)
    ensures
        rest@ == without_hex_prefix(text@),
{
    let len = text.unicode_len();
    if len >= 2 && text.get_char(0) == '0' && text.get_char(1) == 'x' {
        String::from_str(text.substring_char(2, len))
    } else {
        String::from_str(text)
    }
}

} // verus!
