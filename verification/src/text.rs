use vstd::prelude::*;

verus! {

/// The characters of a string slice, in order.
pub fn chars_of(text: &str) -> (chars: Vec<char>)
    ensures
        chars@ == text@,
{
    let mut chars: Vec<char> = Vec::new();
    for c in it: text.chars()
        invariant
            it.seq() == text@,
            chars@ == it.seq().take(it.index() as int),
    {
        chars.push(c);
    }
    chars
}

/// Calls `String::from_iter` on a vector of characters; the string holds
/// exactly those characters, in order.
#[verifier::external_body]
pub fn string_from_chars(chars: Vec<char>) -> (text: String)
    ensures
        text@ == chars@,
{
    String::from_iter(chars)
}

/// Calls `char::from_u32`: it gives the character whose scalar value is
/// `code` when `code` is a Unicode scalar value, and `None` otherwise.
#[verifier::external_body]
pub fn char_from_u32(code: u32) -> (c: Option<char>)
    ensures
        c == (if is_scalar_value(code as int) { Some(code as char) } else { None::<char> }),
{
    char::from_u32(code)
}

/// Whether `code` is a Unicode scalar value: a code point that is not a surrogate.
pub open spec fn is_scalar_value(code: int) -> bool {
    (0 <= code < 0xD800) || (0xE000 <= code <= 0x10FFFF)
}

/// Every character's code is a Unicode scalar value, and the character is
/// given back by a cast from its code.
pub proof fn lemma_char_code(c: char)
    ensures
        is_scalar_value(c as u32 as int),
        (c as u32) as char == c,
{
}

} // verus!
