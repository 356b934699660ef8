//! Letters of the alphabet by position: 1 is 'a', 2 is 'b', and so on.
use vstd::prelude::*;

verus! {

/// Whether `n` is the code of a Unicode scalar value, that is of a `char`.
pub open spec fn is_scalar(n: int) -> bool {
    0 <= n <= 0x10FFFF && !(0xD800 <= n <= 0xDFFF)
}

/// The code of the letter at position `v`: 1 gives the code of 'a'.
pub open spec fn letter_code(v: u32) -> int {
    'a' as int - 1 + v
}

/// The code of `c`.
pub open spec fn code_of(c: char) -> int {
    c as int
}

/// The letter at position `v`, or '\0' where no `char` has that code.
pub open spec fn letter(v: u32) -> char {
    if is_scalar(letter_code(v)) {
        choose|c: char| #[trigger] code_of(c) == letter_code(v)
    } else {
        '\0'
    }
}

/// The `char` whose code is that of position `v` is the letter at `v`.
pub proof fn lemma_letter_of_code(v: u32, c: char)
    requires
        code_of(c) == letter_code(v),
    ensures
        letter(v) == c,
{
    assert(is_scalar(letter_code(v)));
    assert(code_of(letter(v)) == letter_code(v));
}

/// Relies on `char::from_u32`: `Some` exactly for the code of a Unicode scalar
/// value, holding the `char` with that code.
#[verifier::external_body]
fn char_from_code(n: u32) -> (r: Option<char>)
    ensures
        r is Some <==> is_scalar(n as int),
        r matches Some(c) ==> c as int == n as int,
{
    char::from_u32(n)
}

/// Relies on `String::push`: appends one `char` at the end.
#[verifier::external_body]
pub(crate) fn push_char(s: &mut String, c: char)
    ensures
        final(s)@ == old(s)@.push(c),
{
    s.push(c)
}

/// The letter at position `val`, falling back to '\0' where no `char` has
/// the code of that position.
pub fn i_to_a(val: u32) -> (r: char)
    ensures
        r == letter(val),
{
    let a = 'a' as u32;
    if val > u32::MAX - (a - 1) {
        return '\0';
    }
    match char_from_code(a - 1 + val) {
        Some(c) => {
            proof {
                lemma_letter_of_code(val, c);
            }
            c
        },
        None => '\0',
    }
}

/// The two letters at positions `a` and `b`, in that order.
pub fn concat(a: u32, b: u32) -> (r: String)
    ensures
        r@ == seq![letter(a), letter(b)],
{
    let mut s = String::new();
    push_char(&mut s, i_to_a(a));
    push_char(&mut s, i_to_a(b));
    s
}

} // verus!
