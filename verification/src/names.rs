//! Names for metavariables, for display.

use vstd::prelude::*;

verus! {

/// The number of the last metavariable that is named by a letter.
pub const LAST_LETTER: u32 = 78;

/// The code of the first letter, a lower-case alpha.
pub const FIRST_LETTER_CODE: u32 = 0x03b1;

/// The bracket that opens the name of a metavariable past the letters.
pub const OPENING: char = '\u{2989}';

/// The bracket that closes the name of a metavariable past the letters.
pub const CLOSING: char = '\u{298a}';

/// The decimal digit for a number below ten.
pub open spec fn digit(d: nat) -> char {
    (0x30 + d) as char
}

/// The decimal digits of a number, without leading zeros.
pub open spec fn decimal(n: nat) -> Seq<char>
    decreases n,
{
    if n < 10 {
        seq![digit(n)]
    } else {
        decimal(n / 10).push(digit(n % 10))
    }
}

/// The name of the metavariable with the number `i`: the letter that comes
/// `i` places after the lower-case alpha, up to the last letter, and after
/// that the count past the last letter, from 1 on, between two brackets.
pub open spec fn greek_name(i: u32) -> Seq<char> {
    if i <= LAST_LETTER {
        seq![(FIRST_LETTER_CODE + i) as char]
    } else {
        seq![OPENING] + decimal((i - LAST_LETTER) as nat) + seq![CLOSING]
    }
}

/// `char::from_u32`: the character with the given code, if the code is
/// that of a character, which it is below 0xD800 and from 0xE000 to 0x10FFFF.
#[verifier::external_body]
fn char_of(code: u32) -> (r: Option<char>)
    ensures
        r matches Some(c) ==> c == code as char,
        code < 0xD800 || (0xE000 <= code && code <= 0x10FFFF) ==> r is Some,
{
    char::from_u32(code)
}

/// `String::push`: the character is appended to the string.
#[verifier::external_body]
fn push_char(s: &mut String, c: char)
    ensures
        final(s)@ == old(s)@.push(c),
{
    s.push(c)
}

/// Appends the decimal digits of `n` to `s`.
pub fn push_decimal(s: &mut String, n: u32)
    ensures
        final(s)@ == old(s)@ + decimal(n as nat),
    decreases n,
{
    if n >= 10 {
        push_decimal(s, n / 10);
    }
    match char_of(0x30 + n % 10) {
        Some(c) => push_char(s, c),
        None => {},
    }
    proof {
        if n >= 10 {
            assert(old(s)@ + decimal(n as nat) =~= (old(s)@ + decimal((n / 10) as nat)).push(
                digit((n % 10) as nat),
            ));
        } else {
            assert(old(s)@ + decimal(n as nat) =~= old(s)@.push(digit(n as nat)));
        }
    }
}

/// The name of the metavariable with the number `i`.
pub fn greek(i: u32) -> (s: String)
    ensures
        s@ == greek_name(i),
{
    let mut s = String::new();
    if i <= LAST_LETTER {
        match char_of(FIRST_LETTER_CODE + i) {
            Some(c) => push_char(&mut s, c),
            None => {},
        }
        assert(s@ =~= greek_name(i));
    } else {
        push_char(&mut s, OPENING);
        push_decimal(&mut s, i - LAST_LETTER);
        push_char(&mut s, CLOSING);
        assert(s@ =~= greek_name(i));
    }
    s
}

} // verus!
