use vstd::prelude::*;

use crate::error::CipherError;

verus! {

/// Number of letters in the alphabet.
pub const ALPHABET_LEN: i8 = 26;

/// `c` is an ASCII letter, of either case.
pub open spec fn is_letter(c: char) -> bool {
    ('A' <= c && c <= 'Z') || ('a' <= c && c <= 'z')
}

/// `c` is an upper-case ASCII letter.
pub open spec fn is_upper(c: char) -> bool {
    'A' <= c && c <= 'Z'
}

/// Every character of `s` is an ASCII letter.
pub open spec fn all_letters(s: Seq<char>) -> bool {
    forall|i: int| 0 <= i < s.len() ==> is_letter(#[trigger] s[i])
}

/// Every character of `s` is an upper-case ASCII letter.
pub open spec fn all_upper(s: Seq<char>) -> bool {
    forall|i: int| 0 <= i < s.len() ==> is_upper(#[trigger] s[i])
}

/// Zero-based position of a letter in the alphabet, ignoring case (A = 0, Z = 25).
pub open spec fn letter_index(c: char) -> int {
    if 'a' <= c && c <= 'z' {
        c as int - 'a' as int
    } else {
        c as int - 'A' as int
    }
}

/// The upper-case letter at position `i` of the alphabet, for `0 <= i < 26`.
pub open spec fn letter(i: int) -> char {
    (('A' as int + i) as u8) as char
}

/// ASCII upper-casing: lower-case letters become upper-case, all else is kept.
pub open spec fn to_upper(c: char) -> char {
    if 'a' <= c && c <= 'z' {
        letter(c as int - 'a' as int)
    } else {
        c
    }
}

/// `s` with every character upper-cased.
pub open spec fn upper_seq(s: Seq<char>) -> Seq<char> {
    Seq::new(s.len(), |i: int| to_upper(s[i]))
}

/// The upper-case letter `shift` positions after `c`, wrapping around the
/// alphabet in both directions (`%` on `int` is Euclidean).
pub open spec fn shift_letter(c: char, shift: int) -> char {
    letter((letter_index(c) + shift) % (ALPHABET_LEN as int))
}

/// A shift is in range when it lies strictly between -26 and 26.
pub open spec fn shift_in_range(shift: int) -> bool {
    -(ALPHABET_LEN as int) < shift < ALPHABET_LEN as int
}

/// Tells whether `c` is an ASCII letter.
pub fn is_ascii_letter(c: char) -> (r: bool)
    ensures
        r == is_letter(c),
{
    ('A' <= c && c <= 'Z') || ('a' <= c && c <= 'z')
}

/// Zero-based alphabet position of the letter `c`, ignoring case.
pub fn alphabet_index(c: char) -> (r: i8)
    requires
        is_letter(c),
    ensures
        r as int == letter_index(c),
        0 <= r < 26,
{
    if 'a' <= c && c <= 'z' {
        ((c as u32) - ('a' as u32)) as i8
    } else {
        ((c as u32) - ('A' as u32)) as i8
    }
}

/// Rotates the letter `c` by `shift` positions within the alphabet and
/// returns the result in upper case. Fails with `InvalidShift` unless
/// `-26 < shift < 26`.
pub fn char_shift(c: char, shift: i8) -> (r: Result<char, CipherError>)
    requires
        is_letter(c),
    ensures
        r == if shift_in_range(shift as int) {
            Ok::<char, CipherError>(shift_letter(c, shift as int))
        } else {
            Err::<char, CipherError>(CipherError::InvalidShift)
        },
{
    if shift >= ALPHABET_LEN || shift <= -ALPHABET_LEN {
        return Err(CipherError::InvalidShift);
    }
    let input_index: i8 = alphabet_index(c);
    let sum: i8 = input_index + shift;
    let output_index: i8 = sum.checked_rem_euclid(ALPHABET_LEN).unwrap();
    let code: u8 = ('A' as u8) + (output_index as u8);
    Ok(code as char)
}

} // verus!
