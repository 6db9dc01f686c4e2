use vstd::prelude::*;

use crate::alphabet::{
    ALPHABET_LEN, all_letters, all_upper, alphabet_index, char_shift, is_ascii_letter, is_letter,
    is_upper, letter_index, shift_letter,
};
use crate::error::CipherError;
use vstd::std_specs::iter::IteratorSpec;

verus! {

/// Relies on `String::push`: appends one character at the end.
pub assume_specification[ String::push ](s: &mut String, ch: char)
    ensures
        final(s)@ == old(s)@.push(ch),
;

/// Shift taken from the key at text position `i`: the alphabet position of
/// the key letter at `i mod len(key)`, the key being repeated cyclically.
pub open spec fn key_shift(key: Seq<char>, i: int) -> int {
    letter_index(key[i % key.len() as int])
}

/// Vigenère encryption of `text` under `key`: each letter moves forward by
/// the shift of its position.
pub open spec fn encipher(text: Seq<char>, key: Seq<char>) -> Seq<char> {
    Seq::new(text.len(), |i: int| shift_letter(text[i], key_shift(key, i)))
}

/// Vigenère decryption of `text` under `key`: each letter moves backward by
/// the shift of its position.
pub open spec fn decipher(text: Seq<char>, key: Seq<char>) -> Seq<char> {
    Seq::new(text.len(), |i: int| shift_letter(text[i], -key_shift(key, i)))
}

/// The error that a cipher operation on `text` and `key` reports, if any:
/// a non-letter in either is reported first, then an empty key.
pub open spec fn input_error(text: Seq<char>, key: Seq<char>) -> Option<CipherError> {
    if !all_letters(text) || !all_letters(key) {
        Some(CipherError::InvalidInput)
    } else if key.len() == 0 {
        Some(CipherError::EmptyKey)
    } else {
        None
    }
}

/// The characters of `s`, in order.
fn chars_of(s: &str) -> (r: Vec<char>)
    ensures
        r@ == s@,
{
    broadcast use vstd::string::axiom_spec_iter, vstd::string::next_postcondition;

    let mut it = s.chars();
    let mut out: Vec<char> = Vec::new();
    loop
        invariant
            out@ + it.remaining() == s@,
            it.decrease() is Some,
        ensures
            out@ == s@,
        decreases it.decrease()->0,
    {
        match it.next() {
            Some(c) => {
                out.push(c);
            },
            None => {
                assert(out@ + it.remaining() =~= out@);
                break ;
            },
        }
    }
    out
}

/// Tells whether every character of `s` is an ASCII letter.
fn all_ascii_letters(s: &Vec<char>) -> (r: bool)
    ensures
        r == all_letters(s@),
{
    let mut i: usize = 0;
    while i < s.len()
        invariant
            i <= s@.len(),
            forall|j: int| 0 <= j < i ==> is_letter(#[trigger] s@[j]),
        decreases s@.len() - i,
    {
        if !is_ascii_letter(s[i]) {
            return false;
        }
        i = i + 1;
    }
    true
}

/// Checks `text` and `key` before any work is done.
fn validate(text: &Vec<char>, key: &Vec<char>) -> (r: Result<(), CipherError>)
    ensures
        r matches Err(e) ==> input_error(text@, key@) == Some(e),
        r is Ok ==> input_error(text@, key@) is None,
{
    if !all_ascii_letters(text) || !all_ascii_letters(key) {
        return Err(CipherError::InvalidInput);
    }
    if key.len() == 0 {
        return Err(CipherError::EmptyKey);
    }
    Ok(())
}

/// Rotates each letter of `text` by the shift of the cyclically repeated
/// `key`, forward when `forward` holds and backward otherwise.
fn apply_key(text: &Vec<char>, key: &Vec<char>, forward: bool) -> (r: String)
    requires
        all_letters(text@),
        all_letters(key@),
        key@.len() > 0,
    ensures
        r@ == if forward {
            encipher(text@, key@)
        } else {
            decipher(text@, key@)
        },
{
    let ghost want = if forward {
        encipher(text@, key@)
    } else {
        decipher(text@, key@)
    };
    let mut out = String::new();
    let mut i: usize = 0;
    while i < text.len()
        invariant
            i <= text@.len(),
            all_letters(text@),
            all_letters(key@),
            key@.len() > 0,
            want == (if forward {
                encipher(text@, key@)
            } else {
                decipher(text@, key@)
            }),
            out@ == want.subrange(0, i as int),
        decreases text@.len() - i,
    {
        let key_char = key[i % key.len()];
        assert(is_letter(key@[i as int % key@.len() as int]));
        let amount: i8 = alphabet_index(key_char);
        let shift: i8 = if forward {
            amount
        } else {
            -amount
        };
        assert(is_letter(text@[i as int]));
        let c = char_shift(text[i], shift).unwrap();
        out.push(c);
        assert(out@ =~= want.subrange(0, i + 1));
        i = i + 1;
    }
    assert(want.subrange(0, i as int) =~= want);
    out
}

/// Encrypts `plaintext` with the Vigenère cipher under `key`.
///
/// Fails with `InvalidInput` when either holds a character other than an
/// ASCII letter, else with `EmptyKey` when the key is empty. Otherwise the
/// result is upper case and as long as the plaintext, and its letter at
/// position `i` is the plaintext letter at `i` moved forward by the alphabet
/// position of key letter `i mod len(key)`.
pub fn encrypt(plaintext: &str, key: &str) -> (r: Result<String, CipherError>)
    ensures
        match r {
            Ok(out) => {
                &&& input_error(plaintext@, key@) is None
                &&& out@ == encipher(plaintext@, key@)
                &&& out@.len() == plaintext@.len()
                &&& all_upper(out@)
            },
            Err(e) => input_error(plaintext@, key@) == Some(e),
        },
{
    let text = chars_of(plaintext);
    let key_chars = chars_of(key);
    match validate(&text, &key_chars) {
        Err(e) => Err(e),
        Ok(()) => {
            let out = apply_key(&text, &key_chars, true);
            proof {
                lemma_encipher_upper(plaintext@, key@);
            }
            Ok(out)
        },
    }
}

/// Decrypts `ciphertext` with the Vigenère cipher under `key`.
///
/// Fails exactly as `encrypt` does. Otherwise the result is upper case and
/// as long as the ciphertext, and its letter at position `i` is the
/// ciphertext letter at `i` moved backward by the alphabet position of key
/// letter `i mod len(key)`.
pub fn decrypt(ciphertext: &str, key: &str) -> (r: Result<String, CipherError>)
    ensures
        match r {
            Ok(out) => {
                &&& input_error(ciphertext@, key@) is None
                &&& out@ == decipher(ciphertext@, key@)
                &&& out@.len() == ciphertext@.len()
                &&& all_upper(out@)
            },
            Err(e) => input_error(ciphertext@, key@) == Some(e),
        },
{
    let text = chars_of(ciphertext);
    let key_chars = chars_of(key);
    match validate(&text, &key_chars) {
        Err(e) => Err(e),
        Ok(()) => {
            let out = apply_key(&text, &key_chars, false);
            proof {
                lemma_decipher_upper(ciphertext@, key@);
            }
            Ok(out)
        },
    }
}

/// Every letter that encryption produces is an upper-case letter.
pub proof fn lemma_encipher_upper(text: Seq<char>, key: Seq<char>)
    requires
        all_letters(text),
        all_letters(key),
        key.len() > 0,
    ensures
        all_upper(encipher(text, key)),
{
    assert forall|i: int| 0 <= i < text.len() implies is_upper(#[trigger] encipher(text, key)[i]) by {
        let k = (letter_index(text[i]) + key_shift(key, i)) % (ALPHABET_LEN as int);
        assert(0 <= k < 26);
    }
}

/// Every letter that decryption produces is an upper-case letter.
pub proof fn lemma_decipher_upper(text: Seq<char>, key: Seq<char>)
    requires
        all_letters(text),
        all_letters(key),
        key.len() > 0,
    ensures
        all_upper(decipher(text, key)),
{
    assert forall|i: int| 0 <= i < text.len() implies is_upper(#[trigger] decipher(text, key)[i]) by {
        let k = (letter_index(text[i]) - key_shift(key, i)) % (ALPHABET_LEN as int);
        assert(0 <= k < 26);
    }
}

} // verus!
