use vstd::prelude::*;

use crate::alphabet::{
    ALPHABET_LEN, all_letters, is_letter, is_upper, letter, letter_index, shift_letter, to_upper,
    upper_seq,
};
use crate::cipher::{decipher, encipher, input_error, key_shift};

verus! {

/// Shifting a letter yields an upper-case letter whose alphabet position is
/// the old position plus the shift, reduced into `0..26`.
pub proof fn lemma_shift_letter(c: char, shift: int)
    requires
        is_letter(c),
    ensures
        is_upper(shift_letter(c, shift)),
        letter_index(shift_letter(c, shift)) == (letter_index(c) + shift) % (ALPHABET_LEN as int),
{
    let k = (letter_index(c) + shift) % (ALPHABET_LEN as int);
    assert(0 <= k < 26);
}

/// A letter keeps its alphabet position when upper-cased, and its upper-case
/// form is the letter at that position.
pub proof fn lemma_upper_letter(c: char)
    requires
        is_letter(c),
    ensures
        to_upper(c) == letter(letter_index(c)),
        letter_index(to_upper(c)) == letter_index(c),
        is_letter(to_upper(c)),
{
    assert(letter(letter_index(c)) as int == c as int || letter(letter_index(c)) as int == c as int - 32);
}

/// Shifting a letter forward and then backward by the same key position
/// gives back the letter in upper case.
pub proof fn lemma_shift_back(c: char, shift: int)
    requires
        is_letter(c),
        0 <= shift < ALPHABET_LEN as int,
    ensures
        shift_letter(shift_letter(c, shift), -shift) == to_upper(c),
{
    lemma_shift_letter(c, shift);
    lemma_upper_letter(c);
    let a = letter_index(c);
    assert(((a + shift) % 26 + -shift) % 26 == a);
}

/// Decrypting what encryption produced, under the same nonempty key of
/// letters, is accepted and gives back the plaintext in upper case.
pub proof fn lemma_round_trip(plaintext: Seq<char>, key: Seq<char>)
    requires
        all_letters(plaintext),
        all_letters(key),
        key.len() > 0,
    ensures
        input_error(encipher(plaintext, key), key) is None,
        decipher(encipher(plaintext, key), key) == upper_seq(plaintext),
{
    let cipher = encipher(plaintext, key);
    assert forall|i: int| 0 <= i < cipher.len() implies is_letter(#[trigger] cipher[i]) by {
        lemma_shift_letter(plaintext[i], key_shift(key, i));
    }
    assert forall|i: int| 0 <= i < plaintext.len() implies #[trigger] decipher(cipher, key)[i]
        == upper_seq(plaintext)[i] by {
        let j = i % key.len() as int;
        assert(0 <= j < key.len());
        assert(is_letter(key[j]));
        lemma_shift_back(plaintext[i], key_shift(key, i));
    }
    assert(decipher(cipher, key) =~= upper_seq(plaintext));
}

/// Under a nonempty key, upper-casing the text and the key first changes neither which error is
/// reported nor what encryption or decryption yields.
pub proof fn lemma_case_insensitive(text: Seq<char>, key: Seq<char>)
    requires
        key.len() > 0,
    ensures
        input_error(upper_seq(text), upper_seq(key)) == input_error(text, key),
        encipher(upper_seq(text), upper_seq(key)) == encipher(text, key),
        decipher(upper_seq(text), upper_seq(key)) == decipher(text, key),
{
    assert forall|c: char| #[trigger] is_letter(to_upper(c)) == is_letter(c) by {
        if is_letter(c) {
            lemma_upper_letter(c);
        }
    }
    assert forall|c: char| #[trigger] letter_index(to_upper(c)) == letter_index(c) by {
        if is_letter(c) {
            lemma_upper_letter(c);
        }
    }
    assert(all_letters(upper_seq(text)) == all_letters(text)) by {
        if all_letters(text) {
            assert forall|i: int| 0 <= i < text.len() implies is_letter(#[trigger] upper_seq(text)[i]) by {
                assert(is_letter(to_upper(text[i])));
            }
        }
        if all_letters(upper_seq(text)) {
            assert forall|i: int| 0 <= i < text.len() implies is_letter(#[trigger] text[i]) by {
                assert(is_letter(upper_seq(text)[i]));
            }
        }
    }
    assert(all_letters(upper_seq(key)) == all_letters(key)) by {
        if all_letters(key) {
            assert forall|i: int| 0 <= i < key.len() implies is_letter(#[trigger] upper_seq(key)[i]) by {
                assert(is_letter(to_upper(key[i])));
            }
        }
        if all_letters(upper_seq(key)) {
            assert forall|i: int| 0 <= i < key.len() implies is_letter(#[trigger] key[i]) by {
                assert(is_letter(upper_seq(key)[i]));
            }
        }
    }
    assert forall|i: int| 0 <= i < text.len() implies #[trigger] key_shift(upper_seq(key), i)
        == key_shift(key, i) by {
        let j = i % key.len() as int;
        assert(0 <= j < key.len());
        assert(letter_index(to_upper(key[j])) == letter_index(key[j]));
    }
    assert(encipher(upper_seq(text), upper_seq(key)) =~= encipher(text, key));
    assert(decipher(upper_seq(text), upper_seq(key)) =~= decipher(text, key));
}

} // verus!
