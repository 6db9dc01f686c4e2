use vigenere::{char_shift, decrypt, encrypt, CipherError};

#[test]
fn basic_encrypt_decrypt() {
    let plaintext = String::from("attackatdawn");
    let key = String::from("LEMONLEMONLE");

    let ciphertext = encrypt(&plaintext, &key).unwrap();
    let expected_ciphertext = String::from("LXFOPVEFRNHR");
    assert_eq!(ciphertext, expected_ciphertext);

    let decrypted_plaintext = decrypt(&ciphertext, &key).unwrap();
    let expected_plaintext = String::from("ATTACKATDAWN");
    assert_eq!(expected_plaintext, decrypted_plaintext);
}

#[test]
fn key_shorter_than_text() {
    assert_eq!(encrypt("HELLO", "AB"), Ok(String::from("HFLMO")));
    assert_eq!(decrypt("HFLMO", "AB"), Ok(String::from("HELLO")));
}

#[test]
fn short_key_cycles_like_repeated_key() {
    assert_eq!(encrypt("attackatdawn", "LEMON"), Ok(String::from("LXFOPVEFRNHR")));
    assert_eq!(decrypt("LXFOPVEFRNHR", "lemon"), Ok(String::from("ATTACKATDAWN")));
}

#[test]
fn round_trip_mixed_case() {
    let plain = "HelloWorldVigenere";
    let key = "sEcReT";
    let cipher = encrypt(plain, key).unwrap();
    assert_ne!(cipher, plain.to_uppercase());
    assert_eq!(decrypt(&cipher, key), Ok(plain.to_uppercase()));
}

#[test]
fn round_trip_key_longer_than_text() {
    let cipher = encrypt("abc", "ZZZZZZZZ").unwrap();
    assert_eq!(cipher, "ZAB");
    assert_eq!(decrypt(&cipher, "ZZZZZZZZ"), Ok(String::from("ABC")));
}

#[test]
fn length_is_preserved() {
    let plain = "TheQuickBrownFoxJumpsOverTheLazyDog";
    let cipher = encrypt(plain, "KEY").unwrap();
    assert_eq!(cipher.chars().count(), plain.chars().count());
    let back = decrypt(&cipher, "KEY").unwrap();
    assert_eq!(back.chars().count(), cipher.chars().count());
}

#[test]
fn empty_text_gives_empty_output() {
    assert_eq!(encrypt("", "KEY"), Ok(String::new()));
    assert_eq!(decrypt("", "KEY"), Ok(String::new()));
}

#[test]
fn input_case_does_not_matter() {
    let lower = encrypt("attack", "lemon").unwrap();
    let upper = encrypt("ATTACK", "LEMON").unwrap();
    let mixed = encrypt("AtTaCk", "lEmOn").unwrap();
    assert_eq!(lower, upper);
    assert_eq!(mixed, upper);
    assert_eq!(decrypt("lxfopv", "LeMoN"), decrypt("LXFOPV", "LEMON"));
}

#[test]
fn output_is_upper_case_letters() {
    let cipher = encrypt("zyxwvutsrqponmlkjihgfedcba", "qwertyuiopasdfghjklzxcvbnm").unwrap();
    assert!(cipher.chars().all(|c| c.is_ascii_uppercase()));
    let plain = decrypt("zyxwvutsrqponmlkjihgfedcba", "qwertyuiopasdfghjklzxcvbnm").unwrap();
    assert!(plain.chars().all(|c| c.is_ascii_uppercase()));
}

#[test]
fn space_in_key_is_rejected() {
    assert_eq!(encrypt("ATTACK", "KE Y"), Err(CipherError::InvalidInput));
    assert_eq!(decrypt("ATTACK", "KE Y"), Err(CipherError::InvalidInput));
}

#[test]
fn digits_and_punctuation_in_text_are_rejected() {
    assert_eq!(encrypt("ATTACK1", "KEY"), Err(CipherError::InvalidInput));
    assert_eq!(encrypt("ATTACK!", "KEY"), Err(CipherError::InvalidInput));
    assert_eq!(decrypt("AT TACK", "KEY"), Err(CipherError::InvalidInput));
    assert_eq!(decrypt("ATTACKÉ", "KEY"), Err(CipherError::InvalidInput));
}

#[test]
fn empty_key_is_rejected() {
    assert_eq!(encrypt("ATTACK", ""), Err(CipherError::EmptyKey));
    assert_eq!(decrypt("ATTACK", ""), Err(CipherError::EmptyKey));
}

#[test]
fn invalid_text_is_reported_before_empty_key() {
    assert_eq!(encrypt("AT TACK", ""), Err(CipherError::InvalidInput));
    assert_eq!(decrypt("42", ""), Err(CipherError::InvalidInput));
}

#[test]
fn shift_boundaries() {
    assert_eq!(char_shift('A', 25), Ok('Z'));
    assert_eq!(char_shift('A', -1), Ok('Z'));
    assert_eq!(char_shift('Z', 1), Ok('A'));
    assert_eq!(char_shift('Z', -25), Ok('A'));
    assert_eq!(char_shift('m', 0), Ok('M'));
    assert_eq!(char_shift('h', 3), Ok('K'));
}

#[test]
fn shift_out_of_range_is_rejected() {
    assert_eq!(char_shift('A', 26), Err(CipherError::InvalidShift));
    assert_eq!(char_shift('A', -26), Err(CipherError::InvalidShift));
    assert_eq!(char_shift('q', 127), Err(CipherError::InvalidShift));
    assert_eq!(char_shift('q', -128), Err(CipherError::InvalidShift));
}
