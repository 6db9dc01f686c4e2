//! The Vigenère cipher over the 26-letter English alphabet.
//!
//! Text and key are read case-insensitively and must consist of ASCII
//! letters only; every output is in upper case. Each letter of the text is
//! rotated by the alphabet position of the key letter at the same position,
//! the key being repeated as often as the text needs.

pub mod alphabet;
pub mod cipher;
pub mod error;
pub mod laws;

pub use error::CipherError;
pub use alphabet::char_shift;
pub use cipher::{decrypt, encrypt};
