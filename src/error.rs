use vstd::prelude::*;

verus! {

/// Why a cipher operation refused its input.
#[derive(Debug, Clone, Copy, PartialEq, Eq, Structural)]
pub enum CipherError {
    /// The text or the key holds a character that is not an ASCII letter.
    InvalidInput,
    /// A shift amount was not strictly between -26 and 26.
    InvalidShift,
    /// The key has no characters, so no shift can be taken from it.
    EmptyKey,
}

} // verus!
