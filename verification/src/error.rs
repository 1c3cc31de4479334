//! The ways in which decryption can fail.

use vstd::prelude::*;

verus! {

/// Why a ciphertext could not be turned back into text.
///
/// A key of the wrong length is not among them: keys are `[u8; 16]`, so such
/// a key cannot be written down.
#[derive(Clone, Copy, Debug, PartialEq, Eq, Structural)]
pub enum CipherError {
    /// The ciphertext is empty or its length is not a multiple of the block
    /// size.
    MalformedCiphertextLength,
    /// The last decrypted byte, which announces the number of padding bytes,
    /// is zero or larger than the number of decrypted bytes.
    PaddingError,
    /// The bytes left after the padding is removed are not valid UTF-8.
    DecodingError,
}

impl CipherError {
    /// A short description of the failure.
    pub fn message(&self) -> (text: &'static str)
        ensures
            text@ == Self::message_of(*self),
    {
        match self {
            CipherError::MalformedCiphertextLength => {
                "ciphertext length is not a positive multiple of 16"
            },
            CipherError::PaddingError => "padding length byte is out of range",
            CipherError::DecodingError => "decrypted bytes are not valid UTF-8",
        }
    }

    /// The description that `message` returns for each failure.
    pub open spec fn message_of(error: CipherError) -> Seq<char> {
        match error {
            CipherError::MalformedCiphertextLength => {
                "ciphertext length is not a positive multiple of 16"@
            },
            CipherError::PaddingError => "padding length byte is out of range"@,
            CipherError::DecodingError => "decrypted bytes are not valid UTF-8"@,
        }
    }
}

} // verus!
