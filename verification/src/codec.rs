//! Encryption of text and decryption back to text.

use vstd::prelude::*;
use vstd::string::StringSliceAdditionalSpecFns;
use vstd::utf8::{
    decode_utf8, encode_utf8, encode_utf8_decode_utf8, encode_utf8_valid_utf8, valid_utf8,
};
use crate::block::{
    ecb_decrypt, ecb_encrypt, lemma_ecb_encrypt_len, spec_ecb_decrypt, spec_ecb_encrypt,
};
use crate::error::CipherError;
use crate::padding::{lemma_pad_len, lemma_unpad_pad, pad, pad_bytes, pad_len, strip_padding, unpad};

verus! {

/// The ciphertext of `text` under `key`: the UTF-8 bytes of the text, padded
/// and encrypted block by block.
pub open spec fn spec_encrypt_aes(text: Seq<char>, key: Seq<u8>) -> Seq<u8> {
    spec_ecb_encrypt(key, pad(encode_utf8(text)))
}

/// The text that padded bytes stand for: the padding is removed and the rest
/// decoded as UTF-8.
pub open spec fn spec_decode_padded(padded: Seq<u8>) -> Result<Seq<char>, CipherError> {
    match unpad(padded) {
        None => Err(CipherError::PaddingError),
        Some(bytes) => if valid_utf8(bytes) {
            Ok(decode_utf8(bytes))
        } else {
            Err(CipherError::DecodingError)
        },
    }
}

/// The outcome of decrypting `ciphertext` under `key`. The length is judged
/// first, then the padding, then the encoding.
pub open spec fn spec_decrypt_aes(key: Seq<u8>, ciphertext: Seq<u8>) -> Result<
    Seq<char>,
    CipherError,
> {
    if ciphertext.len() == 0 || ciphertext.len() % 16 != 0 {
        Err(CipherError::MalformedCiphertextLength)
    } else {
        spec_decode_padded(spec_ecb_decrypt(key, ciphertext))
    }
}

/// An outcome with the characters of its text in place of the `String`.
pub open spec fn text_of(outcome: Result<String, CipherError>) -> Result<Seq<char>, CipherError> {
    match outcome {
        Ok(text) => Ok(text@),
        Err(error) => Err(error),
    }
}

/// A ciphertext is longer than the UTF-8 bytes of its text, by at most 16
/// bytes, and consists of whole blocks, whatever the text and the key.
pub proof fn lemma_encrypt_len(text: Seq<char>, key: Seq<u8>)
    ensures
        spec_encrypt_aes(text, key).len() == encode_utf8(text).len() + pad_len(
            encode_utf8(text).len(),
        ),
        encode_utf8(text).len() < spec_encrypt_aes(text, key).len() <= encode_utf8(text).len()
            + 16,
        spec_encrypt_aes(text, key).len() % 16 == 0,
{
    lemma_pad_len(encode_utf8(text));
    lemma_ecb_encrypt_len(key, pad(encode_utf8(text)));
}

/// The padded UTF-8 bytes of a text always decode to that text.
pub proof fn lemma_decode_padded_text(text: Seq<char>)
    ensures
        spec_decode_padded(pad(encode_utf8(text))) == Ok::<Seq<char>, CipherError>(text),
{
    lemma_unpad_pad(encode_utf8(text));
    encode_utf8_valid_utf8(text);
    encode_utf8_decode_utf8(text);
}

/// Calls `String::from_utf8` of the standard library.
///
/// Assumed, not proved: it accepts exactly the byte sequences that are valid
/// UTF-8, and the string it returns holds the characters that those bytes
/// encode.
#[verifier::external_body]
fn string_from_utf8(bytes: Vec<u8>) -> (text: Option<String>)
    ensures
        text is Some <==> valid_utf8(bytes@),
        text is Some ==> text.unwrap()@ == decode_utf8(bytes@),
{
    match String::from_utf8(bytes) {
        Ok(text) => Some(text),
        Err(_) => None,
    }
}

/// Removes the padding from decrypted bytes and decodes the rest as UTF-8.
pub fn decode_padded(padded: Vec<u8>) -> (outcome: Result<String, CipherError>)
    ensures
        text_of(outcome) == spec_decode_padded(padded@),
{
    match strip_padding(padded) {
        Err(error) => Err(error),
        Ok(bytes) => match string_from_utf8(bytes) {
            Some(text) => Ok(text),
            None => Err(CipherError::DecodingError),
        },
    }
}

/// Encrypts `plaintext` under `key`.
///
/// The result is a function of the two arguments alone. It is longer than the
/// UTF-8 bytes of the plaintext by the 1 to 16 bytes of padding, consists of
/// whole blocks, and decrypts under the same key to the plaintext.
pub fn encrypt_aes(plaintext: &str, key: &[u8; 16]) -> (ciphertext: Vec<u8>)
    ensures
        ciphertext@ == spec_encrypt_aes(plaintext@, key@),
        ciphertext@.len() == plaintext.spec_bytes().len() + pad_len(plaintext.spec_bytes().len()),
        plaintext.spec_bytes().len() < ciphertext@.len() <= plaintext.spec_bytes().len() + 16,
        ciphertext@.len() % 16 == 0,
        spec_decrypt_aes(key@, ciphertext@) == Ok::<Seq<char>, CipherError>(plaintext@),
{
    let padded = pad_bytes(plaintext.as_bytes());
    let ciphertext = ecb_encrypt(key, padded.as_slice());
    proof {
        lemma_encrypt_len(plaintext@, key@);
        lemma_decode_padded_text(plaintext@);
        assert(padded@.take(padded@.len() as int) == padded@);
    }
    ciphertext
}

/// Decrypts `ciphertext` under `key` and returns the text it holds.
///
/// Fails with `MalformedCiphertextLength` when the ciphertext is empty or not
/// made of whole blocks; otherwise with `PaddingError` when the last decrypted
/// byte is zero or exceeds the number of decrypted bytes; otherwise with
/// `DecodingError` when what is left after removing the padding is not valid
/// UTF-8.
pub fn decrypt_aes(key: &[u8; 16], ciphertext: Vec<u8>) -> (outcome: Result<String, CipherError>)
    ensures
        text_of(outcome) == spec_decrypt_aes(key@, ciphertext@),
        outcome == Err::<String, CipherError>(CipherError::MalformedCiphertextLength) <==> (
            ciphertext@.len() == 0 || ciphertext@.len() % 16 != 0
        ),
{
    let len: usize = ciphertext.len();
    if len == 0 || len % 16 != 0 {
        return Err(CipherError::MalformedCiphertextLength);
    }
    let padded = ecb_decrypt(key, ciphertext.as_slice());
    decode_padded(padded)
}

} // verus!
