//! AES-128 encryption of text with length-encoding padding.
//!
//! A text is padded to a whole number of 16-byte blocks, every padding byte
//! holding the number of padding bytes, and each block is then transformed
//! on its own under a 128-bit key. Decryption inverts the block transform,
//! removes the padding and decodes the remaining bytes as UTF-8.
//!
//! No chaining value links the blocks: equal plaintext blocks give equal
//! ciphertext blocks under one key. The scheme hides neither repetition nor
//! length and authenticates nothing.

pub mod block;
pub mod codec;
pub mod error;
pub mod padding;
pub mod record;

pub use codec::{decrypt_aes, encrypt_aes};
pub use error::CipherError;
pub use padding::BLOCK_SIZE;
pub use record::Outputs;
