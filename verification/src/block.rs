//! The AES-128 block transform, applied to each 16-byte block on its own.
//!
//! The transform of a single block is computed by the `aes` crate and is not
//! verified here; what this module assumes of it is said at the two private
//! functions that call it. The partition into blocks, the order of the blocks
//! and the handling of lengths are verified.

use vstd::prelude::*;
use vstd::slice::slice_subrange;
use aes::cipher::generic_array::GenericArray;
use aes::cipher::{BlockDecrypt, BlockEncrypt, KeyInit};
use aes::Aes128;

verus! {

/// The 16 bytes that AES-128 encryption under `key` makes of `block`.
pub uninterp spec fn aes128_encrypt_block(key: Seq<u8>, block: Seq<u8>) -> Seq<u8>;

/// The 16 bytes that AES-128 decryption under `key` makes of `block`.
pub uninterp spec fn aes128_decrypt_block(key: Seq<u8>, block: Seq<u8>) -> Seq<u8>;

/// Block number `index` of `data`, counting from 0.
pub open spec fn block_at(data: Seq<u8>, index: int) -> Seq<u8> {
    data.subrange(16 * index, 16 * index + 16)
}

/// Number of bytes of `data` that lie in whole blocks.
pub open spec fn whole_blocks_len(data: Seq<u8>) -> nat {
    (16 * (data.len() / 16)) as nat
}

/// Every whole block of `data` encrypted under `key`, in order: byte `i` of
/// the result is byte `i mod 16` of the encryption of block `i div 16`.
/// Bytes of `data` after its last whole block have no part in the result.
pub open spec fn spec_ecb_encrypt(key: Seq<u8>, data: Seq<u8>) -> Seq<u8> {
    Seq::new(
        whole_blocks_len(data),
        |i: int| aes128_encrypt_block(key, block_at(data, i / 16))[i % 16],
    )
}

/// Every whole block of `data` decrypted under `key`, in order: byte `i` of
/// the result is byte `i mod 16` of the decryption of block `i div 16`.
/// Bytes of `data` after its last whole block have no part in the result.
pub open spec fn spec_ecb_decrypt(key: Seq<u8>, data: Seq<u8>) -> Seq<u8> {
    Seq::new(
        whole_blocks_len(data),
        |i: int| aes128_decrypt_block(key, block_at(data, i / 16))[i % 16],
    )
}

/// Block-wise encryption keeps the number of bytes that lie in whole blocks.
pub proof fn lemma_ecb_encrypt_len(key: Seq<u8>, data: Seq<u8>)
    ensures
        spec_ecb_encrypt(key, data).len() == whole_blocks_len(data),
        spec_ecb_encrypt(key, data).len() % 16 == 0,
        data.len() % 16 == 0 ==> spec_ecb_encrypt(key, data).len() == data.len(),
{
}

/// A block of ciphertext depends on the key and on the plaintext block at the
/// same place alone: equal plaintext blocks, in one message or in two, have
/// equal ciphertext blocks under one key.
pub proof fn lemma_equal_blocks_encrypt_equally(
    key: Seq<u8>,
    first: Seq<u8>,
    i: int,
    second: Seq<u8>,
    j: int,
)
    requires
        0 <= i < first.len() / 16,
        0 <= j < second.len() / 16,
        block_at(first, i) == block_at(second, j),
    ensures
        block_at(spec_ecb_encrypt(key, first), i) == block_at(spec_ecb_encrypt(key, second), j),
{
    let left: Seq<u8> = block_at(spec_ecb_encrypt(key, first), i);
    let right: Seq<u8> = block_at(spec_ecb_encrypt(key, second), j);
    assert forall|k: int| 0 <= k < 16 implies left[k] == right[k] by {
        assert((16 * i + k) / 16 == i && (16 * i + k) % 16 == k);
        assert((16 * j + k) / 16 == j && (16 * j + k) % 16 == k);
    }
    assert(left =~= right);
}

/// Calls `Aes128::new` of the `aes` crate on the key and `encrypt_block` on a
/// copy of the block.
///
/// Assumed, not proved: the block returned is the AES-128 encryption of
/// `block` under `key`, a function of these two alone, and AES-128
/// decryption under the same key turns it back into `block`.
#[verifier::external_body]
fn encrypt_block(key: &[u8; 16], block: &[u8]) -> (image: [u8; 16])
    requires
        block@.len() == 16,
    ensures
        image@ == aes128_encrypt_block(key@, block@),
        aes128_decrypt_block(key@, image@) == block@,
{
    let cipher = Aes128::new(GenericArray::from_slice(key));
    let mut buffer = GenericArray::clone_from_slice(block);
    cipher.encrypt_block(&mut buffer);
    buffer.into()
}

/// Calls `Aes128::new` of the `aes` crate on the key and `decrypt_block` on a
/// copy of the block.
///
/// Assumed, not proved: the block returned is the AES-128 decryption of
/// `block` under `key`, a function of these two alone.
#[verifier::external_body]
fn decrypt_block(key: &[u8; 16], block: &[u8]) -> (image: [u8; 16])
    requires
        block@.len() == 16,
    ensures
        image@ == aes128_decrypt_block(key@, block@),
{
    let cipher = Aes128::new(GenericArray::from_slice(key));
    let mut buffer = GenericArray::clone_from_slice(block);
    cipher.decrypt_block(&mut buffer);
    buffer.into()
}

/// Appends the 16 bytes of `block` to `out`.
fn append_block(out: &mut Vec<u8>, block: &[u8; 16])
    ensures
        final(out)@ == old(out)@ + block@,
{
    let mut copied: usize = 0;
    while copied < 16
        invariant
            copied <= 16,
            out@ == old(out)@ + block@.take(copied as int),
        decreases 16 - copied,
    {
        out.push(block[copied]);
        copied += 1;
    }
}

/// Byte `i` of `data` is byte `i mod 16` of its block `i div 16`.
proof fn lemma_byte_in_block(data: Seq<u8>, i: int)
    requires
        0 <= i < whole_blocks_len(data),
    ensures
        0 <= i / 16 < data.len() / 16,
        data[i] == block_at(data, i / 16)[i % 16],
{
}

/// Encrypts every whole block of `data` under `key`, each on its own.
///
/// Decrypting the result block by block under the same key gives the whole
/// blocks of `data` back.
pub fn ecb_encrypt(key: &[u8; 16], data: &[u8]) -> (out: Vec<u8>)
    ensures
        out@ == spec_ecb_encrypt(key@, data@),
        spec_ecb_decrypt(key@, out@) == data@.take(whole_blocks_len(data@) as int),
{
    let len: usize = data.len();
    let blocks: usize = len / 16;
    let mut out: Vec<u8> = Vec::new();
    let mut done: usize = 0;
    while done < blocks
        invariant
            len == data@.len(),
            blocks == len / 16,
            done <= blocks,
            out@.len() == 16 * done,
            forall|k: int|
                0 <= k < done ==> {
                    &&& #[trigger] block_at(out@, k) == aes128_encrypt_block(
                        key@,
                        block_at(data@, k),
                    )
                    &&& aes128_decrypt_block(key@, block_at(out@, k)) == block_at(data@, k)
                },
        decreases blocks - done,
    {
        let ghost before = out@;
        let image = encrypt_block(key, slice_subrange(data, 16 * done, 16 * done + 16));
        append_block(&mut out, &image);
        proof {
            assert(block_at(out@, done as int) == image@);
            assert forall|k: int| 0 <= k < done implies #[trigger] block_at(out@, k) == block_at(
                before,
                k,
            ) by {}
        }
        done += 1;
    }
    proof {
        let plain: Seq<u8> = data@.take(whole_blocks_len(data@) as int);
        assert forall|i: int| 0 <= i < out@.len() implies out@[i] == spec_ecb_encrypt(
            key@,
            data@,
        )[i] by {
            lemma_byte_in_block(out@, i);
        }
        assert forall|i: int| 0 <= i < out@.len() implies plain[i] == spec_ecb_decrypt(
            key@,
            out@,
        )[i] by {
            lemma_byte_in_block(out@, i);
            lemma_byte_in_block(data@, i);
        }
    }
    out
}

/// Decrypts every whole block of `data` under `key`, each on its own.
pub fn ecb_decrypt(key: &[u8; 16], data: &[u8]) -> (out: Vec<u8>)
    ensures
        out@ == spec_ecb_decrypt(key@, data@),
{
    let len: usize = data.len();
    let blocks: usize = len / 16;
    let mut out: Vec<u8> = Vec::new();
    let mut done: usize = 0;
    while done < blocks
        invariant
            len == data@.len(),
            blocks == len / 16,
            done <= blocks,
            out@.len() == 16 * done,
            forall|k: int|
                0 <= k < done ==> #[trigger] block_at(out@, k) == aes128_decrypt_block(
                    key@,
                    block_at(data@, k),
                ),
        decreases blocks - done,
    {
        let ghost before = out@;
        let image = decrypt_block(key, slice_subrange(data, 16 * done, 16 * done + 16));
        append_block(&mut out, &image);
        proof {
            assert(block_at(out@, done as int) == image@);
            assert forall|k: int| 0 <= k < done implies #[trigger] block_at(out@, k) == block_at(
                before,
                k,
            ) by {}
        }
        done += 1;
    }
    proof {
        assert forall|i: int| 0 <= i < out@.len() implies out@[i] == spec_ecb_decrypt(
            key@,
            data@,
        )[i] by {
            lemma_byte_in_block(out@, i);
        }
    }
    out
}

} // verus!
