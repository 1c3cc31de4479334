//! Length-encoding padding to whole blocks.
//!
//! Between 1 and 16 bytes are appended so that the total length is a multiple
//! of 16, and each appended byte holds the number of appended bytes. A message
//! whose length already is a multiple of 16 receives a full block of padding,
//! so the last byte of a padded message always tells how much to remove.

use vstd::prelude::*;
use vstd::slice::slice_to_vec;
use crate::error::CipherError;

verus! {

/// Number of bytes in one cipher block.
pub const BLOCK_SIZE: usize = 16;

/// Number of padding bytes appended to a message of `len` bytes.
pub open spec fn pad_len(len: nat) -> nat {
    (16 - len % 16) as nat
}

/// The message followed by its padding.
pub open spec fn pad(data: Seq<u8>) -> Seq<u8> {
    data + Seq::new(pad_len(data.len()), |i: int| pad_len(data.len()) as u8)
}

/// The message that remains when the padding announced by the last byte is
/// removed, or `None` when the last byte announces no padding or more than
/// there are bytes. The removed bytes themselves are not inspected.
pub open spec fn unpad(padded: Seq<u8>) -> Option<Seq<u8>> {
    if padded.len() == 0 {
        None
    } else if 1 <= padded.last() <= padded.len() {
        Some(padded.take(padded.len() - padded.last()))
    } else {
        None
    }
}

/// The padding length lies between 1 and 16 and completes the last block.
pub proof fn lemma_pad_len_completes_block(len: nat)
    ensures
        1 <= pad_len(len) <= 16,
        (len + pad_len(len)) % 16 == 0,
{
}

/// A padded message is longer than the message, by at most one block, and
/// consists of whole blocks.
pub proof fn lemma_pad_len(data: Seq<u8>)
    ensures
        pad(data).len() == data.len() + pad_len(data.len()),
        data.len() < pad(data).len() <= data.len() + 16,
        pad(data).len() % 16 == 0,
        pad(data).len() > 0,
{
    lemma_pad_len_completes_block(data.len());
}

/// Removing the padding of a padded message gives the message back.
pub proof fn lemma_unpad_pad(data: Seq<u8>)
    ensures
        unpad(pad(data)) == Some(data),
{
    lemma_pad_len(data);
    let padded: Seq<u8> = pad(data);
    let fill: nat = pad_len(data.len());
    assert(padded.last() == fill as u8);
    assert(padded.take(padded.len() - fill) =~= data);
}

/// Appends the padding to a copy of `data`.
pub fn pad_bytes(data: &[u8]) -> (padded: Vec<u8>)
    ensures
        padded@ == pad(data@),
{
    let mut padded: Vec<u8> = slice_to_vec(data);
    let fill: usize = BLOCK_SIZE - data.len() % BLOCK_SIZE;
    let mut written: usize = 0;
    while written < fill
        invariant
            fill == pad_len(data@.len()),
            1 <= fill <= 16,
            written <= fill,
            padded@ == data@ + Seq::new(written as nat, |i: int| fill as u8),
        decreases fill - written,
    {
        padded.push(fill as u8);
        written += 1;
    }
    padded
}

/// Removes the padding that the last byte of `padded` announces.
pub fn strip_padding(padded: Vec<u8>) -> (stripped: Result<Vec<u8>, CipherError>)
    ensures
        match unpad(padded@) {
            Some(data) => stripped is Ok && stripped.unwrap()@ == data,
            None => stripped == Err::<Vec<u8>, CipherError>(CipherError::PaddingError),
        },
{
    let mut bytes = padded;
    let len: usize = bytes.len();
    if len == 0 {
        return Err(CipherError::PaddingError);
    }
    let fill: usize = bytes[len - 1] as usize;
    if fill == 0 || fill > len {
        return Err(CipherError::PaddingError);
    }
    bytes.truncate(len - fill);
    Ok(bytes)
}

} // verus!
