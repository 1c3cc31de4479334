//! The record made of a text for later attestation, and the screening of the
//! text against a list of forbidden words.
//!
//! The record pairs the ciphertext of the text with the SHA-256 digest of its
//! UTF-8 bytes. The two are computed independently of each other; the digest
//! says nothing about the integrity of the ciphertext.

use vstd::prelude::*;
use vstd::string::StringSliceAdditionalSpecFns;
use vstd::utf8::encode_utf8;
use risc0_zkvm::sha::{Impl, Sha256};
use crate::codec::{encrypt_aes, spec_encrypt_aes};

verus! {

/// The SHA-256 digest of `data`, 32 bytes.
pub uninterp spec fn sha256(data: Seq<u8>) -> Seq<u8>;

/// What is committed for one text: its ciphertext and its digest.
#[derive(Clone, Debug, PartialEq, Eq)]
pub struct Outputs {
    /// The text, padded and encrypted.
    pub encrypted: Vec<u8>,
    /// The SHA-256 digest of the UTF-8 bytes of the text.
    pub hash: [u8; 32],
}

/// The two fields of a record as byte sequences.
pub ghost struct OutputsView {
    pub encrypted: Seq<u8>,
    pub hash: Seq<u8>,
}

impl View for Outputs {
    type V = OutputsView;

    open spec fn view(&self) -> OutputsView {
        OutputsView { encrypted: self.encrypted@, hash: self.hash@ }
    }
}

/// The record of `text` under `key`.
pub open spec fn spec_outputs(text: Seq<char>, key: Seq<u8>) -> OutputsView {
    OutputsView { encrypted: spec_encrypt_aes(text, key), hash: sha256(encode_utf8(text)) }
}

/// `needle` stands in `haystack` at offset `start`.
pub open spec fn occurs_at(needle: Seq<u8>, haystack: Seq<u8>, start: int) -> bool {
    &&& 0 <= start
    &&& start + needle.len() <= haystack.len()
    &&& haystack.subrange(start, start + needle.len()) == needle
}

/// `needle` stands somewhere in `haystack` as a run of consecutive bytes.
pub open spec fn occurs_in(needle: Seq<u8>, haystack: Seq<u8>) -> bool {
    exists|start: int| occurs_at(needle, haystack, start)
}

/// Some word of the list occurs verbatim in the text. Words and text are
/// compared by their UTF-8 bytes, so the comparison is case-sensitive.
pub open spec fn spec_is_black_listed(text: Seq<char>, black_list: Seq<Seq<char>>) -> bool {
    exists|w: int|
        0 <= w < black_list.len() && occurs_in(
            encode_utf8(#[trigger] black_list[w]),
            encode_utf8(text),
        )
}

/// Calls `Impl::hash_bytes` of `risc0_zkvm::sha` and copies the digest out as
/// bytes.
///
/// Assumed, not proved: the 32 bytes returned are the SHA-256 digest of
/// `bytes`, a function of `bytes` alone.
#[verifier::external_body]
fn hash_bytes(bytes: &[u8]) -> (digest: [u8; 32])
    ensures
        digest@ == sha256(bytes@),
{
    (*Impl::hash_bytes(bytes)).into()
}

/// Tells whether `needle` stands in `haystack` at offset `start`.
fn matches_at(haystack: &[u8], needle: &[u8], start: usize) -> (same: bool)
    requires
        start + needle@.len() <= haystack@.len(),
    ensures
        same == occurs_at(needle@, haystack@, start as int),
{
    let len: usize = needle.len();
    let total: usize = haystack.len();
    let ghost window = haystack@.subrange(start as int, start + len);
    let mut checked: usize = 0;
    while checked < len
        invariant
            len == needle@.len(),
            total == haystack@.len(),
            start + len <= total,
            window == haystack@.subrange(start as int, start + len),
            checked <= len,
            forall|j: int| 0 <= j < checked ==> window[j] == needle@[j],
        decreases len - checked,
    {
        if haystack[start + checked] != needle[checked] {
            assert(window[checked as int] != needle@[checked as int]);
            return false;
        }
        checked += 1;
    }
    assert(window =~= needle@);
    true
}

/// Tells whether `needle` occurs in `haystack`. The empty needle occurs in
/// every haystack.
pub fn contains_bytes(haystack: &[u8], needle: &[u8]) -> (found: bool)
    ensures
        found == occurs_in(needle@, haystack@),
{
    let len: usize = needle.len();
    let total: usize = haystack.len();
    if len > total {
        return false;
    }
    if len == 0 {
        assert(haystack@.subrange(0, 0) =~= needle@);
        assert(occurs_at(needle@, haystack@, 0));
        return true;
    }
    let last: usize = total - len;
    let mut start: usize = 0;
    while start <= last
        invariant
            len == needle@.len(),
            total == haystack@.len(),
            1 <= len <= total,
            last == total - len,
            start <= last + 1,
            forall|s: int| 0 <= s < start ==> !occurs_at(needle@, haystack@, s),
        decreases last + 1 - start,
    {
        if matches_at(haystack, needle, start) {
            return true;
        }
        start += 1;
    }
    false
}

/// Tells whether any word of `black_list` occurs verbatim in `plaintext`.
pub fn is_black_listed(plaintext: &str, black_list: &Vec<String>) -> (listed: bool)
    ensures
        listed == spec_is_black_listed(plaintext@, black_list.deep_view()),
{
    let text = plaintext.as_bytes();
    let words: usize = black_list.len();
    let mut seen: usize = 0;
    while seen < words
        invariant
            words == black_list@.len(),
            seen <= words,
            text@ == encode_utf8(plaintext@),
            forall|w: int|
                0 <= w < seen ==> !occurs_in(
                    encode_utf8(#[trigger] black_list.deep_view()[w]),
                    text@,
                ),
        decreases words - seen,
    {
        if contains_bytes(text, black_list[seen].as_str().as_bytes()) {
            assert(black_list.deep_view()[seen as int] == black_list@[seen as int]@);
            return true;
        }
        assert(black_list.deep_view()[seen as int] == black_list@[seen as int]@);
        seen += 1;
    }
    false
}

/// Computes the record of `plaintext` under `key`: the ciphertext and the
/// digest of the text.
pub fn compute_outputs(plaintext: &str, key: &[u8; 16]) -> (outputs: Outputs)
    ensures
        outputs@ == spec_outputs(plaintext@, key@),
{
    let hash = hash_bytes(plaintext.as_bytes());
    let encrypted = encrypt_aes(plaintext, key);
    Outputs { encrypted, hash }
}

} // verus!
