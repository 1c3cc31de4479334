use padded_aes::record::{compute_outputs, contains_bytes, is_black_listed};
use padded_aes::{decrypt_aes, encrypt_aes, Outputs};

const KEY: [u8; 16] = [0x42u8; 16];

const SHA256_ABC: [u8; 32] = [
    0xba, 0x78, 0x16, 0xbf, 0x8f, 0x01, 0xcf, 0xea, 0x41, 0x41, 0x40, 0xde, 0x5d, 0xae, 0x22, 0x23,
    0xb0, 0x03, 0x61, 0xa3, 0x96, 0x17, 0x7a, 0x9c, 0xb4, 0x10, 0xff, 0x61, 0xf2, 0x00, 0x15, 0xad,
];

const SHA256_EMPTY: [u8; 32] = [
    0xe3, 0xb0, 0xc4, 0x42, 0x98, 0xfc, 0x1c, 0x14, 0x9a, 0xfb, 0xf4, 0xc8, 0x99, 0x6f, 0xb9, 0x24,
    0x27, 0xae, 0x41, 0xe4, 0x64, 0x9b, 0x93, 0x4c, 0xa4, 0x95, 0x99, 0x1b, 0x78, 0x52, 0xb8, 0x55,
];

fn words(list: &[&str]) -> Vec<String> {
    list.iter().map(|word| word.to_string()).collect()
}

#[test]
fn outputs_hold_the_digest_of_the_text() {
    assert_eq!(compute_outputs("abc", &KEY).hash, SHA256_ABC);
    assert_eq!(compute_outputs("", &KEY).hash, SHA256_EMPTY);
}

#[test]
fn outputs_hold_the_ciphertext_of_the_text() {
    let outputs = compute_outputs("abc", &KEY);
    assert_eq!(outputs.encrypted, encrypt_aes("abc", &KEY));
    assert_eq!(decrypt_aes(&KEY, outputs.encrypted), Ok("abc".to_string()));
}

#[test]
fn outputs_digest_does_not_depend_on_the_key() {
    let one = compute_outputs("Hello, World!", &KEY);
    let other = compute_outputs("Hello, World!", &[0u8; 16]);
    assert_eq!(one.hash, other.hash);
    assert_ne!(one.encrypted, other.encrypted);
}

#[test]
fn outputs_compare_by_both_fields() {
    let outputs = compute_outputs("abc", &KEY);
    assert_eq!(outputs.clone(), outputs);
    let built = Outputs { encrypted: encrypt_aes("abc", &KEY), hash: SHA256_ABC };
    assert_eq!(built, outputs);
    let other_hash = Outputs { encrypted: outputs.encrypted.clone(), hash: SHA256_EMPTY };
    assert_ne!(other_hash, outputs);
}

#[test]
fn contains_bytes_finds_a_run_anywhere() {
    assert!(contains_bytes(b"hello world", b"hello"));
    assert!(contains_bytes(b"hello world", b"o w"));
    assert!(contains_bytes(b"hello world", b"world"));
    assert!(contains_bytes(b"hello world", b"hello world"));
    assert!(contains_bytes(b"aaab", b"aab"));
}

#[test]
fn contains_bytes_rejects_what_is_not_there() {
    assert!(!contains_bytes(b"hello world", b"worlds"));
    assert!(!contains_bytes(b"hello world", b"hello world!"));
    assert!(!contains_bytes(b"hello world", b"hw"));
    assert!(!contains_bytes(b"", b"a"));
    assert!(!contains_bytes(b"abab", b"aba\0"));
}

#[test]
fn contains_bytes_finds_the_empty_needle_everywhere() {
    assert!(contains_bytes(b"hello", b""));
    assert!(contains_bytes(b"", b""));
}

#[test]
fn black_listed_when_any_word_occurs() {
    let list = words(&["forbidden", "secret"]);
    assert!(is_black_listed("a secret message", &list));
    assert!(is_black_listed("forbidden", &list));
    assert!(is_black_listed("unforbiddenly", &list));
}

#[test]
fn not_black_listed_when_no_word_occurs() {
    let list = words(&["forbidden", "secret"]);
    assert!(!is_black_listed("an innocent message", &list));
    assert!(!is_black_listed("secre t", &list));
    assert!(!is_black_listed("", &list));
}

#[test]
fn black_list_is_case_sensitive() {
    let list = words(&["Secret"]);
    assert!(!is_black_listed("a secret message", &list));
    assert!(is_black_listed("a Secret message", &list));
}

#[test]
fn empty_black_list_lists_nothing() {
    assert!(!is_black_listed("anything at all", &Vec::new()));
    assert!(!is_black_listed("", &Vec::new()));
}

#[test]
fn empty_word_lists_everything() {
    let list = words(&[""]);
    assert!(is_black_listed("anything", &list));
    assert!(is_black_listed("", &list));
}

#[test]
fn black_list_agrees_with_substring_search_on_text() {
    let list = words(&["\u{4e16}\u{754c}", "na\u{ef}ve"]);
    for text in ["hello \u{4e16}\u{754c}", "a na\u{ef}ve plan", "naive \u{4e16} \u{754c}", "\u{754c}\u{4e16}"] {
        let expected = list.iter().any(|word| text.contains(word.as_str()));
        assert_eq!(is_black_listed(text, &list), expected);
    }
}
