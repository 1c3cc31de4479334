use padded_aes::padding::{pad_bytes, strip_padding};
use padded_aes::{CipherError, BLOCK_SIZE};

#[test]
fn block_size_is_sixteen() {
    assert_eq!(BLOCK_SIZE, 16);
}

#[test]
fn pad_bytes_appends_the_pad_length() {
    let mut expected = b"abc".to_vec();
    expected.extend_from_slice(&[13u8; 13]);
    assert_eq!(pad_bytes(b"abc"), expected);
}

#[test]
fn pad_bytes_of_nothing_is_a_block_of_sixteens() {
    assert_eq!(pad_bytes(&[]), vec![16u8; 16]);
}

#[test]
fn pad_bytes_of_fifteen_bytes_appends_a_single_one() {
    let padded = pad_bytes(&[7u8; 15]);
    assert_eq!(padded.len(), 16);
    assert_eq!(padded[15], 1);
    assert_eq!(&padded[..15], &[7u8; 15][..]);
}

#[test]
fn pad_bytes_of_a_full_block_appends_a_full_block() {
    let padded = pad_bytes(&[7u8; 16]);
    assert_eq!(padded.len(), 32);
    assert_eq!(&padded[..16], &[7u8; 16][..]);
    assert_eq!(&padded[16..], &[16u8; 16][..]);
}

#[test]
fn pad_bytes_fills_to_the_next_multiple_of_sixteen() {
    for len in 0..=64usize {
        let data = vec![0xabu8; len];
        let padded = pad_bytes(&data);
        let fill = 16 - len % 16;
        assert_eq!(padded.len(), len + fill);
        assert_eq!(padded.len() % 16, 0);
        assert_eq!(&padded[..len], &data[..]);
        assert!(padded[len..].iter().all(|&byte| usize::from(byte) == fill));
    }
}

#[test]
fn strip_padding_undoes_pad_bytes() {
    for len in 0..=64usize {
        let data: Vec<u8> = (0..len).map(|i| (i % 251) as u8).collect();
        assert_eq!(strip_padding(pad_bytes(&data)), Ok(data));
    }
}

#[test]
fn strip_padding_trusts_the_last_byte_alone() {
    assert_eq!(strip_padding(vec![1, 2, 3, 4, 5, 2]), Ok(vec![1, 2, 3, 4]));
    assert_eq!(strip_padding(vec![9, 9, 9, 1]), Ok(vec![9, 9, 9]));
}

#[test]
fn strip_padding_accepts_more_than_a_block_of_padding() {
    let mut padded = vec![5u8; 32];
    padded[31] = 17;
    assert_eq!(strip_padding(padded), Ok(vec![5u8; 15]));
}

#[test]
fn strip_padding_may_leave_nothing() {
    assert_eq!(strip_padding(vec![3, 3, 3]), Ok(Vec::new()));
}

#[test]
fn strip_padding_rejects_zero() {
    assert_eq!(strip_padding(vec![1, 2, 0]), Err(CipherError::PaddingError));
}

#[test]
fn strip_padding_rejects_more_than_there_is() {
    assert_eq!(strip_padding(vec![1, 2, 4]), Err(CipherError::PaddingError));
    assert_eq!(strip_padding(vec![255u8; 16]), Err(CipherError::PaddingError));
}

#[test]
fn strip_padding_rejects_the_empty_buffer() {
    assert_eq!(strip_padding(Vec::new()), Err(CipherError::PaddingError));
}
