use sha3::{Digest, Keccak256};
use volezk::block::{Block, Block128, Block256};
use volezk::IsZero;

fn gen_key() -> [u8; 32] {
    let mut hasher = Keccak256::default();
    hasher.update(b"Key");
    hasher.finalize().into()
}

#[test]
fn test_cast_block256() {
    let block = Block256::from([0u8; 32]);
    assert!(block.is_zero());
}

#[test]
fn test_block128_from_bytes() {
    let block = Block128::from_bytes(&[1u8; 12]);
    assert_eq!(block.0, [1, 1, 1, 1, 1, 1, 1, 1, 1, 1, 1, 1, 0, 0, 0, 0,]);
}

#[test]
fn test_block128_from_bytes_2() {
    let val = [1u8; 18];
    let block = Block128::from_bytes(&val);
    assert_eq!(block.0, [1u8; 16]);
}

#[test]
fn test_block128_encrypt_decrypt() {
    let block = Block128::from_bytes(&[1u8; 16]);
    let key = gen_key();

    let encrypted = block.encrypt(&key);
    let decrypted = encrypted.decrypt(&key);

    assert_eq!(decrypted, block);
}

#[test]
fn test_block_vec() {
    let blocks = vec![
        Block128::from_bytes(&[1u8; 16]),
        Block128::from_bytes(&[0u8; 16]),
    ];

    let key = gen_key();
    let encrypted = blocks.encrypt(&key);
    let decrypted = encrypted.decrypt(&key);

    assert_eq!(decrypted, blocks);
}

#[test]
fn encrypt_changes_the_block() {
    let block = Block128::from(7u128);
    let key = gen_key();
    let encrypted = block.encrypt(&key);
    assert_ne!(encrypted, block);
    let other_key = [9u8; 32];
    assert_ne!(block.encrypt(&other_key), encrypted);
}

#[test]
fn block256_encrypt_round_trip() {
    let mut bytes = [0u8; 32];
    for (i, b) in bytes.iter_mut().enumerate() {
        *b = i as u8;
    }
    let block = Block256::from(bytes);
    let key = gen_key();
    let encrypted = block.encrypt(&key);
    assert_ne!(encrypted, block);
    assert_eq!(encrypted.decrypt(&key), block);
}

#[test]
fn block128_from_u128_is_big_endian() {
    let block = Block128::from(0x0102u128);
    let mut expected = [0u8; 16];
    expected[14] = 1;
    expected[15] = 2;
    assert_eq!(block.0, expected);
    assert_eq!(Block128::from(1u128).0[15], 1);
}

#[test]
fn block128_bytes_round_trip() {
    let block = Block128::from(0xdead_beef_0000_1111_2222_3333_4444_5555u128);
    let bytes = block.as_bytes();
    assert_eq!(bytes.len(), 16);
    assert_eq!(block.bytes_len(), 16);
    assert_eq!(Block128::from_bytes(&bytes), block);
}

#[test]
fn block256_pads_and_truncates() {
    let short = Block256::from_bytes(&[3u8; 20]);
    let bytes = short.as_bytes();
    assert_eq!(bytes.len(), 32);
    assert_eq!(&bytes[..20], &[3u8; 20]);
    assert_eq!(&bytes[20..], &[0u8; 12]);

    let tiny = Block256::from_bytes(&[5u8; 3]);
    let bytes = tiny.as_bytes();
    assert_eq!(&bytes[..3], &[5u8; 3]);
    assert!(bytes[3..].iter().all(|b| *b == 0));

    let mut long = [0u8; 40];
    for (i, b) in long.iter_mut().enumerate() {
        *b = i as u8 + 1;
    }
    let block = Block256::from_bytes(&long);
    assert_eq!(block.as_bytes(), long[..32].to_vec());
    assert_eq!(block.bytes_len(), 32);
    assert_eq!(Block256::from_bytes(&block.as_bytes()), block);
}

#[test]
fn block_vec_chunks_bytes() {
    let bytes: Vec<u8> = (1..=20u8).collect();
    let blocks = <Vec<Block128> as Block>::from_bytes(&bytes);
    assert_eq!(blocks.len(), 2);
    assert_eq!(blocks.bytes_len(), 32);
    let out = blocks.as_bytes();
    assert_eq!(&out[..20], &bytes[..]);
    assert_eq!(&out[20..], &[0u8; 12]);
    assert_eq!(<Vec<Block128> as Block>::from_bytes(&out), blocks);

    let empty = <Vec<Block128> as Block>::from_bytes(&[]);
    assert!(empty.is_empty());
    assert_eq!(<Vec<Block128> as Block>::from_bytes(&[7u8; 16]).len(), 1);
}

#[test]
fn is_zero_sees_any_set_byte() {
    assert!(Block128::from(0u128).is_zero());
    assert!(!Block128::from(1u128).is_zero());
    let mut bytes = [0u8; 32];
    bytes[31] = 1;
    assert!(!Block256::from(bytes).is_zero());
    assert!(Block256::from([Block128::from(0u128), Block128::from(0u128)]).is_zero());
}
