use wx_ilink_bot::crypto::{aes_ecb_decrypt, aes_ecb_encrypt, generate_aes_key, CryptoError};

#[test]
fn test_encrypt_decrypt_roundtrip() {
    let key = generate_aes_key();
    let original = b"Hello, WeChat iLink Bot!";

    let encrypted = aes_ecb_encrypt(original, &key).unwrap();
    let decrypted = aes_ecb_decrypt(&encrypted, &key).unwrap();

    assert_eq!(decrypted, original);
}

#[test]
fn test_encrypt_decrypt_empty() {
    let key = generate_aes_key();
    let original = b"";

    let encrypted = aes_ecb_encrypt(original, &key).unwrap();
    let decrypted = aes_ecb_decrypt(&encrypted, &key).unwrap();

    assert_eq!(decrypted, original);
}

#[test]
fn test_encrypt_decrypt_block_aligned() {
    let key = generate_aes_key();
    let original = b"1234567890123456"; // 正好 16 字节

    let encrypted = aes_ecb_encrypt(original, &key).unwrap();
    let decrypted = aes_ecb_decrypt(&encrypted, &key).unwrap();

    assert_eq!(decrypted, original);
}

// A key of sixteen zero bytes, in base64.
const ZERO_KEY: &str = "AAAAAAAAAAAAAAAAAAAAAA==";

#[test]
fn ciphertext_is_padded_to_whole_blocks() {
    assert_eq!(aes_ecb_encrypt(b"", ZERO_KEY).unwrap().len(), 16);
    assert_eq!(aes_ecb_encrypt(b"abc", ZERO_KEY).unwrap().len(), 16);
    assert_eq!(aes_ecb_encrypt(b"1234567890123456", ZERO_KEY).unwrap().len(), 32);
}

#[test]
fn known_aes_block_of_the_zero_key() {
    // The FIPS-197 known answer: AES-128 of sixteen zero bytes under the
    // all-zero key.
    let c = aes_ecb_encrypt(&[0u8; 16], ZERO_KEY).unwrap();
    let expected: [u8; 16] = [
        0x66, 0xe9, 0x4b, 0xd4, 0xef, 0x8a, 0x2c, 0x3b, 0x88, 0x4c, 0xfa, 0x59, 0xca, 0x34, 0x2b, 0x2e,
    ];
    assert_eq!(&c[..16], &expected[..]);
    assert_eq!(aes_ecb_decrypt(&c, ZERO_KEY).unwrap(), vec![0u8; 16]);
}

#[test]
fn bad_padding_is_left_in_place() {
    // A block that decrypts to sixteen zero bytes ends in 0, no valid
    // padding: the plaintext comes back whole.
    let expected: [u8; 16] = [
        0x66, 0xe9, 0x4b, 0xd4, 0xef, 0x8a, 0x2c, 0x3b, 0x88, 0x4c, 0xfa, 0x59, 0xca, 0x34, 0x2b, 0x2e,
    ];
    assert_eq!(aes_ecb_decrypt(&expected, ZERO_KEY).unwrap(), vec![0u8; 16]);
}

#[test]
fn key_that_is_not_base64_is_refused() {
    assert_eq!(aes_ecb_encrypt(b"x", "not base64!"), Err(CryptoError::KeyDecode));
    assert_eq!(aes_ecb_decrypt(&[0u8; 16], "not base64!"), Err(CryptoError::KeyDecode));
}

#[test]
fn key_of_wrong_length_is_refused() {
    // "AAAA" decodes to three bytes.
    assert_eq!(aes_ecb_encrypt(b"x", "AAAA"), Err(CryptoError::InvalidKeyLength(3)));
}

#[test]
fn generated_key_decodes_to_sixteen_bytes() {
    let key = generate_aes_key();
    assert_eq!(key.len(), 24);
    assert!(aes_ecb_encrypt(b"x", &key).is_ok());
}
