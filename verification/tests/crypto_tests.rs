use gossamer::crypto::{
    decrypt, encrypt, encrypt_decrypt_round_trip, encrypt_with_fixed_nonce, generate_identity,
    generate_mailbox, mailbox_short, mailbox_short_from_tag, CryptoError,
};
use gossamer::hexfmt::{hex_decode, hex_encode};

#[test]
fn identity_is_32_random_bytes() {
    let a = generate_identity();
    let b = generate_identity();
    assert_eq!(a.len(), 32);
    assert_eq!(b.len(), 32);
    assert_ne!(a, b);
}

#[test]
fn mailbox_deterministic_within_slot() {
    let secret = vec![7u8; 32];
    let t1: u64 = 1_700_000_400;
    let t2: u64 = t1 + (3600 - t1 % 3600) - 1; // last second of the same hour slot
    assert_eq!(t1 / 3600, t2 / 3600);
    assert_eq!(generate_mailbox(&secret, t1), generate_mailbox(&secret, t2));
}

#[test]
fn mailbox_rotates_on_hour_boundary() {
    let secret = vec![7u8; 32];
    let t: u64 = 1_700_000_400;
    let next_slot = (t / 3600 + 1) * 3600;
    assert_ne!(generate_mailbox(&secret, t), generate_mailbox(&secret, next_slot));
}

#[test]
fn mailbox_differs_across_secrets() {
    let t: u64 = 1_700_000_400;
    assert_ne!(generate_mailbox(&[1u8; 32], t), generate_mailbox(&[2u8; 32], t));
}

#[test]
fn mailbox_is_64_hex_digits_and_short_is_its_prefix() {
    let secret = vec![9u8; 32];
    let t: u64 = 1_712_345_678;
    let mb = generate_mailbox(&secret, t);
    assert_eq!(mb.len(), 64);
    let digest = hex_decode(&mb).expect("mailbox is hex");
    assert_eq!(digest.len(), 32);
    let expected = u32::from_be_bytes([digest[0], digest[1], digest[2], digest[3]]);
    assert_eq!(mailbox_short(&secret, t), expected);
}

#[test]
fn short_mailbox_from_tag_matches_direct_computation() {
    let secret = vec![9u8; 32];
    let t: u64 = 1_712_345_678;
    let mb = generate_mailbox(&secret, t);
    assert_eq!(mailbox_short_from_tag(&mb), Some(mailbox_short(&secret, t)));
    assert_eq!(mailbox_short_from_tag("zz"), None);
    assert_eq!(mailbox_short_from_tag("abcdef"), None, "shorter than four bytes");
}

#[test]
fn encrypt_then_decrypt_returns_plaintext() {
    let secret = vec![42u8; 32];
    let plaintext = b"attack at dawn";
    let (ct, nonce) = encrypt(&secret, plaintext);
    assert_eq!(nonce.len(), 24);
    assert_eq!(ct.len(), plaintext.len() + 16);
    assert_ne!(&ct[..plaintext.len()], &plaintext[..]);
    let plain = decrypt(&secret, &nonce, &ct).expect("round trip");
    assert_eq!(plain, plaintext);
}

#[test]
fn round_trip_helper_returns_plaintext() {
    let secret = vec![3u8; 32];
    assert_eq!(encrypt_decrypt_round_trip(&secret, b"hello"), b"hello");
}

#[test]
fn fixed_nonce_encryption_is_deterministic_and_decrypts() {
    let secret = vec![5u8; 32];
    let nonce = [1u8; 24];
    let (ct1, n1) = encrypt_with_fixed_nonce(&secret, b"msg", &nonce);
    let (ct2, _) = encrypt_with_fixed_nonce(&secret, b"msg", &nonce);
    assert_eq!(ct1, ct2);
    assert_eq!(n1, nonce.to_vec());
    assert_eq!(decrypt(&secret, &nonce, &ct1).expect("fixed nonce round trip"), b"msg");
}

#[test]
fn decrypt_rejects_other_secret() {
    let s1 = vec![1u8; 32];
    let s2 = vec![2u8; 32];
    let (ct, nonce) = encrypt(&s1, b"for s1 only");
    let r = decrypt(&s2, &nonce, &ct);
    assert_eq!(r.unwrap_err(), CryptoError::AuthenticationFailed);
}

#[test]
fn decrypt_rejects_corrupted_ciphertext() {
    let secret = vec![1u8; 32];
    let (mut ct, nonce) = encrypt(&secret, b"payload");
    ct[0] ^= 0x80;
    assert_eq!(decrypt(&secret, &nonce, &ct).unwrap_err(), CryptoError::AuthenticationFailed);
}

#[test]
fn hex_round_trip_and_exact_encoding() {
    assert_eq!(hex_encode(&[0x0f, 0xa0, 0x00, 0xff]), "0fa000ff");
    assert_eq!(hex_encode(&[]), "");
    let bytes = vec![0u8, 1, 2, 254, 255];
    let decoded = hex_decode(&hex_encode(&bytes)).expect("round trip");
    assert_eq!(decoded, bytes);
    assert_eq!(hex_decode("AbCdEf").expect("upper case accepted"), vec![0xab, 0xcd, 0xef]);
}

#[test]
fn hex_decode_rejects_bad_input() {
    assert!(hex_decode("abc").is_none(), "odd length");
    assert!(hex_decode("zz").is_none(), "not a hex digit");
    assert_eq!(hex_decode("").expect("empty is valid"), Vec::<u8>::new());
}
