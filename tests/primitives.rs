use passcrypt::engine::{process_payload, Direction, PayloadEngine};
use passcrypt::kdf::{check_params, derive_keys};
use passcrypt::format::KdfParams;

const XSALSA_KEY: [u8; 32] = [
    0x1b, 0x27, 0x55, 0x64, 0x73, 0xe9, 0x85, 0xd4, 0x62, 0xcd, 0x51, 0x19, 0x7a, 0x9a, 0x46, 0xc7,
    0x60, 0x09, 0x54, 0x9e, 0xac, 0x64, 0x74, 0xf2, 0x06, 0xc4, 0xee, 0x08, 0x44, 0xf6, 0x83, 0x89,
];
const XSALSA_NONCE: [u8; 24] = [
    0x69, 0x69, 0x6e, 0xe9, 0x55, 0xb6, 0x2b, 0x73, 0xcd, 0x62, 0xbd, 0xa8, 0x75, 0xfc, 0x73, 0xd6,
    0x82, 0x19, 0xe0, 0x03, 0x6b, 0x7a, 0x0b, 0x37,
];
const XSALSA_STREAM: [u8; 16] = [
    0xee, 0xa6, 0xa7, 0x25, 0x1c, 0x1e, 0x72, 0x91, 0x6d, 0x11, 0xc2, 0xcb, 0x21, 0x4d, 0x3c, 0x25,
];

fn mac_key() -> Vec<u8> {
    (0..64u8).collect()
}

#[test]
fn engine_keystream_matches_xsalsa20_and_continues_across_chunks() {
    let mut e = PayloadEngine::new(Direction::Encrypt, &XSALSA_KEY, &XSALSA_NONCE, &mac_key());
    let mut out = e.process_chunk(&[0u8; 5]);
    out.extend(e.process_chunk(&[0u8; 11]));
    assert_eq!(out, XSALSA_STREAM.to_vec());
    assert_eq!(e.processed(), 16);
}

#[test]
fn engine_mac_matches_keyed_blake2b_over_the_ciphertext() {
    let expected = [
        0x8e, 0xc6, 0xcb, 0x71, 0xc4, 0x5c, 0x3c, 0x90, 0x91, 0xd0, 0x8a, 0x37, 0x1e, 0xa8, 0x5d, 0xc1,
        0x22, 0xb5, 0xc8, 0xe2, 0xd9, 0xe5, 0x71, 0x42, 0xbf, 0xef, 0xce, 0x42, 0xd7, 0xbc, 0xf8, 0x8b,
        0xb0, 0x31, 0x27, 0x88, 0x2e, 0x51, 0xa9, 0x21, 0x44, 0x62, 0x08, 0xf6, 0xa3, 0x58, 0xa9, 0xe0,
        0x7d, 0x35, 0x3b, 0xd3, 0x1c, 0x41, 0x70, 0x15, 0x62, 0xac, 0xd5, 0x39, 0x4e, 0xee, 0x73, 0xae,
    ];
    let mut e = PayloadEngine::new(Direction::Decrypt, &XSALSA_KEY, &XSALSA_NONCE, &mac_key());
    e.process_chunk(&[1, 2]);
    e.process_chunk(&[4, 8]);
    assert_eq!(e.finish(), expected.to_vec());
}

#[test]
fn encrypting_engine_macs_its_output() {
    let plain = [3u8, 1, 4, 1, 5, 9, 2, 6];
    let mut enc = PayloadEngine::new(Direction::Encrypt, &XSALSA_KEY, &XSALSA_NONCE, &mac_key());
    let cipher = enc.process_chunk(&plain);
    let mut dec = PayloadEngine::new(Direction::Decrypt, &XSALSA_KEY, &XSALSA_NONCE, &mac_key());
    assert_eq!(dec.process_chunk(&cipher), plain.to_vec());
    assert_eq!(enc.finish(), dec.finish());
}

#[test]
fn payload_decrypt_takes_exactly_the_declared_length() {
    let plain: Vec<u8> = (0..20000u32).map(|i| (i % 256) as u8).collect();
    let enc = process_payload(&plain, Direction::Encrypt, 0, &XSALSA_KEY, &XSALSA_NONCE, &mac_key()).unwrap();
    assert_eq!(enc.length, 20000);
    assert_eq!(&enc.output[..16], &XSALSA_STREAM.iter().zip(&plain).map(|(k, p)| k ^ p).collect::<Vec<u8>>()[..]);
    let mut input = enc.output.clone();
    input.extend_from_slice(&enc.tag);
    let dec = process_payload(&input, Direction::Decrypt, 20000, &XSALSA_KEY, &XSALSA_NONCE, &mac_key()).unwrap();
    assert_eq!(dec.output, plain);
    assert_eq!(dec.tag, enc.tag);
    assert_eq!(dec.length, 20000);
    assert!(process_payload(&input[..19999], Direction::Decrypt, 20000, &XSALSA_KEY, &XSALSA_NONCE, &mac_key()).is_err());
}

#[test]
fn scrypt_keys_match_the_rfc_vector() {
    let expected = [
        0x77, 0xd6, 0x57, 0x62, 0x38, 0x65, 0x7b, 0x20, 0x3b, 0x19, 0xca, 0x42, 0xc1, 0x8a, 0x04, 0x97,
        0xf1, 0x6b, 0x48, 0x44, 0xe3, 0x07, 0x4a, 0xe8, 0xdf, 0xdf, 0xfa, 0x3f, 0xed, 0xe2, 0x14, 0x42,
        0xfc, 0xd0, 0x06, 0x9d, 0xed, 0x09, 0x48, 0xf8, 0x32, 0x6a, 0x75, 0x3a, 0x0f, 0xc8, 0x1f, 0x17,
        0xe8, 0xd3, 0xe0, 0xfb, 0x2e, 0x0d, 0x36, 0x28, 0xcf, 0x35, 0xe2, 0x0c, 0x38, 0xd1, 0x89, 0x06,
    ];
    let params = KdfParams { work_factor: 4, block_size: 1, parallelism: 1 };
    let keys = derive_keys(b"", b"", params).unwrap();
    assert_eq!(keys.cipher_key, expected[..32].to_vec());
    assert_eq!(keys.mac_key.len(), 64);
    assert_eq!(&keys.mac_key[..32], &expected[32..]);
}

#[test]
fn parameter_check_follows_scrypt_limits() {
    assert!(check_params(KdfParams::recommended()));
    assert!(check_params(KdfParams { work_factor: 1, block_size: 1, parallelism: 1 }));
    assert!(check_params(KdfParams { work_factor: 15, block_size: 1, parallelism: 255 }));
    assert!(!check_params(KdfParams { work_factor: 16, block_size: 1, parallelism: 1 }));
    assert!(!check_params(KdfParams { work_factor: 0, block_size: 16, parallelism: 2 }));
    assert!(!check_params(KdfParams { work_factor: 12, block_size: 0, parallelism: 2 }));
    assert!(!check_params(KdfParams { work_factor: 12, block_size: 16, parallelism: 0 }));
}
