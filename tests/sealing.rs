use passcrypt::container::{decrypt, encrypt, encrypt_fresh, mismatch_report, CryptError, Decrypted};
use passcrypt::format::{decode_header, FormatError, KdfParams, HEADER_LEN, TAG_LEN};
use passcrypt::kdf::KeyDerivationError;

fn fast_params() -> KdfParams {
    KdfParams { work_factor: 4, block_size: 1, parallelism: 1 }
}

fn salt() -> Vec<u8> {
    (0..64u8).map(|i| i.wrapping_mul(7).wrapping_add(3)).collect()
}

fn nonce() -> Vec<u8> {
    (0..24u8).map(|i| 200 - i).collect()
}

fn plaintext(n: usize) -> Vec<u8> {
    (0..n).map(|i| (i * 31 % 251) as u8).collect()
}

fn seal(pw: &[u8], data: &[u8]) -> Vec<u8> {
    encrypt(pw, fast_params(), &salt(), &nonce(), data).unwrap()
}

fn round_trips(n: usize) {
    let data = plaintext(n);
    let image = seal(b"correct horse", &data);
    assert_eq!(image.len(), HEADER_LEN + n + TAG_LEN);
    let opened = decrypt(b"correct horse", &image).unwrap();
    assert!(opened.authenticated);
    assert_eq!(opened.length, n as u64);
    assert_eq!(opened.plaintext, data);
    if n > 0 {
        assert_ne!(&image[HEADER_LEN..HEADER_LEN + n], &data[..]);
    }
}

#[test]
fn round_trip_empty() {
    round_trips(0);
}

#[test]
fn round_trip_one_byte() {
    round_trips(1);
}

#[test]
fn round_trip_one_short_of_a_chunk() {
    round_trips(8191);
}

#[test]
fn round_trip_exactly_one_chunk() {
    round_trips(8192);
}

#[test]
fn round_trip_one_past_a_chunk() {
    round_trips(8193);
}

#[test]
fn round_trip_exactly_two_chunks() {
    round_trips(16384);
}

#[test]
fn round_trip_one_past_two_chunks() {
    round_trips(16385);
}

#[test]
fn twenty_thousand_bytes_with_recommended_parameters() {
    let data = plaintext(20000);
    let image = encrypt(b"fixed passphrase", KdfParams::recommended(), &salt(), &nonce(), &data).unwrap();
    assert_eq!(image.len(), 99 + 20000 + 64);
    let opened = decrypt(b"fixed passphrase", &image).unwrap();
    assert!(opened.authenticated);
    assert_eq!(opened.length, 20000);
    assert_eq!(opened.plaintext, data);
}

#[test]
fn header_reads_back_what_was_written() {
    let data = plaintext(12345);
    let image = seal(b"pw", &data);
    let h = decode_header(&image).unwrap();
    assert_eq!(h.params, fast_params());
    assert_eq!(h.salt, salt());
    assert_eq!(h.nonce, nonce());
    assert_eq!(h.payload_length, 12345);
    assert_eq!(&image[0..3], &[4u8, 1, 1][..]);
    assert_eq!(&image[91..99], &[0x39u8, 0x30, 0, 0, 0, 0, 0, 0][..]);
}

#[test]
fn sealing_twice_gives_the_same_bytes() {
    let data = plaintext(9000);
    assert_eq!(seal(b"pw", &data), seal(b"pw", &data));
    assert_ne!(seal(b"pw", &data), seal(b"pX", &data));
}

#[test]
fn flipped_trailer_byte_fails_authentication() {
    let data = plaintext(100);
    let mut image = seal(b"pw", &data);
    let last = image.len() - 1;
    image[last] ^= 0x01;
    let opened = decrypt(b"pw", &image).unwrap();
    assert!(!opened.authenticated);
}

#[test]
fn flipped_ciphertext_byte_fails_authentication() {
    let data = plaintext(10000);
    for index in [HEADER_LEN, HEADER_LEN + 8192, HEADER_LEN + 9999] {
        let mut image = seal(b"pw", &data);
        image[index] ^= 0x80;
        let opened = decrypt(b"pw", &image).unwrap();
        assert!(!opened.authenticated);
        assert_eq!(opened.length, 10000);
    }
}

#[test]
fn wrong_passphrase_fails_authentication() {
    let data = plaintext(50);
    let image = seal(b"right", &data);
    let opened = decrypt(b"wrong", &image).unwrap();
    assert!(!opened.authenticated);
    assert_ne!(opened.plaintext, data);
}

#[test]
fn truncated_payload_is_a_format_error() {
    let data = plaintext(20000);
    let image = seal(b"pw", &data);
    let cut = &image[..HEADER_LEN + 10000];
    assert_eq!(decrypt(b"pw", cut).unwrap_err(), CryptError::Format(FormatError::PayloadTruncated));
    let cut = &image[..HEADER_LEN + 19999];
    assert_eq!(decrypt(b"pw", cut).unwrap_err(), CryptError::Format(FormatError::PayloadTruncated));
}

#[test]
fn truncated_trailer_is_a_format_error() {
    let data = plaintext(300);
    let image = seal(b"pw", &data);
    let cut = &image[..image.len() - 1];
    assert_eq!(decrypt(b"pw", cut).unwrap_err(), CryptError::Format(FormatError::TrailerTruncated));
    let mut removed = image.clone();
    removed.remove(HEADER_LEN + 5);
    assert_eq!(decrypt(b"pw", &removed).unwrap_err(), CryptError::Format(FormatError::TrailerTruncated));
}

#[test]
fn truncated_header_names_the_field() {
    let image = seal(b"pw", &plaintext(10));
    let cases = [
        (0usize, FormatError::KdfParamsTruncated),
        (2, FormatError::KdfParamsTruncated),
        (3, FormatError::SaltTruncated),
        (66, FormatError::SaltTruncated),
        (67, FormatError::NonceTruncated),
        (90, FormatError::NonceTruncated),
        (91, FormatError::LengthTruncated),
        (98, FormatError::LengthTruncated),
    ];
    for (len, expected) in cases {
        assert_eq!(decrypt(b"pw", &image[..len]).unwrap_err(), CryptError::Format(expected));
        assert_eq!(decode_header(&image[..len]).unwrap_err(), expected);
    }
}

#[test]
fn extra_bytes_after_the_trailer_are_ignored() {
    let data = plaintext(40);
    let mut image = seal(b"pw", &data);
    image.extend_from_slice(&[9, 9, 9]);
    let opened = decrypt(b"pw", &image).unwrap();
    assert!(opened.authenticated);
    assert_eq!(opened.plaintext, data);
}

#[test]
fn unsupported_parameters_are_a_key_derivation_error() {
    let bad = [
        KdfParams { work_factor: 0, block_size: 1, parallelism: 1 },
        KdfParams { work_factor: 4, block_size: 0, parallelism: 1 },
        KdfParams { work_factor: 4, block_size: 1, parallelism: 0 },
        KdfParams { work_factor: 16, block_size: 1, parallelism: 1 },
        KdfParams { work_factor: 32, block_size: 8, parallelism: 1 },
    ];
    for p in bad {
        assert_eq!(
            encrypt(b"pw", p, &salt(), &nonce(), b"x").unwrap_err(),
            CryptError::KeyDerivation(KeyDerivationError::UnsupportedParameters)
        );
    }
    let mut image = seal(b"pw", b"x");
    image[0] = 0;
    assert_eq!(
        decrypt(b"pw", &image).unwrap_err(),
        CryptError::KeyDerivation(KeyDerivationError::UnsupportedParameters)
    );
}

#[test]
fn mismatch_report_gives_both_tags_in_base64() {
    let d = Decrypted {
        plaintext: vec![],
        length: 0,
        authenticated: false,
        stored_tag: vec![0u8; 64],
        computed_tag: vec![0xffu8; 64],
    };
    let (stored, computed) = mismatch_report(&d).unwrap();
    assert_eq!(stored, format!("{}==", "A".repeat(86)));
    assert_eq!(computed, format!("{}/w==", "/".repeat(84)));
    let ok = Decrypted { authenticated: true, ..d };
    assert!(mismatch_report(&ok).is_none());
}

#[test]
fn fresh_salt_and_nonce_differ_between_seals() {
    let data = plaintext(500);
    let a = encrypt_fresh(b"pw", fast_params(), &data).unwrap();
    let b = encrypt_fresh(b"pw", fast_params(), &data).unwrap();
    assert_eq!(a.len(), HEADER_LEN + 500 + TAG_LEN);
    assert_ne!(&a[3..67], &b[3..67]);
    assert_ne!(&a[67..91], &b[67..91]);
    assert_ne!(&a[3..67], &[0u8; 64][..]);
    let opened = decrypt(b"pw", &b).unwrap();
    assert!(opened.authenticated);
    assert_eq!(opened.plaintext, data);
}
