//! Sealing and opening whole containers: header, payload and trailer.
//!
//! Sealing writes the header with a placeholder length, streams the payload
//! through the engine, appends the tag and then patches the measured length
//! into the header. Opening reads the header, derives the keys, streams
//! exactly the declared payload and compares the trailer with the computed
//! tag in constant time. A tag mismatch is reported as a status of the
//! result, beside the recovered plaintext, not as an error.

use vstd::prelude::*;

use crate::engine::{process_payload, stream_xor, Direction};
use crate::format::{
    append_bytes, decode_header, encode_header, header_bytes, parse_header, patch_length,
    FileHeader, FormatError, KdfParams, HEADER_LEN, NONCE_LEN, SALT_LEN, TAG_LEN,
};
use crate::kdf::{
    cipher_key_of, derive_keys, key_material, mac_key_of, params_valid, KeyDerivationError,
};
use crate::primitives::{base64_standard, blake2b_mac, fixed_time_equal, random_bytes, to_base64};

verus! {

/// Why a container could not be sealed or opened.
#[derive(Clone, Copy, Debug, PartialEq, Eq, Structural)]
pub enum CryptError {
    Format(FormatError),
    KeyDerivation(KeyDerivationError),
    /// The operating system's random source could not supply a salt and
    /// a nonce.
    RandomUnavailable,
}

/// An opened container: the plaintext, its length, whether the stored tag
/// matched, and both tags.
#[derive(Clone, Debug)]
pub struct Decrypted {
    pub plaintext: Vec<u8>,
    pub length: u64,
    pub authenticated: bool,
    pub stored_tag: Vec<u8>,
    pub computed_tag: Vec<u8>,
}

/// An opened container as mathematical values.
pub struct OpenedModel {
    pub plaintext: Seq<u8>,
    pub length: u64,
    pub authenticated: bool,
    pub stored_tag: Seq<u8>,
    pub computed_tag: Seq<u8>,
}

impl Decrypted {
    pub open spec fn view(&self) -> OpenedModel {
        OpenedModel {
            plaintext: self.plaintext@,
            length: self.length,
            authenticated: self.authenticated,
            stored_tag: self.stored_tag@,
            computed_tag: self.computed_tag@,
        }
    }
}

/// The ciphertext of `plaintext` under the keys derived from the inputs.
pub open spec fn sealed_payload(
    passphrase: Seq<u8>,
    params: KdfParams,
    salt: Seq<u8>,
    nonce: Seq<u8>,
    plaintext: Seq<u8>,
) -> Seq<u8> {
    stream_xor(cipher_key_of(key_material(passphrase, salt, params)), nonce, 0, plaintext)
}

/// The tag over that ciphertext.
pub open spec fn sealed_tag(
    passphrase: Seq<u8>,
    params: KdfParams,
    salt: Seq<u8>,
    nonce: Seq<u8>,
    plaintext: Seq<u8>,
) -> Seq<u8> {
    blake2b_mac(
        mac_key_of(key_material(passphrase, salt, params)),
        sealed_payload(passphrase, params, salt, nonce, plaintext),
    )
}

/// The whole sealed container: header with the true length, ciphertext,
/// tag.
pub open spec fn sealed_image(
    passphrase: Seq<u8>,
    params: KdfParams,
    salt: Seq<u8>,
    nonce: Seq<u8>,
    plaintext: Seq<u8>,
) -> Seq<u8> {
    header_bytes(params, salt, nonce, plaintext.len() as u64) + sealed_payload(
        passphrase,
        params,
        salt,
        nonce,
        plaintext,
    ) + sealed_tag(passphrase, params, salt, nonce, plaintext)
}

/// What opening `file` with `passphrase` gives: the first header field cut
/// short; unsupported cost parameters; a payload or trailer cut short; or
/// the deciphered payload with the verdict of the tag comparison.
pub open spec fn opened(passphrase: Seq<u8>, file: Seq<u8>) -> Result<OpenedModel, CryptError> {
    match parse_header(file) {
        Err(e) => Err(CryptError::Format(e)),
        Ok(h) => {
            let length = h.payload_length as int;
            if !params_valid(h.params) {
                Err(CryptError::KeyDerivation(KeyDerivationError::UnsupportedParameters))
            } else if file.len() < HEADER_LEN + length {
                Err(CryptError::Format(FormatError::PayloadTruncated))
            } else if file.len() < HEADER_LEN + length + TAG_LEN {
                Err(CryptError::Format(FormatError::TrailerTruncated))
            } else {
                let material = key_material(passphrase, h.salt, h.params);
                let ciphertext = file.subrange(HEADER_LEN as int, HEADER_LEN + length);
                let stored = file.subrange(HEADER_LEN + length, HEADER_LEN + length + TAG_LEN);
                let computed = blake2b_mac(mac_key_of(material), ciphertext);
                Ok(
                    OpenedModel {
                        plaintext: stream_xor(cipher_key_of(material), h.nonce, 0, ciphertext),
                        length: h.payload_length,
                        authenticated: stored == computed,
                        stored_tag: stored,
                        computed_tag: computed,
                    },
                )
            }
        },
    }
}

/// Seals `plaintext` under `passphrase` with the given cost parameters,
/// 64-byte salt and 24-byte nonce.
pub fn encrypt(passphrase: &[u8], params: KdfParams, salt: &[u8], nonce: &[u8], plaintext: &[u8]) -> (r: Result<Vec<u8>, CryptError>)
    requires
        salt@.len() == SALT_LEN,
        nonce@.len() == NONCE_LEN,
    ensures
        match r {
            Ok(image) => params_valid(params) && image@ == sealed_image(
                passphrase@,
                params,
                salt@,
                nonce@,
                plaintext@,
            ) && image@.len() == HEADER_LEN + plaintext@.len() + TAG_LEN,
            Err(e) => !params_valid(params) && e == CryptError::KeyDerivation(
                KeyDerivationError::UnsupportedParameters,
            ),
        },
{
    let keys = match derive_keys(passphrase, salt, params) {
        Ok(k) => k,
        Err(e) => return Err(CryptError::KeyDerivation(e)),
    };
    let mut salt_copy: Vec<u8> = Vec::new();
    append_bytes(&mut salt_copy, salt);
    let mut nonce_copy: Vec<u8> = Vec::new();
    append_bytes(&mut nonce_copy, nonce);
    let header = FileHeader { params, salt: salt_copy, nonce: nonce_copy, payload_length: 0 };
    let mut image = encode_header(&header);
    let payload = match process_payload(
        plaintext,
        Direction::Encrypt,
        0,
        keys.cipher_key.as_slice(),
        nonce,
        keys.mac_key.as_slice(),
    ) {
        Ok(p) => p,
        Err(e) => return Err(CryptError::Format(e)),
    };
    append_bytes(&mut image, payload.output.as_slice());
    append_bytes(&mut image, payload.tag.as_slice());
    patch_length(&mut image, payload.length);
    proof {
        vstd::bytes::lemma_auto_spec_u64_to_from_le_bytes();
        let h = header_bytes(params, salt@, nonce@, plaintext@.len() as u64);
        assert(image@ =~= h + payload.output@ + payload.tag@);
    }
    Ok(image)
}

/// Seals `plaintext` with a salt and a nonce freshly drawn from the
/// operating system's random source; they are stored in the header.
pub fn encrypt_fresh(passphrase: &[u8], params: KdfParams, plaintext: &[u8]) -> (r: Result<Vec<u8>, CryptError>)
    ensures
        match r {
            Ok(image) => params_valid(params) && image@.len() == HEADER_LEN + plaintext@.len()
                + TAG_LEN && image@ == sealed_image(
                passphrase@,
                params,
                image@.subrange(3, 67),
                image@.subrange(67, 91),
                plaintext@,
            ),
            Err(CryptError::RandomUnavailable) => true,
            Err(e) => !params_valid(params) && e == CryptError::KeyDerivation(
                KeyDerivationError::UnsupportedParameters,
            ),
        },
{
    let salt = match random_bytes(SALT_LEN) {
        Some(b) => b,
        None => return Err(CryptError::RandomUnavailable),
    };
    let nonce = match random_bytes(NONCE_LEN) {
        Some(b) => b,
        None => return Err(CryptError::RandomUnavailable),
    };
    let r = encrypt(passphrase, params, salt.as_slice(), nonce.as_slice(), plaintext);
    proof {
        if r is Ok {
            let image = r->Ok_0;
            assert(image@.subrange(3, 67) =~= salt@);
            assert(image@.subrange(67, 91) =~= nonce@);
        }
    }
    r
}

/// Opens a container with `passphrase`: reads the header, derives the
/// keys, deciphers exactly the declared payload, and checks the trailer
/// against the computed tag.
pub fn decrypt(passphrase: &[u8], file: &[u8]) -> (r: Result<Decrypted, CryptError>)
    ensures
        match (r, opened(passphrase@, file@)) {
            (Ok(d), Ok(m)) => d@ == m,
            (Err(e), Err(f)) => e == f,
            _ => false,
        },
{
    let header = match decode_header(file) {
        Ok(h) => h,
        Err(e) => return Err(CryptError::Format(e)),
    };
    let keys = match derive_keys(passphrase, header.salt.as_slice(), header.params) {
        Ok(k) => k,
        Err(e) => return Err(CryptError::KeyDerivation(e)),
    };
    let body = vstd::slice::slice_subrange(file, HEADER_LEN, file.len());
    let payload = match process_payload(
        body,
        Direction::Decrypt,
        header.payload_length,
        keys.cipher_key.as_slice(),
        header.nonce.as_slice(),
        keys.mac_key.as_slice(),
    ) {
        Ok(p) => p,
        Err(e) => return Err(CryptError::Format(e)),
    };
    let consumed = HEADER_LEN + header.payload_length as usize;
    if file.len() - consumed < TAG_LEN {
        return Err(CryptError::Format(FormatError::TrailerTruncated));
    }
    let mut stored_tag: Vec<u8> = Vec::new();
    append_bytes(&mut stored_tag, vstd::slice::slice_subrange(file, consumed, consumed + TAG_LEN));
    let authenticated = fixed_time_equal(payload.tag.as_slice(), stored_tag.as_slice());
    proof {
        let l = header.payload_length as int;
        assert(body@.subrange(0, l) =~= file@.subrange(HEADER_LEN as int, HEADER_LEN + l));
        assert(stored_tag@ =~= file@.subrange(HEADER_LEN + l, HEADER_LEN + l + TAG_LEN));
    }
    Ok(
        Decrypted {
            plaintext: payload.output,
            length: payload.length,
            authenticated,
            stored_tag,
            computed_tag: payload.tag,
        },
    )
}

/// For a container whose tag did not match, the stored and the computed
/// tag in base64, for a diagnostic; nothing when it matched.
pub fn mismatch_report(d: &Decrypted) -> (r: Option<(String, String)>)
    ensures
        match r {
            None => d.authenticated,
            Some((stored, computed)) => !d.authenticated && stored@ == base64_standard(
                d.stored_tag@,
            ) && computed@ == base64_standard(d.computed_tag@),
        },
{
    if d.authenticated {
        None
    } else {
        Some((to_base64(d.stored_tag.as_slice()), to_base64(d.computed_tag.as_slice())))
    }
}

} // verus!
