//! The cryptographic primitives this library is built on, taken from the
//! `rust-crypto`, `rustc-serialize` and `rand` crates.
//!
//! Everything in this module is trusted: each function's contract states what
//! the named outside function does, and Verus believes it without proof.
//! Results that take pages to define (a keystream, a MAC, a key derivation,
//! an encoding) are given names that the rest of the library speaks of.

use vstd::prelude::*;

use crypto::blake2b::Blake2b;
use crypto::mac::Mac;
use crypto::salsa20::Salsa20;
use crypto::scrypt::ScryptParams;
use crypto::symmetriccipher::SynchronousStreamCipher;
use rand::RngCore;
use rustc_serialize::base64::ToBase64;

verus! {

#[verifier::external_type_specification]
#[verifier::external_body]
pub struct ExSalsa20(Salsa20);

#[verifier::external_type_specification]
#[verifier::external_body]
pub struct ExBlake2b(Blake2b);

/// Byte `index` of the XSalsa20 keystream for `key` and `nonce`.
pub uninterp spec fn xsalsa20_keystream(key: Seq<u8>, nonce: Seq<u8>, index: nat) -> u8;

/// The key a cipher state was created with.
pub uninterp spec fn xsalsa20_key(c: Salsa20) -> Seq<u8>;

/// The nonce a cipher state was created with.
pub uninterp spec fn xsalsa20_nonce(c: Salsa20) -> Seq<u8>;

/// How many keystream bytes a cipher state has used so far.
pub uninterp spec fn xsalsa20_position(c: Salsa20) -> nat;

/// Byte `index` of the 64-byte keyed BLAKE2b tag of `message` under `key`.
pub uninterp spec fn blake2b_mac_byte(key: Seq<u8>, message: Seq<u8>, index: nat) -> u8;

/// The 64-byte keyed BLAKE2b tag of `message` under `key`.
pub open spec fn blake2b_mac(key: Seq<u8>, message: Seq<u8>) -> Seq<u8> {
    Seq::new(64, |i: int| blake2b_mac_byte(key, message, i as nat))
}

/// The key a MAC state was created with.
pub uninterp spec fn blake2b_key(m: Blake2b) -> Seq<u8>;

/// Everything a MAC state has been fed so far, in order.
pub uninterp spec fn blake2b_absorbed(m: Blake2b) -> Seq<u8>;

/// The 96 bytes scrypt derives from a passphrase, a salt and the cost
/// parameters (log2 of N, r, p).
pub uninterp spec fn scrypt_key_material(
    passphrase: Seq<u8>,
    salt: Seq<u8>,
    log_n: u8,
    r: u32,
    p: u32,
) -> Seq<u8>;

/// The standard padded base64 text of `bytes`.
pub uninterp spec fn base64_standard(bytes: Seq<u8>) -> Seq<char>;

/// Relies on `Salsa20::new_xsalsa20`, which asserts a 32-byte key and a
/// 24-byte nonce and starts at the beginning of the keystream.
#[verifier::external_body]
pub(crate) fn xsalsa20_new(key: &[u8], nonce: &[u8]) -> (c: Salsa20)
    requires
        key@.len() == 32,
        nonce@.len() == 24,
    ensures
        xsalsa20_key(c) == key@,
        xsalsa20_nonce(c) == nonce@,
        xsalsa20_position(c) == 0,
{
    Salsa20::new_xsalsa20(key, nonce)
}

/// Relies on `SynchronousStreamCipher::process` for `Salsa20`: each output
/// byte is the input byte xor the next keystream byte, and the keystream
/// position moves on by the input's length.
#[verifier::external_body]
pub(crate) fn xsalsa20_apply(c: &mut Salsa20, input: &[u8]) -> (out: Vec<u8>)
    ensures
        xsalsa20_key(*final(c)) == xsalsa20_key(*old(c)),
        xsalsa20_nonce(*final(c)) == xsalsa20_nonce(*old(c)),
        xsalsa20_position(*final(c)) == xsalsa20_position(*old(c)) + input@.len(),
        out@.len() == input@.len(),
        forall|i: int|
            0 <= i < input@.len() ==> #[trigger] out@[i] == input@[i] ^ xsalsa20_keystream(
                xsalsa20_key(*old(c)),
                xsalsa20_nonce(*old(c)),
                (xsalsa20_position(*old(c)) + i) as nat,
            ),
{
    let mut out = vec![0u8; input.len()];
    c.process(input, &mut out);
    out
}

/// Relies on `Blake2b::new_keyed(64, key)`, which asserts a key of 1 to 64
/// bytes and starts with nothing absorbed.
#[verifier::external_body]
pub(crate) fn blake2b_new(key: &[u8]) -> (m: Blake2b)
    requires
        0 < key@.len() <= 64,
    ensures
        blake2b_key(m) == key@,
        blake2b_absorbed(m) == Seq::<u8>::empty(),
{
    Blake2b::new_keyed(64, key)
}

/// Relies on `Mac::input` for `Blake2b`: appends `data` to the message.
#[verifier::external_body]
pub(crate) fn blake2b_input(m: &mut Blake2b, data: &[u8])
    ensures
        blake2b_key(*final(m)) == blake2b_key(*old(m)),
        blake2b_absorbed(*final(m)) == blake2b_absorbed(*old(m)) + data@,
{
    m.input(data)
}

/// Relies on `Mac::raw_result` for `Blake2b`: the 64-byte tag of all that
/// was absorbed. The state is consumed, so nothing is fed after finalizing.
#[verifier::external_body]
pub(crate) fn blake2b_finish(m: Blake2b) -> (tag: Vec<u8>)
    ensures
        tag@.len() == 64,
        forall|i: int|
            0 <= i < 64 ==> #[trigger] tag@[i] == blake2b_mac_byte(
                blake2b_key(m),
                blake2b_absorbed(m),
                i as nat,
            ),
        tag@ == blake2b_mac(blake2b_key(m), blake2b_absorbed(m)),
{
    let mut m = m;
    let mut tag = vec![0u8; 64];
    m.raw_result(&mut tag);
    tag
}

/// Relies on `crypto::util::fixed_time_eq`: true exactly when the two slices
/// are equal, examining every byte whatever the first mismatch.
#[verifier::external_body]
pub(crate) fn fixed_time_equal(a: &[u8], b: &[u8]) -> (r: bool)
    requires
        a@.len() > 0,
        b@.len() > 0,
    ensures
        r == (a@ == b@),
{
    crypto::util::fixed_time_eq(a, b)
}

/// Relies on `ScryptParams::new(log_n, r, p)` and `crypto::scrypt::scrypt`
/// with a 96-byte output. `ScryptParams::new` panics unless
/// `0 < log_n < usize bits`, `r > 0`, `p > 0`, `log_n < 16 * r`,
/// `r * p < 2^30` and `128 * r * 2^log_n` and `128 * r * p` fit in a `usize`.
#[verifier::external_body]
pub(crate) fn scrypt_derive(passphrase: &[u8], salt: &[u8], log_n: u8, r: u32, p: u32) -> (out: Vec<u8>)
    requires
        0 < log_n < 32,
        0 < r,
        0 < p,
        (log_n as int) < 16 * (r as int),
        (r as int) * (p as int) < 0x4000_0000,
        (r as int) * 128 * vstd::arithmetic::power2::pow2(log_n as nat) <= usize::MAX,
        (r as int) * 128 * (p as int) <= usize::MAX,
    ensures
        out@.len() == 96,
        out@ == scrypt_key_material(passphrase@, salt@, log_n, r, p),
{
    let params = ScryptParams::new(log_n, r, p);
    let mut out = vec![0u8; 96];
    crypto::scrypt::scrypt(passphrase, salt, &params, &mut out);
    out
}

/// Relies on `ToBase64::to_base64` with `STANDARD`: the padded RFC 4648
/// alphabet, no line breaks, four characters for each started group of
/// three bytes.
#[verifier::external_body]
pub(crate) fn to_base64(bytes: &[u8]) -> (text: String)
    ensures
        text@ == base64_standard(bytes@),
        text@.len() == 4 * ((bytes@.len() + 2) / 3),
{
    bytes.to_base64(rustc_serialize::base64::STANDARD)
}

/// Relies on `RngCore::try_fill_bytes` of `rand::rngs::OsRng`: `n` bytes
/// from the operating system's secure random source, or nothing when the
/// source fails. Nothing is promised of the bytes' values.
#[verifier::external_body]
pub(crate) fn random_bytes(n: usize) -> (out: Option<Vec<u8>>)
    ensures
        out matches Some(b) ==> b@.len() == n,
{
    let mut out = vec![0u8; n];
    match rand::rngs::OsRng.try_fill_bytes(&mut out) {
        Ok(()) => Some(out),
        Err(_) => None,
    }
}

} // verus!
