//! Stretching a passphrase into the cipher and MAC keys.

use vstd::arithmetic::power2::pow2;
use vstd::prelude::*;

use crate::format::KdfParams;
use crate::primitives::{scrypt_derive, scrypt_key_material};

verus! {

pub const KEY_MATERIAL_LEN: usize = 96;
pub const CIPHER_KEY_LEN: usize = 32;
pub const MAC_KEY_LEN: usize = 64;

/// The cost parameters ask for something scrypt cannot run.
#[derive(Clone, Copy, Debug, PartialEq, Eq, Structural)]
pub enum KeyDerivationError {
    UnsupportedParameters,
}

/// The two keys cut from the 96 bytes of key material, in this order:
/// 32 bytes of XSalsa20 key, then 64 bytes of BLAKE2b key.
#[derive(Clone, Debug)]
pub struct StretchedKey {
    pub cipher_key: Vec<u8>,
    pub mac_key: Vec<u8>,
}

/// Cost parameters that scrypt accepts: N = 2^work_factor with
/// 0 < work_factor < 32 and N < 2^(16 r), r and p positive, and the working
/// buffers of 128 r N and 128 r p bytes addressable.
pub open spec fn params_valid(p: KdfParams) -> bool {
    &&& 0 < p.work_factor < 32
    &&& 0 < p.block_size
    &&& 0 < p.parallelism
    &&& (p.work_factor as int) < 16 * (p.block_size as int)
    &&& (p.block_size as int) * (p.parallelism as int) < 0x4000_0000
    &&& (p.block_size as int) * 128 * pow2(p.work_factor as nat) <= usize::MAX
    &&& (p.block_size as int) * 128 * (p.parallelism as int) <= usize::MAX
}

/// The 96 bytes of key material for a passphrase, a salt and parameters.
pub open spec fn key_material(passphrase: Seq<u8>, salt: Seq<u8>, p: KdfParams) -> Seq<u8> {
    scrypt_key_material(passphrase, salt, p.work_factor, p.block_size as u32, p.parallelism as u32)
}

pub open spec fn cipher_key_of(material: Seq<u8>) -> Seq<u8> {
    material.subrange(0, CIPHER_KEY_LEN as int)
}

pub open spec fn mac_key_of(material: Seq<u8>) -> Seq<u8> {
    material.subrange(CIPHER_KEY_LEN as int, KEY_MATERIAL_LEN as int)
}

/// Decides whether scrypt accepts the cost parameters.
pub fn check_params(p: KdfParams) -> (ok: bool)
    ensures
        ok == params_valid(p),
{
    if p.work_factor == 0 || p.work_factor >= 32 || p.block_size == 0 || p.parallelism == 0 {
        return false;
    }
    if p.work_factor as u32 >= 16 * p.block_size as u32 {
        return false;
    }
    assert((p.block_size as int) * (p.parallelism as int) < 0x4000_0000) by (nonlinear_arith)
        requires
            p.block_size < 256,
            p.parallelism < 256,
    ;
    assert((p.block_size as int) * 128 * (p.parallelism as int) <= u32::MAX) by (nonlinear_arith)
        requires
            p.block_size < 256,
            p.parallelism < 256,
    ;
    let mut n: u64 = 1;
    let mut i: u8 = 0;
    proof {
        vstd::arithmetic::power2::lemma_pow2(0);
        vstd::arithmetic::power::lemma_pow0(2);
    }
    while i < p.work_factor
        invariant
            i <= p.work_factor < 32,
            n == pow2(i as nat),
        decreases p.work_factor - i,
    {
        proof {
            vstd::arithmetic::power2::lemma_pow2_unfold((i + 1) as nat);
            vstd::arithmetic::power2::lemma_pow2_strictly_increases(i as nat, 32);
            vstd::arithmetic::power2::lemma2_to64();
        }
        n = n * 2;
        i = i + 1;
    }
    proof {
        vstd::arithmetic::power2::lemma_pow2_strictly_increases(p.work_factor as nat, 32);
        vstd::arithmetic::power2::lemma2_to64();
        assert((p.block_size as int) * 128 * (n as int) < 0x8000_0000_0000_0000) by (nonlinear_arith)
            requires
                p.block_size < 256,
                n < 0x1_0000_0000,
        ;
    }
    let buffer: u64 = p.block_size as u64 * 128 * n;
    buffer <= usize::MAX as u64
}

/// Derives the cipher and MAC keys from a passphrase with scrypt, after
/// checking that scrypt accepts the parameters.
pub fn derive_keys(passphrase: &[u8], salt: &[u8], params: KdfParams) -> (r: Result<StretchedKey, KeyDerivationError>)
    ensures
        r is Ok <==> params_valid(params),
        r matches Ok(k) ==> k.cipher_key@ == cipher_key_of(key_material(passphrase@, salt@, params))
            && k.mac_key@ == mac_key_of(key_material(passphrase@, salt@, params))
            && k.cipher_key@.len() == CIPHER_KEY_LEN && k.mac_key@.len() == MAC_KEY_LEN,
{
    if !check_params(params) {
        return Err(KeyDerivationError::UnsupportedParameters);
    }
    let material = scrypt_derive(
        passphrase,
        salt,
        params.work_factor,
        params.block_size as u32,
        params.parallelism as u32,
    );
    let mut cipher_key: Vec<u8> = Vec::new();
    crate::format::append_bytes(
        &mut cipher_key,
        vstd::slice::slice_subrange(material.as_slice(), 0, CIPHER_KEY_LEN),
    );
    let mut mac_key: Vec<u8> = Vec::new();
    crate::format::append_bytes(
        &mut mac_key,
        vstd::slice::slice_subrange(material.as_slice(), CIPHER_KEY_LEN, KEY_MATERIAL_LEN),
    );
    assert(cipher_key@ =~= cipher_key_of(material@));
    assert(mac_key@ =~= mac_key_of(material@));
    Ok(StretchedKey { cipher_key, mac_key })
}

} // verus!
