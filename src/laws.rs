//! Properties that relate sealing and opening.

use vstd::bytes::{spec_u64_from_le_bytes, spec_u64_to_le_bytes};
use vstd::prelude::*;

use crate::container::{opened, sealed_image, sealed_payload, sealed_tag, CryptError};
use crate::engine::stream_xor;
use crate::format::{header_bytes, parse_header, FormatError, HeaderModel, KdfParams, HEADER_LEN, TAG_LEN};
use crate::kdf::{key_material, mac_key_of, params_valid};
use crate::primitives::blake2b_mac;

verus! {

/// Running the keystream over data twice gives the data back.
pub proof fn lemma_stream_xor_involution(key: Seq<u8>, nonce: Seq<u8>, start: nat, data: Seq<u8>)
    ensures
        stream_xor(key, nonce, start, stream_xor(key, nonce, start, data)) == data,
{
    assert forall|i: int| 0 <= i < data.len() implies #[trigger] stream_xor(
        key,
        nonce,
        start,
        stream_xor(key, nonce, start, data),
    )[i] == data[i] by {
        let x = data[i];
        let k = xsalsa20_keystream_at(key, nonce, start, i);
        assert((x ^ k) ^ k == x) by (bit_vector);
    }
    assert(stream_xor(key, nonce, start, stream_xor(key, nonce, start, data)) =~= data);
}

spec fn xsalsa20_keystream_at(key: Seq<u8>, nonce: Seq<u8>, start: nat, i: int) -> u8 {
    crate::primitives::xsalsa20_keystream(key, nonce, (start + i) as nat)
}

/// Where each part of a sealed container lies.
proof fn lemma_sealed_layout(
    passphrase: Seq<u8>,
    params: KdfParams,
    salt: Seq<u8>,
    nonce: Seq<u8>,
    plaintext: Seq<u8>,
)
    requires
        salt.len() == 64,
        nonce.len() == 24,
        plaintext.len() <= u64::MAX,
    ensures
        ({
            let image = sealed_image(passphrase, params, salt, nonce, plaintext);
            let n = plaintext.len() as int;
            &&& image.len() == HEADER_LEN + n + TAG_LEN
            &&& image.subrange(0, HEADER_LEN as int) == header_bytes(params, salt, nonce, n as u64)
            &&& image.subrange(HEADER_LEN as int, HEADER_LEN + n) == sealed_payload(
                passphrase,
                params,
                salt,
                nonce,
                plaintext,
            )
            &&& image.subrange(HEADER_LEN + n, HEADER_LEN + n + TAG_LEN) == sealed_tag(
                passphrase,
                params,
                salt,
                nonce,
                plaintext,
            )
            &&& parse_header(image) == Ok::<HeaderModel, FormatError>(
                HeaderModel { params, salt, nonce, payload_length: n as u64 },
            )
        }),
{
    vstd::bytes::lemma_auto_spec_u64_to_from_le_bytes();
    let image = sealed_image(passphrase, params, salt, nonce, plaintext);
    let n = plaintext.len() as int;
    let h = header_bytes(params, salt, nonce, n as u64);
    let c = sealed_payload(passphrase, params, salt, nonce, plaintext);
    let t = sealed_tag(passphrase, params, salt, nonce, plaintext);
    assert(h.len() == 99);
    assert(image.subrange(0, 99) =~= h);
    assert(image.subrange(99, 99 + n) =~= c);
    assert(image.subrange(99 + n, 99 + n + 64) =~= t);
    assert(image.subrange(3, 67) =~= salt);
    assert(image.subrange(67, 91) =~= nonce);
    assert(image.subrange(91, 99) =~= spec_u64_to_le_bytes(n as u64));
    assert(spec_u64_from_le_bytes(image.subrange(91, 99)) == n as u64);
}

/// Round trip: opening a sealed container with the passphrase it was
/// sealed with recovers the plaintext and its length, and the tag matches.
pub proof fn round_trip(
    passphrase: Seq<u8>,
    params: KdfParams,
    salt: Seq<u8>,
    nonce: Seq<u8>,
    plaintext: Seq<u8>,
)
    requires
        params_valid(params),
        salt.len() == 64,
        nonce.len() == 24,
        plaintext.len() <= u64::MAX,
    ensures
        opened(passphrase, sealed_image(passphrase, params, salt, nonce, plaintext)) matches Ok(m)
            && m.plaintext == plaintext && m.length == plaintext.len() && m.authenticated,
{
    lemma_sealed_layout(passphrase, params, salt, nonce, plaintext);
    let material = key_material(passphrase, salt, params);
    lemma_stream_xor_involution(crate::kdf::cipher_key_of(material), nonce, 0, plaintext);
}

/// Header fidelity: the header read back from a sealed container holds the
/// cost parameters, salt and nonce it was sealed with, and the true
/// plaintext length.
pub proof fn header_fidelity(
    passphrase: Seq<u8>,
    params: KdfParams,
    salt: Seq<u8>,
    nonce: Seq<u8>,
    plaintext: Seq<u8>,
)
    requires
        salt.len() == 64,
        nonce.len() == 24,
        plaintext.len() <= u64::MAX,
    ensures
        parse_header(sealed_image(passphrase, params, salt, nonce, plaintext)) == Ok::<
            HeaderModel,
            FormatError,
        >(HeaderModel { params, salt, nonce, payload_length: plaintext.len() as u64 }),
{
    lemma_sealed_layout(passphrase, params, salt, nonce, plaintext);
}

/// Determinism: the same passphrase, parameters, salt, nonce and plaintext
/// always give the same container, whose payload and trailer are the
/// ciphertext and tag determined by those inputs.
pub proof fn sealing_is_deterministic(
    passphrase: Seq<u8>,
    params: KdfParams,
    salt: Seq<u8>,
    nonce: Seq<u8>,
    plaintext: Seq<u8>,
    first: Seq<u8>,
    second: Seq<u8>,
)
    requires
        salt.len() == 64,
        nonce.len() == 24,
        plaintext.len() <= u64::MAX,
        first == sealed_image(passphrase, params, salt, nonce, plaintext),
        second == sealed_image(passphrase, params, salt, nonce, plaintext),
    ensures
        first == second,
        first.subrange(HEADER_LEN as int, HEADER_LEN + plaintext.len()) == sealed_payload(
            passphrase,
            params,
            salt,
            nonce,
            plaintext,
        ),
        first.subrange(HEADER_LEN + plaintext.len(), HEADER_LEN + plaintext.len() + TAG_LEN)
            == sealed_tag(passphrase, params, salt, nonce, plaintext),
{
    lemma_sealed_layout(passphrase, params, salt, nonce, plaintext);
}

/// Tampering with the trailer: changing any byte of a sealed container's
/// tag makes opening it report an authentication failure.
pub proof fn trailer_tampering_detected(
    passphrase: Seq<u8>,
    params: KdfParams,
    salt: Seq<u8>,
    nonce: Seq<u8>,
    plaintext: Seq<u8>,
    index: int,
    value: u8,
)
    requires
        params_valid(params),
        salt.len() == 64,
        nonce.len() == 24,
        plaintext.len() <= u64::MAX,
        HEADER_LEN + plaintext.len() <= index < HEADER_LEN + plaintext.len() + TAG_LEN,
        value != sealed_image(passphrase, params, salt, nonce, plaintext)[index],
    ensures
        opened(passphrase, sealed_image(passphrase, params, salt, nonce, plaintext).update(index, value))
            matches Ok(m) && !m.authenticated,
{
    lemma_sealed_layout(passphrase, params, salt, nonce, plaintext);
    let image = sealed_image(passphrase, params, salt, nonce, plaintext);
    let tampered = image.update(index, value);
    let n = plaintext.len() as int;
    assert(tampered.subrange(0, 99) =~= image.subrange(0, 99));
    lemma_same_header(image, tampered);
    assert(tampered.subrange(99, 99 + n) =~= image.subrange(99, 99 + n));
    let stored = tampered.subrange(99 + n, 99 + n + 64);
    assert(stored[index - 99 - n] == value);
    assert(image.subrange(99 + n, 99 + n + 64)[index - 99 - n] == image[index]);
}

/// Opening a file that has a sealed container's header and its full
/// length deciphers what stands where the ciphertext was and compares
/// what stands where the tag was.
proof fn lemma_open_same_shape(
    passphrase: Seq<u8>,
    params: KdfParams,
    salt: Seq<u8>,
    nonce: Seq<u8>,
    plaintext: Seq<u8>,
    file: Seq<u8>,
)
    requires
        params_valid(params),
        salt.len() == 64,
        nonce.len() == 24,
        plaintext.len() <= u64::MAX,
        file.len() == HEADER_LEN + plaintext.len() + TAG_LEN,
        file.subrange(0, HEADER_LEN as int) == header_bytes(params, salt, nonce, plaintext.len() as u64),
    ensures
        ({
            let n = plaintext.len() as int;
            let ciphertext = file.subrange(HEADER_LEN as int, HEADER_LEN + n);
            let stored = file.subrange(HEADER_LEN + n, HEADER_LEN + n + TAG_LEN);
            let material = key_material(passphrase, salt, params);
            opened(passphrase, file) matches Ok(m) && m.authenticated == (stored == blake2b_mac(
                mac_key_of(material),
                ciphertext,
            ))
        }),
{
    lemma_sealed_layout(passphrase, params, salt, nonce, plaintext);
    lemma_same_header(sealed_image(passphrase, params, salt, nonce, plaintext), file);
}

/// Tampering with the ciphertext: changing any byte of a sealed
/// container's ciphertext makes opening it report an authentication
/// failure, unless the tag of the altered ciphertext equals the sealed
/// tag (a BLAKE2b forgery).
pub proof fn ciphertext_tampering_detected(
    passphrase: Seq<u8>,
    params: KdfParams,
    salt: Seq<u8>,
    nonce: Seq<u8>,
    plaintext: Seq<u8>,
    index: int,
    value: u8,
)
    requires
        params_valid(params),
        salt.len() == 64,
        nonce.len() == 24,
        plaintext.len() <= u64::MAX,
        HEADER_LEN <= index < HEADER_LEN + plaintext.len(),
        value != sealed_image(passphrase, params, salt, nonce, plaintext)[index],
    ensures
        ({
            let tampered = sealed_image(passphrase, params, salt, nonce, plaintext).update(index, value);
            let altered = tampered.subrange(HEADER_LEN as int, HEADER_LEN + plaintext.len());
            &&& altered != sealed_payload(passphrase, params, salt, nonce, plaintext)
            &&& opened(passphrase, tampered) matches Ok(m) && (m.authenticated <==> blake2b_mac(
                mac_key_of(key_material(passphrase, salt, params)),
                altered,
            ) == sealed_tag(passphrase, params, salt, nonce, plaintext))
        }),
{
    lemma_sealed_layout(passphrase, params, salt, nonce, plaintext);
    let image = sealed_image(passphrase, params, salt, nonce, plaintext);
    let tampered = image.update(index, value);
    let n = plaintext.len() as int;
    assert(tampered.subrange(0, 99) =~= image.subrange(0, 99));
    lemma_open_same_shape(passphrase, params, salt, nonce, plaintext, tampered);
    let altered = tampered.subrange(99, 99 + n);
    assert(altered[index - 99] == value);
    assert(image.subrange(99, 99 + n)[index - 99] == image[index]);
    assert(tampered.subrange(99 + n, 99 + n + 64) =~= image.subrange(99 + n, 99 + n + 64));
}

/// Truncation: a sealed container with bytes removed from its payload or
/// trailer (its header left whole) fails to open with a format error, not
/// an authentication failure; so does one cut short inside its header.
pub proof fn truncation_detected(
    passphrase: Seq<u8>,
    params: KdfParams,
    salt: Seq<u8>,
    nonce: Seq<u8>,
    plaintext: Seq<u8>,
    file: Seq<u8>,
)
    requires
        params_valid(params),
        salt.len() == 64,
        nonce.len() == 24,
        plaintext.len() <= u64::MAX,
        file.len() < sealed_image(passphrase, params, salt, nonce, plaintext).len(),
        file.len() >= HEADER_LEN ==> file.subrange(0, HEADER_LEN as int) == sealed_image(
            passphrase,
            params,
            salt,
            nonce,
            plaintext,
        ).subrange(0, HEADER_LEN as int),
    ensures
        opened(passphrase, file) matches Err(CryptError::Format(_)),
{
    lemma_sealed_layout(passphrase, params, salt, nonce, plaintext);
    if file.len() >= HEADER_LEN {
        lemma_same_header(sealed_image(passphrase, params, salt, nonce, plaintext), file);
    }
}

/// Two byte strings that agree on their first 99 bytes read as the same
/// header.
proof fn lemma_same_header(a: Seq<u8>, b: Seq<u8>)
    requires
        a.len() >= HEADER_LEN,
        b.len() >= HEADER_LEN,
        a.subrange(0, HEADER_LEN as int) == b.subrange(0, HEADER_LEN as int),
    ensures
        parse_header(a) == parse_header(b),
{
    let ha = a.subrange(0, 99);
    let hb = b.subrange(0, 99);
    assert(a[0] == ha[0] && a[1] == ha[1] && a[2] == ha[2]);
    assert(b[0] == hb[0] && b[1] == hb[1] && b[2] == hb[2]);
    assert(a.subrange(3, 67) =~= b.subrange(3, 67)) by {
        assert forall|i: int| 0 <= i < 64 implies a.subrange(3, 67)[i] == b.subrange(3, 67)[i] by {
            assert(ha[3 + i] == hb[3 + i]);
        }
    }
    assert(a.subrange(67, 91) =~= b.subrange(67, 91)) by {
        assert forall|i: int| 0 <= i < 24 implies a.subrange(67, 91)[i] == b.subrange(67, 91)[i] by {
            assert(ha[67 + i] == hb[67 + i]);
        }
    }
    assert(a.subrange(91, 99) =~= b.subrange(91, 99)) by {
        assert forall|i: int| 0 <= i < 8 implies a.subrange(91, 99)[i] == b.subrange(91, 99)[i] by {
            assert(ha[91 + i] == hb[91 + i]);
        }
    }
}

} // verus!
