//! The streaming cipher-MAC engine.
//!
//! The payload runs through XSalsa20 in chunks of 8192 bytes, the keystream
//! continuing from one chunk to the next, while a keyed BLAKE2b accumulates
//! the ciphertext: after enciphering when encrypting, before deciphering
//! when decrypting, so that the tag always covers the ciphertext.

use vstd::prelude::*;

use crate::format::FormatError;
use crate::primitives::{
    blake2b_absorbed, blake2b_finish, blake2b_input, blake2b_key, blake2b_mac, blake2b_new,
    xsalsa20_apply, xsalsa20_key, xsalsa20_keystream, xsalsa20_new, xsalsa20_nonce,
    xsalsa20_position,
};
use crypto::blake2b::Blake2b;
use crypto::salsa20::Salsa20;

verus! {

pub const CHUNK_SIZE: usize = 8192;

/// Which way the engine runs; chosen once per run.
#[derive(Clone, Copy, Debug, PartialEq, Eq, Structural)]
pub enum Direction {
    Encrypt,
    Decrypt,
}

/// `data` xor the keystream for `key` and `nonce`, starting at keystream
/// byte `start`.
pub open spec fn stream_xor(key: Seq<u8>, nonce: Seq<u8>, start: nat, data: Seq<u8>) -> Seq<u8> {
    Seq::new(data.len(), |i: int| data[i] ^ xsalsa20_keystream(key, nonce, (start + i) as nat))
}

/// The ciphertext side of what went through the engine: its output when
/// encrypting, its input when decrypting.
pub open spec fn mac_input(direction: Direction, key: Seq<u8>, nonce: Seq<u8>, consumed: Seq<u8>) -> Seq<u8> {
    match direction {
        Direction::Encrypt => stream_xor(key, nonce, 0, consumed),
        Direction::Decrypt => consumed,
    }
}

/// Running a stream over two pieces in turn gives the same as over the
/// whole, the keystream position carrying over.
pub proof fn lemma_stream_xor_split(key: Seq<u8>, nonce: Seq<u8>, start: nat, a: Seq<u8>, b: Seq<u8>)
    ensures
        stream_xor(key, nonce, start, a + b) == stream_xor(key, nonce, start, a) + stream_xor(
            key,
            nonce,
            start + a.len(),
            b,
        ),
{
    assert(stream_xor(key, nonce, start, a + b) =~= stream_xor(key, nonce, start, a) + stream_xor(
        key,
        nonce,
        start + a.len(),
        b,
    ));
}

/// The cipher and MAC states of one run, with the count of bytes fed in.
pub struct PayloadEngine {
    direction: Direction,
    cipher: Salsa20,
    mac: Blake2b,
    processed: u64,
    cipher_key: Ghost<Seq<u8>>,
    nonce: Ghost<Seq<u8>>,
    mac_key: Ghost<Seq<u8>>,
    consumed: Ghost<Seq<u8>>,
}

impl PayloadEngine {
    pub closed spec fn direction(&self) -> Direction {
        self.direction
    }

    pub closed spec fn cipher_key(&self) -> Seq<u8> {
        self.cipher_key@
    }

    pub closed spec fn nonce(&self) -> Seq<u8> {
        self.nonce@
    }

    pub closed spec fn mac_key(&self) -> Seq<u8> {
        self.mac_key@
    }

    /// All the input fed to the engine so far.
    pub closed spec fn consumed(&self) -> Seq<u8> {
        self.consumed@
    }

    /// The cipher sits where the input has brought it, the counter matches
    /// the input, and the MAC has absorbed exactly the ciphertext side.
    pub closed spec fn wf(&self) -> bool {
        &&& xsalsa20_key(self.cipher) == self.cipher_key@
        &&& xsalsa20_nonce(self.cipher) == self.nonce@
        &&& xsalsa20_position(self.cipher) == self.consumed@.len()
        &&& self.processed == self.consumed@.len()
        &&& blake2b_key(self.mac) == self.mac_key@
        &&& blake2b_absorbed(self.mac) == mac_input(
            self.direction,
            self.cipher_key@,
            self.nonce@,
            self.consumed@,
        )
    }

    /// Starts a run with a 32-byte cipher key, a 24-byte nonce and a 64-byte
    /// MAC key.
    pub fn new(direction: Direction, cipher_key: &[u8], nonce: &[u8], mac_key: &[u8]) -> (e: Self)
        requires
            cipher_key@.len() == 32,
            nonce@.len() == 24,
            mac_key@.len() == 64,
        ensures
            e.wf(),
            e.direction() == direction,
            e.cipher_key() == cipher_key@,
            e.nonce() == nonce@,
            e.mac_key() == mac_key@,
            e.consumed() == Seq::<u8>::empty(),
    {
        let e = PayloadEngine {
            direction,
            cipher: xsalsa20_new(cipher_key, nonce),
            mac: blake2b_new(mac_key),
            processed: 0,
            cipher_key: Ghost(cipher_key@),
            nonce: Ghost(nonce@),
            mac_key: Ghost(mac_key@),
            consumed: Ghost(Seq::empty()),
        };
        assert(stream_xor(cipher_key@, nonce@, 0, Seq::<u8>::empty()) =~= Seq::<u8>::empty());
        e
    }

    /// How many bytes have gone through the engine.
    pub fn processed(&self) -> (n: u64)
        requires
            self.wf(),
        ensures
            n == self.consumed().len(),
    {
        self.processed
    }

    /// Runs one chunk through the cipher and the MAC, in the order the
    /// direction asks for, and returns the transformed chunk.
    pub fn process_chunk(&mut self, chunk: &[u8]) -> (out: Vec<u8>)
        requires
            old(self).wf(),
            old(self).consumed().len() + chunk@.len() <= u64::MAX,
        ensures
            final(self).wf(),
            final(self).direction() == old(self).direction(),
            final(self).cipher_key() == old(self).cipher_key(),
            final(self).nonce() == old(self).nonce(),
            final(self).mac_key() == old(self).mac_key(),
            final(self).consumed() == old(self).consumed() + chunk@,
            out@ == stream_xor(
                old(self).cipher_key(),
                old(self).nonce(),
                old(self).consumed().len(),
                chunk@,
            ),
    {
        let ghost before = self.consumed@;
        let out = match self.direction {
            Direction::Encrypt => {
                let out = xsalsa20_apply(&mut self.cipher, chunk);
                blake2b_input(&mut self.mac, out.as_slice());
                out
            },
            Direction::Decrypt => {
                blake2b_input(&mut self.mac, chunk);
                xsalsa20_apply(&mut self.cipher, chunk)
            },
        };
        assert(out@ =~= stream_xor(self.cipher_key@, self.nonce@, before.len(), chunk@));
        self.processed = self.processed + chunk.len() as u64;
        self.consumed = Ghost(before + chunk@);
        proof {
            lemma_stream_xor_split(self.cipher_key@, self.nonce@, 0, before, chunk@);
        }
        out
    }

    /// Ends the run and returns the 64-byte tag over the ciphertext side.
    pub fn finish(self) -> (tag: Vec<u8>)
        requires
            self.wf(),
        ensures
            tag@.len() == 64,
            tag@ == blake2b_mac(
                self.mac_key(),
                mac_input(self.direction(), self.cipher_key(), self.nonce(), self.consumed()),
            ),
    {
        blake2b_finish(self.mac)
    }
}

/// What a run over a whole payload hands back: the transformed bytes, the
/// tag over the ciphertext and the payload's length.
#[derive(Clone, Debug)]
pub struct ProcessedPayload {
    pub output: Vec<u8>,
    pub tag: Vec<u8>,
    pub length: u64,
}

/// Runs a payload through the engine chunk by chunk.
///
/// Encrypting takes all of `input`, ending at the first chunk shorter than
/// 8192 bytes (an empty one when the length is a multiple of the chunk
/// size), and reports the measured length. Decrypting takes exactly
/// `payload_length` bytes from the front of `input`, in full chunks and a
/// final short one, and fails with `PayloadTruncated` when fewer are there.
pub fn process_payload(
    input: &[u8],
    direction: Direction,
    payload_length: u64,
    cipher_key: &[u8],
    nonce: &[u8],
    mac_key: &[u8],
) -> (r: Result<ProcessedPayload, FormatError>)
    requires
        cipher_key@.len() == 32,
        nonce@.len() == 24,
        mac_key@.len() == 64,
    ensures
        match direction {
            Direction::Encrypt => match r {
                Ok(p) => p.length == input@.len() && p.output@ == stream_xor(
                    cipher_key@,
                    nonce@,
                    0,
                    input@,
                ) && p.tag@ == blake2b_mac(mac_key@, p.output@),
                Err(_) => false,
            },
            Direction::Decrypt => if payload_length <= input@.len() {
                match r {
                    Ok(p) => p.length == payload_length && p.output@ == stream_xor(
                        cipher_key@,
                        nonce@,
                        0,
                        input@.subrange(0, payload_length as int),
                    ) && p.tag@ == blake2b_mac(mac_key@, input@.subrange(0, payload_length as int)),
                    Err(_) => false,
                }
            } else {
                r matches Err(FormatError::PayloadTruncated)
            },
        },
        r matches Ok(p) ==> p.tag@.len() == 64,
{
    let mut engine = PayloadEngine::new(direction, cipher_key, nonce, mac_key);
    let mut output: Vec<u8> = Vec::new();
    let mut pos: usize = 0;
    match direction {
        Direction::Encrypt => {
            loop
                invariant
                    engine.wf(),
                    engine.direction() == direction,
                    engine.cipher_key() == cipher_key@,
                    engine.nonce() == nonce@,
                    engine.mac_key() == mac_key@,
                    pos <= input@.len(),
                    engine.consumed() == input@.subrange(0, pos as int),
                    output@ == stream_xor(cipher_key@, nonce@, 0, engine.consumed()),
                ensures
                    engine.wf(),
                    engine.direction() == direction,
                    engine.cipher_key() == cipher_key@,
                    engine.nonce() == nonce@,
                    engine.mac_key() == mac_key@,
                    engine.consumed() == input@,
                    output@ == stream_xor(cipher_key@, nonce@, 0, engine.consumed()),
                decreases input@.len() - pos, (pos < input@.len()) as int,
            {
                let available = input.len() - pos;
                let n: usize = if available < CHUNK_SIZE {
                    available
                } else {
                    CHUNK_SIZE
                };
                let chunk = vstd::slice::slice_subrange(input, pos, pos + n);
                let ghost before = engine.consumed();
                let out = engine.process_chunk(chunk);
                proof {
                    lemma_stream_xor_split(cipher_key@, nonce@, 0, before, chunk@);
                }
                crate::format::append_bytes(&mut output, out.as_slice());
                pos = pos + n;
                assert(engine.consumed() =~= input@.subrange(0, pos as int));
                if n < CHUNK_SIZE {
                    assert(input@.subrange(0, pos as int) =~= input@);
                    break;
                }
            }
        },
        Direction::Decrypt => {
            let mut remaining: u64 = payload_length;
            while remaining > CHUNK_SIZE as u64
                invariant
                    engine.wf(),
                    engine.direction() == direction,
                    engine.cipher_key() == cipher_key@,
                    engine.nonce() == nonce@,
                    engine.mac_key() == mac_key@,
                    pos <= input@.len(),
                    pos + remaining == payload_length,
                    engine.consumed() == input@.subrange(0, pos as int),
                    output@ == stream_xor(cipher_key@, nonce@, 0, engine.consumed()),
                    direction == Direction::Decrypt,
                decreases remaining,
            {
                if input.len() - pos < CHUNK_SIZE {
                    return Err(FormatError::PayloadTruncated);
                }
                let chunk = vstd::slice::slice_subrange(input, pos, pos + CHUNK_SIZE);
                let ghost before = engine.consumed();
                let out = engine.process_chunk(chunk);
                proof {
                    lemma_stream_xor_split(cipher_key@, nonce@, 0, before, chunk@);
                }
                crate::format::append_bytes(&mut output, out.as_slice());
                pos = pos + CHUNK_SIZE;
                remaining = remaining - CHUNK_SIZE as u64;
                assert(engine.consumed() =~= input@.subrange(0, pos as int));
            }
            if ((input.len() - pos) as u64) < remaining {
                return Err(FormatError::PayloadTruncated);
            }
            let last = remaining as usize;
            let chunk = vstd::slice::slice_subrange(input, pos, pos + last);
            let ghost before = engine.consumed();
            let out = engine.process_chunk(chunk);
            proof {
                lemma_stream_xor_split(cipher_key@, nonce@, 0, before, chunk@);
            }
            crate::format::append_bytes(&mut output, out.as_slice());
            pos = pos + last;
            assert(engine.consumed() =~= input@.subrange(0, pos as int));
        },
    }
    let length = engine.processed();
    let tag = engine.finish();
    Ok(ProcessedPayload { output, tag, length })
}

} // verus!
