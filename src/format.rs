//! The container's byte layout and the header codec.
//!
//! | offset        | size | field                                   |
//! |---------------|------|-----------------------------------------|
//! | 0             | 3    | scrypt log2(N), r, p (one byte each)    |
//! | 3             | 64   | salt                                    |
//! | 67            | 24   | nonce                                   |
//! | 91            | 8    | payload length, little-endian `u64`     |
//! | 99            | L    | ciphertext                              |
//! | 99 + L        | 64   | MAC tag over the ciphertext             |

use vstd::bytes::{spec_u64_from_le_bytes, spec_u64_to_le_bytes, u64_from_le_bytes, u64_to_le_bytes};
use vstd::prelude::*;

verus! {

pub const PARAMS_LEN: usize = 3;
pub const SALT_LEN: usize = 64;
pub const NONCE_LEN: usize = 24;
pub const LENGTH_FIELD_LEN: usize = 8;
pub const SALT_OFFSET: usize = 3;
pub const NONCE_OFFSET: usize = 67;
/// Where the payload length sits, so that it can be patched in later.
pub const LENGTH_OFFSET: usize = 91;
pub const HEADER_LEN: usize = 99;
pub const TAG_LEN: usize = 64;

/// The scrypt cost parameters as they are stored: log2 of the work factor
/// N, the block size r and the parallelism p.
#[derive(Clone, Copy, Debug, PartialEq, Eq, Structural)]
pub struct KdfParams {
    pub work_factor: u8,
    pub block_size: u8,
    pub parallelism: u8,
}

impl KdfParams {
    /// The cost parameters new containers are sealed with: N = 2^12,
    /// r = 16, p = 2.
    pub fn recommended() -> (p: KdfParams)
        ensures
            p == (KdfParams { work_factor: 12, block_size: 16, parallelism: 2 }),
    {
        KdfParams { work_factor: 12, block_size: 16, parallelism: 2 }
    }
}

/// The fixed-layout header at the front of every container.
#[derive(Clone, Debug)]
pub struct FileHeader {
    pub params: KdfParams,
    pub salt: Vec<u8>,
    pub nonce: Vec<u8>,
    pub payload_length: u64,
}

/// A container that is too short to hold the named part.
#[derive(Clone, Copy, Debug, PartialEq, Eq, Structural)]
pub enum FormatError {
    KdfParamsTruncated,
    SaltTruncated,
    NonceTruncated,
    LengthTruncated,
    PayloadTruncated,
    TrailerTruncated,
}

/// The header's fields, as mathematical values.
pub struct HeaderModel {
    pub params: KdfParams,
    pub salt: Seq<u8>,
    pub nonce: Seq<u8>,
    pub payload_length: u64,
}

impl FileHeader {
    pub open spec fn view(&self) -> HeaderModel {
        HeaderModel {
            params: self.params,
            salt: self.salt@,
            nonce: self.nonce@,
            payload_length: self.payload_length,
        }
    }

    /// Salt and nonce have their fixed sizes.
    pub open spec fn wf(&self) -> bool {
        self.salt@.len() == SALT_LEN && self.nonce@.len() == NONCE_LEN
    }
}

pub open spec fn params_bytes(p: KdfParams) -> Seq<u8> {
    seq![p.work_factor, p.block_size, p.parallelism]
}

/// The 99 header bytes for the given fields.
pub open spec fn header_bytes(params: KdfParams, salt: Seq<u8>, nonce: Seq<u8>, payload_length: u64) -> Seq<u8> {
    params_bytes(params) + salt + nonce + spec_u64_to_le_bytes(payload_length)
}

/// What reading a header from the front of `b` gives: the first part that
/// does not fit is reported, else the fields.
pub open spec fn parse_header(b: Seq<u8>) -> Result<HeaderModel, FormatError> {
    if b.len() < 3 {
        Err(FormatError::KdfParamsTruncated)
    } else if b.len() < 67 {
        Err(FormatError::SaltTruncated)
    } else if b.len() < 91 {
        Err(FormatError::NonceTruncated)
    } else if b.len() < 99 {
        Err(FormatError::LengthTruncated)
    } else {
        Ok(
            HeaderModel {
                params: KdfParams { work_factor: b[0], block_size: b[1], parallelism: b[2] },
                salt: b.subrange(3, 67),
                nonce: b.subrange(67, 91),
                payload_length: spec_u64_from_le_bytes(b.subrange(91, 99)),
            },
        )
    }
}

/// Appends `data` to `out`.
pub fn append_bytes(out: &mut Vec<u8>, data: &[u8])
    ensures
        final(out)@ == old(out)@ + data@,
{
    let ghost start = out@;
    let mut i: usize = 0;
    while i < data.len()
        invariant
            i <= data@.len(),
            out@ == start + data@.subrange(0, i as int),
        decreases data@.len() - i,
    {
        out.push(data[i]);
        i = i + 1;
        assert(out@ =~= start + data@.subrange(0, i as int));
    }
    assert(data@.subrange(0, data@.len() as int) =~= data@);
}

/// Serializes a header into its 99 bytes.
pub fn encode_header(h: &FileHeader) -> (bytes: Vec<u8>)
    requires
        h.wf(),
    ensures
        bytes@ == header_bytes(h.params, h.salt@, h.nonce@, h.payload_length),
        bytes@.len() == HEADER_LEN,
{
    let mut bytes: Vec<u8> = Vec::new();
    bytes.push(h.params.work_factor);
    bytes.push(h.params.block_size);
    bytes.push(h.params.parallelism);
    assert(bytes@ =~= params_bytes(h.params));
    append_bytes(&mut bytes, h.salt.as_slice());
    append_bytes(&mut bytes, h.nonce.as_slice());
    let len = u64_to_le_bytes(h.payload_length);
    append_bytes(&mut bytes, len.as_slice());
    proof {
        vstd::bytes::lemma_auto_spec_u64_to_from_le_bytes();
    }
    bytes
}

/// Copies `b[start..end]` into a new vector.
fn copy_range(b: &[u8], start: usize, end: usize) -> (out: Vec<u8>)
    requires
        start <= end <= b@.len(),
    ensures
        out@ == b@.subrange(start as int, end as int),
{
    let mut out: Vec<u8> = Vec::new();
    append_bytes(&mut out, vstd::slice::slice_subrange(b, start, end));
    assert(out@ =~= b@.subrange(start as int, end as int));
    out
}

/// Reads a header from the front of `b`, reporting the first field that
/// is cut short.
pub fn decode_header(b: &[u8]) -> (r: Result<FileHeader, FormatError>)
    ensures
        match (r, parse_header(b@)) {
            (Ok(h), Ok(m)) => h.wf() && h@ == m,
            (Err(e), Err(f)) => e == f,
            _ => false,
        },
{
    if b.len() < PARAMS_LEN {
        return Err(FormatError::KdfParamsTruncated);
    }
    let params = KdfParams { work_factor: b[0], block_size: b[1], parallelism: b[2] };
    if b.len() < NONCE_OFFSET {
        return Err(FormatError::SaltTruncated);
    }
    let salt = copy_range(b, SALT_OFFSET, NONCE_OFFSET);
    if b.len() < LENGTH_OFFSET {
        return Err(FormatError::NonceTruncated);
    }
    let nonce = copy_range(b, NONCE_OFFSET, LENGTH_OFFSET);
    if b.len() < HEADER_LEN {
        return Err(FormatError::LengthTruncated);
    }
    let payload_length = u64_from_le_bytes(vstd::slice::slice_subrange(b, LENGTH_OFFSET, HEADER_LEN));
    Ok(FileHeader { params, salt, nonce, payload_length })
}

/// Overwrites the length field of a serialized header in place.
pub fn patch_length(image: &mut Vec<u8>, payload_length: u64)
    requires
        old(image)@.len() >= HEADER_LEN,
    ensures
        final(image)@ == old(image)@.subrange(0, LENGTH_OFFSET as int) + spec_u64_to_le_bytes(
            payload_length,
        ) + old(image)@.subrange(HEADER_LEN as int, old(image)@.len() as int),
{
    let len = u64_to_le_bytes(payload_length);
    proof {
        vstd::bytes::lemma_auto_spec_u64_to_from_le_bytes();
    }
    let ghost start = image@;
    let mut i: usize = 0;
    while i < LENGTH_FIELD_LEN
        invariant
            i <= 8,
            len@ == spec_u64_to_le_bytes(payload_length),
            len@.len() == 8,
            image@.len() == start.len(),
            start.len() >= HEADER_LEN,
            forall|j: int| 0 <= j < image@.len() ==> #[trigger] image@[j] == if LENGTH_OFFSET <= j < LENGTH_OFFSET + i {
                len@[j - LENGTH_OFFSET]
            } else {
                start[j]
            },
        decreases 8 - i,
    {
        image.set(LENGTH_OFFSET + i, len[i]);
        i = i + 1;
    }
    assert(image@ =~= start.subrange(0, LENGTH_OFFSET as int) + spec_u64_to_le_bytes(payload_length)
        + start.subrange(HEADER_LEN as int, start.len() as int));
}

} // verus!
