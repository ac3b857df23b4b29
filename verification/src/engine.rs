//! The whole-buffer transform engine and the mathematical model of the
//! container format.
//!
//! The spec functions here define, byte for byte, what obfuscation and
//! deobfuscation produce and on which inputs they fail.  Both this engine
//! and the streaming engine are proved against the same model, which is
//! what makes their outputs byte-identical.

use vstd::prelude::*;
use vstd::slice::{slice_index_get, slice_subrange, slice_to_vec};

use crate::checksum::{calculate_blake3_hash, spec_checksum};
use crate::errors::ObfsError;
use crate::header::{
    extract_header, spec_extract_header, spec_header_bytes, HeaderView, ObfuscationHeader,
    HASH_SIZE, HEADER_SIZE, VERSION_BYTE,
};

verus! {

/// The configuration invariants every engine call relies on: a magic
/// sequence of 1 to 8 bytes and an offset that leaves room for the header
/// and the relocated magic, small enough that all positions fit in `usize`.
pub open spec fn spec_valid_params(magic: Seq<u8>, offset: int) -> bool {
    &&& 1 <= magic.len() <= 8
    &&& HEADER_SIZE + magic.len() <= offset
    &&& offset + HEADER_SIZE + magic.len() <= usize::MAX
}

/// A buffer counts as obfuscated when it starts with the configured magic.
pub open spec fn spec_is_obfuscated(data: Seq<u8>, magic: Seq<u8>) -> bool {
    data.len() >= magic.len() && data.subrange(0, magic.len() as int) == magic
}

/// Length of an obfuscated image: the original length, grown with zero
/// padding when the header and relocated magic would not fit otherwise.
pub open spec fn spec_obf_len(data_len: int, magic_len: int, offset: int) -> int {
    let required = offset + HEADER_SIZE + magic_len;
    if data_len >= required {
        data_len
    } else {
        required
    }
}

/// The header written while obfuscating `data`.
pub open spec fn spec_obf_header(data: Seq<u8>, magic: Seq<u8>, use_checksum: bool) -> HeaderView {
    HeaderView {
        flags: if use_checksum { 1u8 } else { 0u8 },
        magic_len: magic.len() as u8,
        reserved: 0u8,
        original_length: data.len() as u32,
        checksum: if use_checksum {
            spec_checksum(data)
        } else {
            Seq::new(HASH_SIZE as nat, |i: int| 0u8)
        },
    }
}

/// The obfuscated image of `data`: the configured magic up front, the
/// header at `offset`, the original magic relocated right after the header,
/// every other byte of the original unchanged, and zero padding where the
/// original was shorter than required.
pub open spec fn spec_obfuscated_bytes(
    data: Seq<u8>,
    magic: Seq<u8>,
    offset: int,
    use_checksum: bool,
) -> Seq<u8> {
    let m = magic.len() as int;
    let hbytes = spec_header_bytes(spec_obf_header(data, magic, use_checksum));
    Seq::new(
        spec_obf_len(data.len() as int, m, offset) as nat,
        |i: int|
            if i < m {
                magic[i]
            } else if offset <= i < offset + HEADER_SIZE {
                hbytes[i - offset]
            } else if offset + HEADER_SIZE <= i < offset + HEADER_SIZE + m {
                data[i - (offset + HEADER_SIZE)]
            } else if i < data.len() {
                data[i]
            } else {
                0u8
            },
    )
}

/// The complete outcome of obfuscation: which inputs are rejected, with
/// which error, and the exact bytes produced otherwise.
pub open spec fn spec_obfuscate(
    data: Seq<u8>,
    magic: Seq<u8>,
    offset: int,
    use_checksum: bool,
) -> Result<Seq<u8>, ObfsError> {
    if data.len() < magic.len() {
        Err(ObfsError::TruncatedOrCorrupt)
    } else if spec_is_obfuscated(data, magic) {
        Err(ObfsError::AlreadyObfuscated)
    } else {
        Ok(spec_obfuscated_bytes(data, magic, offset, use_checksum))
    }
}

/// The reconstructed original: the stored magic copied back over the front,
/// the rest of the image unchanged, truncated to the recorded length.
pub open spec fn spec_deobfuscated_bytes(
    data: Seq<u8>,
    magic_len: int,
    offset: int,
    original_length: int,
) -> Seq<u8> {
    Seq::new(
        original_length as nat,
        |i: int|
            if i < magic_len {
                data[offset + HEADER_SIZE + i]
            } else {
                data[i]
            },
    )
}

/// The complete outcome of deobfuscation, in the order the checks run:
/// magic, header presence, signature, version, recorded magic length,
/// required bytes, recorded original length, and finally the checksum.
pub open spec fn spec_deobfuscate(data: Seq<u8>, magic: Seq<u8>, offset: int) -> Result<
    Seq<u8>,
    ObfsError,
> {
    let m = magic.len() as int;
    if !spec_is_obfuscated(data, magic) {
        Err(ObfsError::NotObfuscated)
    } else {
        match spec_extract_header(data, offset) {
            Err(e) => Err(e),
            Ok(h) => {
                if h.magic_len != magic.len() as u8 {
                    Err(ObfsError::MagicLengthMismatch)
                } else if data.len() < offset + HEADER_SIZE + m {
                    Err(ObfsError::TruncatedOrCorrupt)
                } else if h.original_length > data.len() {
                    Err(ObfsError::TruncatedOrCorrupt)
                } else {
                    let res = spec_deobfuscated_bytes(data, m, offset, h.original_length as int);
                    if h.flags & 1 == 1 && spec_checksum(res) != h.checksum {
                        Err(ObfsError::ChecksumMismatch)
                    } else {
                        Ok(res)
                    }
                }
            },
        }
    }
}

/// Byte-for-byte comparison of two slices.
#[verifier::loop_isolation(false)]
pub fn bytes_eq(a: &[u8], b: &[u8]) -> (r: bool)
    ensures
        r == (a@ == b@),
{
    if a.len() != b.len() {
        return false;
    }
    let mut i: usize = 0;
    while i < a.len()
        invariant
            i <= a@.len(),
            forall|j: int| 0 <= j < i ==> a@[j] == b@[j],
        decreases a@.len() - i,
    {
        if *slice_index_get(a, i) != *slice_index_get(b, i) {
            return false;
        }
        i = i + 1;
    }
    proof {
        assert(a@ =~= b@);
    }
    true
}

/// Whether the buffer's leading bytes equal the configured magic.
pub fn is_obfuscated(data: &[u8], magic: &[u8]) -> (b: bool)
    ensures
        b == spec_is_obfuscated(data@, magic@),
{
    if data.len() < magic.len() {
        return false;
    }
    let prefix = slice_subrange(data, 0, magic.len());
    bytes_eq(prefix, magic)
}

/// Obfuscates a whole in-memory buffer.
///
/// The buffer is copied, grown with zero padding when needed, and rewritten
/// in place: the original magic is stored right after where the header will
/// sit, the header is written at `offset`, and the front is overwritten
/// with the configured magic.  The checksum, when requested, covers the
/// original untransformed bytes.
#[verifier::loop_isolation(false)]
pub fn obfuscate(data: &[u8], magic: &[u8], offset: usize, use_checksum: bool) -> (r: Result<
    Vec<u8>,
    ObfsError,
>)
    requires
        spec_valid_params(magic@, offset as int),
        data@.len() <= u32::MAX,
    ensures
        match r {
            Ok(v) => spec_obfuscate(data@, magic@, offset as int, use_checksum) == Ok::<
                Seq<u8>,
                ObfsError,
            >(v@),
            Err(e) => spec_obfuscate(data@, magic@, offset as int, use_checksum) == Err::<
                Seq<u8>,
                ObfsError,
            >(e),
        },
{
    if data.len() < magic.len() {
        return Err(ObfsError::TruncatedOrCorrupt);
    }
    if is_obfuscated(data, magic) {
        return Err(ObfsError::AlreadyObfuscated);
    }

    let original_length: u32 = data.len() as u32;
    let mut result: Vec<u8> = slice_to_vec(data);

    let required: usize = offset + HEADER_SIZE + magic.len();
    if result.len() < required {
        result.resize(required, 0u8);
    }
    proof {
        assert(result@.len() == spec_obf_len(data@.len() as int, magic@.len() as int,
            offset as int));
        assert(forall|i: int| 0 <= i < data@.len() ==> result@[i] == data@[i]);
        assert(forall|i: int| data@.len() <= i < result@.len() ==> result@[i] == 0u8);
    }

    // Store the original magic bytes right after where the header will sit.
    let magic_storage_offset: usize = offset + HEADER_SIZE;
    let ghost after_copy = result@;
    let mut i: usize = 0;
    while i < magic.len()
        invariant
            i <= magic@.len(),
            result@.len() == after_copy.len(),
            forall|j: int| 0 <= j < i ==> result@[magic_storage_offset + j] == data@[j],
            forall|k: int|
                0 <= k < result@.len() && !(magic_storage_offset <= k < magic_storage_offset + i)
                    ==> result@[k] == after_copy[k],
        decreases magic@.len() - i,
    {
        let b: u8 = *slice_index_get(data, i);
        result.set(magic_storage_offset + i, b);
        i = i + 1;
    }

    // Compute the checksum over the original, untransformed source bytes.
    let checksum: Option<Vec<u8>> = if use_checksum {
        Some(calculate_blake3_hash(data))
    } else {
        None
    };

    // Encode and write the header at `offset`.
    let header = ObfuscationHeader::new(original_length, magic.len() as u8, checksum);
    let header_bytes: Vec<u8> = header.to_bytes();
    proof {
        assert(header@ == spec_obf_header(data@, magic@, use_checksum));
        assert(header_bytes@ == spec_header_bytes(spec_obf_header(data@, magic@, use_checksum)));
    }
    let ghost after_store = result@;
    let mut j: usize = 0;
    while j < HEADER_SIZE
        invariant
            j <= HEADER_SIZE,
            result@.len() == after_store.len(),
            forall|p: int| 0 <= p < j ==> result@[offset + p] == header_bytes@[p],
            forall|k: int|
                0 <= k < result@.len() && !(offset <= k < offset + j) ==> result@[k]
                    == after_store[k],
        decreases HEADER_SIZE - j,
    {
        let b: u8 = *header_bytes.get(j).unwrap();
        result.set(offset + j, b);
        j = j + 1;
    }

    // Replace the leading bytes with the configured obfuscation magic.
    let ghost after_header = result@;
    let mut k: usize = 0;
    while k < magic.len()
        invariant
            k <= magic@.len(),
            result@.len() == after_header.len(),
            forall|p: int| 0 <= p < k ==> result@[p] == magic@[p],
            forall|q: int| k <= q < result@.len() ==> result@[q] == after_header[q],
        decreases magic@.len() - k,
    {
        let b: u8 = *slice_index_get(magic, k);
        result.set(k, b);
        k = k + 1;
    }

    proof {
        let s = spec_obfuscated_bytes(data@, magic@, offset as int, use_checksum);
        assert forall|i: int| 0 <= i < result@.len() implies result@[i] == s[i] by {
            let m = magic@.len() as int;
            if i < m {
            } else if offset <= i < offset + HEADER_SIZE {
                assert(result@[i] == after_header[i]);
                assert(after_header[i] == header_bytes@[i - offset]);
            } else if offset + HEADER_SIZE <= i < offset + HEADER_SIZE + m {
                assert(result@[i] == after_header[i]);
                assert(after_header[i] == after_store[i]);
                assert(after_store[i] == data@[i - (offset + HEADER_SIZE)]);
            } else {
                assert(result@[i] == after_header[i]);
                assert(after_header[i] == after_store[i]);
                assert(after_store[i] == after_copy[i]);
            }
        }
        assert(result@ =~= s);
    }
    Ok(result)
}

/// Deobfuscates a whole in-memory buffer: verifies the leading magic,
/// decodes and validates the header, copies the stored original magic back
/// over the front, truncates to the recorded length, and checks the
/// checksum over the reconstructed bytes when one is present.
#[verifier::loop_isolation(false)]
pub fn deobfuscate(data: &[u8], magic: &[u8], offset: usize) -> (r: Result<Vec<u8>, ObfsError>)
    requires
        spec_valid_params(magic@, offset as int),
    ensures
        match r {
            Ok(v) => spec_deobfuscate(data@, magic@, offset as int) == Ok::<Seq<u8>, ObfsError>(
                v@,
            ),
            Err(e) => spec_deobfuscate(data@, magic@, offset as int) == Err::<Seq<u8>, ObfsError>(
                e,
            ),
        },
{
    if !is_obfuscated(data, magic) {
        return Err(ObfsError::NotObfuscated);
    }

    let header = match extract_header(data, offset) {
        Ok(h) => h,
        Err(e) => {
            return Err(e);
        },
    };

    if header.magic_len as usize != magic.len() {
        return Err(ObfsError::MagicLengthMismatch);
    }

    let magic_storage_offset: usize = offset + HEADER_SIZE;
    if data.len() < magic_storage_offset + magic.len() {
        return Err(ObfsError::TruncatedOrCorrupt);
    }

    let original_length: usize = header.original_length as usize;
    if original_length > data.len() {
        return Err(ObfsError::TruncatedOrCorrupt);
    }

    let mut result: Vec<u8> = slice_to_vec(data);

    // Restore the original magic bytes stored after the header.
    let ghost initial = result@;
    let mut i: usize = 0;
    while i < magic.len()
        invariant
            i <= magic@.len(),
            result@.len() == initial.len(),
            forall|j: int| 0 <= j < i ==> result@[j] == data@[magic_storage_offset + j],
            forall|k: int| i <= k < result@.len() ==> result@[k] == initial[k],
        decreases magic@.len() - i,
    {
        let b: u8 = *slice_index_get(data, magic_storage_offset + i);
        result.set(i, b);
        i = i + 1;
    }

    // Trim back to the recorded original length.
    result.truncate(original_length);
    proof {
        assert(result@ =~= spec_deobfuscated_bytes(data@, magic@.len() as int, offset as int,
            original_length as int));
    }

    // Recompute and compare the checksum over the reconstructed bytes.
    if header.has_checksum() {
        let digest: Vec<u8> = calculate_blake3_hash(result.as_slice());
        if !bytes_eq(digest.as_slice(), header.checksum.as_slice()) {
            return Err(ObfsError::ChecksumMismatch);
        }
    }

    Ok(result)
}

/// What verify reports about a structurally valid file.
#[derive(Clone, Copy, Debug, PartialEq, Eq, Structural)]
pub struct VerifyReport {
    pub version: u8,
    pub original_length: u32,
    pub magic_len: u8,
    pub has_checksum: bool,
}

/// Runs the same validation as deobfuscation — magic, header, recorded
/// lengths, checksum — but discards the reconstructed buffer and reports
/// status only; it never writes output.
pub fn verify_file(data: &[u8], magic: &[u8], offset: usize) -> (r: Result<
    VerifyReport,
    ObfsError,
>)
    requires
        spec_valid_params(magic@, offset as int),
    ensures
        r is Ok <==> spec_deobfuscate(data@, magic@, offset as int) is Ok,
        r matches Err(e) ==> spec_deobfuscate(data@, magic@, offset as int) == Err::<
            Seq<u8>,
            ObfsError,
        >(e),
        r matches Ok(rep) ==> {
            &&& spec_extract_header(data@, offset as int) matches Ok(h)
            &&& rep.version == VERSION_BYTE
            &&& rep.original_length == h.original_length
            &&& rep.magic_len == h.magic_len
            &&& rep.has_checksum == (h.flags & 1 == 1)
        },
{
    match deobfuscate(data, magic, offset) {
        Err(e) => Err(e),
        Ok(_reconstructed) => {
            match extract_header(data, offset) {
                Ok(h) => Ok(
                    VerifyReport {
                        version: h.version,
                        original_length: h.original_length,
                        magic_len: h.magic_len,
                        has_checksum: h.has_checksum(),
                    },
                ),
                Err(e) => {
                    proof {
                        assert(false);
                    }
                    Err(e)
                },
            }
        },
    }
}

} // verus!
