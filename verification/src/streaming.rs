//! The streaming transform engine.
//!
//! The same logical transform as the whole-buffer engine, performed through
//! a bounded buffer: the source is consumed in chunks of at most
//! [`BUFFER_SIZE`] bytes, the integrity hash is folded chunk by chunk, and
//! the output grows piece by piece in the order a sequential writer would
//! produce it.  Every function here carries the same contract as its
//! whole-buffer counterpart, so the two engines are byte-identical by
//! construction.

use vstd::prelude::*;
use vstd::slice::slice_subrange;

use crate::checksum::{calculate_blake3_hash_streaming, BUFFER_SIZE};
use crate::engine::{
    bytes_eq, spec_deobfuscate, spec_deobfuscated_bytes, spec_obf_header, spec_obfuscate,
    spec_obfuscated_bytes, spec_valid_params, verify_file, VerifyReport,
};
use crate::errors::ObfsError;
use crate::header::{
    extract_header, spec_extract_header, spec_header_bytes, ObfuscationHeader, HEADER_SIZE,
    VERSION_BYTE,
};

verus! {

/// Streaming obfuscation.
///
/// Reads only the first magic-length bytes to detect an already-obfuscated
/// source, stream-hashes the whole source once when a checksum is wanted,
/// then writes the output in order: the configured magic, the source bytes
/// up to the offset (zero-padded when the source is shorter), the header,
/// the relocated original magic, and the remainder of the source.  The
/// contract is the same as the whole-buffer engine's, so the outputs agree
/// byte for byte.
#[verifier::loop_isolation(false)]
pub fn obfuscate_streaming(data: &[u8], magic: &[u8], offset: usize, use_checksum: bool) -> (r:
    Result<Vec<u8>, ObfsError>)
    requires
        spec_valid_params(magic@, offset as int),
        data@.len() <= u32::MAX,
    ensures
        match r {
            Ok(v) => spec_obfuscate(data@, magic@, offset as int, use_checksum) == Ok::<
                Seq<u8>,
                ObfsError,
            >(v@),
            Err(e) => spec_obfuscate(data@, magic@, offset as int, use_checksum) == Err::<
                Seq<u8>,
                ObfsError,
            >(e),
        },
{
    let m: usize = magic.len();
    if data.len() < m {
        return Err(ObfsError::TruncatedOrCorrupt);
    }

    // Detect an already-obfuscated source from its leading bytes alone.
    let lead = slice_subrange(data, 0, m);
    if bytes_eq(lead, magic) {
        return Err(ObfsError::AlreadyObfuscated);
    }

    // Stream-hash the whole source once if a checksum was requested.
    let checksum: Option<Vec<u8>> = if use_checksum {
        Some(calculate_blake3_hash_streaming(data))
    } else {
        None
    };

    let ghost s = spec_obfuscated_bytes(data@, magic@, offset as int, use_checksum);
    let ghost hv = spec_obf_header(data@, magic@, use_checksum);

    let mut out: Vec<u8> = Vec::new();

    // Write the obfuscation magic first.
    out.extend_from_slice(magic);
    proof {
        assert(out@ =~= s.subrange(0, m as int));
    }

    // Copy the source from after the magic up to the offset, in chunks.
    let copy_end: usize = if data.len() < offset {
        data.len()
    } else {
        offset
    };
    let mut total: usize = m;
    while total < copy_end
        invariant
            m <= total <= copy_end,
            out@.len() == total,
            out@ == s.subrange(0, total as int),
        decreases copy_end - total,
    {
        let end: usize = if copy_end - total < BUFFER_SIZE {
            copy_end
        } else {
            total + BUFFER_SIZE
        };
        let chunk = slice_subrange(data, total, end);
        out.extend_from_slice(chunk);
        proof {
            assert(out@ =~= s.subrange(0, end as int));
        }
        total = end;
    }

    // Zero-pad when the source ended before the offset.
    while total < offset
        invariant
            m <= total <= offset,
            copy_end <= total,
            out@.len() == total,
            out@ == s.subrange(0, total as int),
        decreases offset - total,
    {
        out.push(0u8);
        proof {
            assert(out@ =~= s.subrange(0, total + 1));
        }
        total = total + 1;
    }

    // The header sits at the offset, the original magic right after it.
    let header = ObfuscationHeader::new(data.len() as u32, m as u8, checksum);
    let header_bytes: Vec<u8> = header.to_bytes();
    proof {
        assert(header@ == hv);
        assert(header_bytes@ == spec_header_bytes(hv));
    }
    out.extend_from_slice(header_bytes.as_slice());
    proof {
        assert(out@ =~= s.subrange(0, offset + HEADER_SIZE));
    }
    let original_magic = slice_subrange(data, 0, m);
    out.extend_from_slice(original_magic);
    let header_end: usize = offset + HEADER_SIZE + m;
    proof {
        assert(out@ =~= s.subrange(0, header_end as int));
    }

    // Copy the rest of the source if it extends past the header area.
    if data.len() > header_end {
        let mut pos: usize = header_end;
        while pos < data.len()
            invariant
                header_end <= pos <= data@.len(),
                out@.len() == pos,
                out@ == s.subrange(0, pos as int),
            decreases data@.len() - pos,
        {
            let end: usize = if data.len() - pos < BUFFER_SIZE {
                data.len()
            } else {
                pos + BUFFER_SIZE
            };
            let chunk = slice_subrange(data, pos, end);
            out.extend_from_slice(chunk);
            proof {
                assert(out@ =~= s.subrange(0, end as int));
            }
            pos = end;
        }
    }

    proof {
        assert(out@ =~= s);
    }
    Ok(out)
}

/// Streaming deobfuscation.
///
/// Mirrors the whole-buffer algorithm stage by stage: validates the leading
/// magic and the header, then writes the reconstructed file in order — the
/// stored original magic, followed by the body copied through the bounded
/// buffer up to the recorded original length — and finally stream-hashes
/// the reconstruction to check a stored checksum.
#[verifier::loop_isolation(false)]
pub fn deobfuscate_streaming(data: &[u8], magic: &[u8], offset: usize) -> (r: Result<
    Vec<u8>,
    ObfsError,
>)
    requires
        spec_valid_params(magic@, offset as int),
    ensures
        match r {
            Ok(v) => spec_deobfuscate(data@, magic@, offset as int) == Ok::<Seq<u8>, ObfsError>(
                v@,
            ),
            Err(e) => spec_deobfuscate(data@, magic@, offset as int) == Err::<Seq<u8>, ObfsError>(
                e,
            ),
        },
{
    let m: usize = magic.len();

    // Verify this is an obfuscated file, reading only the leading bytes.
    if data.len() < m {
        return Err(ObfsError::NotObfuscated);
    }
    let lead = slice_subrange(data, 0, m);
    if !bytes_eq(lead, magic) {
        return Err(ObfsError::NotObfuscated);
    }

    // Extract and validate the header via a single seek-and-read window.
    let header = match extract_header(data, offset) {
        Ok(h) => h,
        Err(e) => {
            return Err(e);
        },
    };
    if header.magic_len as usize != m {
        return Err(ObfsError::MagicLengthMismatch);
    }

    let magic_storage_offset: usize = offset + HEADER_SIZE;
    if data.len() < magic_storage_offset + m {
        return Err(ObfsError::TruncatedOrCorrupt);
    }
    let original_length: usize = header.original_length as usize;
    if original_length > data.len() {
        return Err(ObfsError::TruncatedOrCorrupt);
    }

    let ghost s = spec_deobfuscated_bytes(data@, m as int, offset as int, original_length as int);

    let mut out: Vec<u8> = Vec::new();

    // Write the stored original magic bytes first.
    let stored_end: usize = if original_length < m {
        original_length
    } else {
        m
    };
    let stored_magic = slice_subrange(data, magic_storage_offset, magic_storage_offset
        + stored_end);
    out.extend_from_slice(stored_magic);
    proof {
        assert(out@ =~= s.subrange(0, stored_end as int));
    }

    // Copy the body through the bounded buffer up to the recorded length.
    let mut pos: usize = stored_end;
    while pos < original_length
        invariant
            m <= original_length ==> stored_end == m,
            stored_end <= pos <= original_length,
            pos < original_length ==> m <= pos,
            original_length <= data@.len(),
            out@.len() == pos,
            out@ == s.subrange(0, pos as int),
        decreases original_length - pos,
    {
        let end: usize = if original_length - pos < BUFFER_SIZE {
            original_length
        } else {
            pos + BUFFER_SIZE
        };
        let chunk = slice_subrange(data, pos, end);
        out.extend_from_slice(chunk);
        proof {
            assert(out@ =~= s.subrange(0, end as int));
        }
        pos = end;
    }
    proof {
        assert(out@ =~= s);
    }

    // Verify a stored checksum over the reconstruction, hashing in chunks.
    if header.has_checksum() {
        let digest: Vec<u8> = calculate_blake3_hash_streaming(out.as_slice());
        if !bytes_eq(digest.as_slice(), header.checksum.as_slice()) {
            return Err(ObfsError::ChecksumMismatch);
        }
    }

    Ok(out)
}

/// Verification that picks the engine by size, like the transform paths do:
/// the streaming path re-derives the header and recomputes the checksum
/// over a streaming reconstruction that is then discarded; the whole-buffer
/// path validates in memory.  Either way nothing is written and the outcome
/// is exactly the deobfuscation outcome.
pub fn verify_file_optimized(data: &[u8], magic: &[u8], offset: usize, use_streaming: bool) -> (r:
    Result<VerifyReport, ObfsError>)
    requires
        spec_valid_params(magic@, offset as int),
    ensures
        r is Ok <==> spec_deobfuscate(data@, magic@, offset as int) is Ok,
        r matches Err(e) ==> spec_deobfuscate(data@, magic@, offset as int) == Err::<
            Seq<u8>,
            ObfsError,
        >(e),
        r matches Ok(rep) ==> {
            &&& spec_extract_header(data@, offset as int) matches Ok(h)
            &&& rep.version == VERSION_BYTE
            &&& rep.original_length == h.original_length
            &&& rep.magic_len == h.magic_len
            &&& rep.has_checksum == (h.flags & 1 == 1)
        },
{
    if !use_streaming {
        return verify_file(data, magic, offset);
    }
    match deobfuscate_streaming(data, magic, offset) {
        Err(e) => Err(e),
        Ok(_reconstructed) => {
            match extract_header(data, offset) {
                Ok(h) => Ok(
                    VerifyReport {
                        version: h.version,
                        original_length: h.original_length,
                        magic_len: h.magic_len,
                        has_checksum: h.has_checksum(),
                    },
                ),
                Err(e) => {
                    proof {
                        assert(false);
                    }
                    Err(e)
                },
            }
        },
    }
}

} // verus!
