//! The fixed 44-byte header record embedded in every obfuscated file.
//!
//! Layout, in order: 4 signature bytes, 1 version byte, 1 flags byte
//! (bit 0 = "checksum present"), 1 magic-length byte, 1 reserved byte,
//! the original file length as 4 little-endian bytes, and a 32-byte
//! integrity digest (all zero when no checksum was requested).

use vstd::bytes::{spec_u32_from_le_bytes, spec_u32_to_le_bytes, u32_from_le_bytes, u32_to_le_bytes};
use vstd::prelude::*;
use vstd::slice::slice_subrange;

use crate::errors::ObfsError;

verus! {

/// Number of bytes in the header record.
pub const HEADER_SIZE: usize = 44;

/// Number of bytes in an integrity digest.
pub const HASH_SIZE: usize = 32;

/// The format version this crate understands; any other version byte is
/// rejected rather than silently ignored.
pub const VERSION_BYTE: u8 = 0x01;

/// The constant tag "OBFX" that opens every valid header.
pub open spec fn spec_signature() -> Seq<u8> {
    seq![0x4fu8, 0x42u8, 0x46u8, 0x58u8]
}

/// The mathematical content of a header: everything except the constant
/// signature and version bytes, which carry no information of their own.
pub ghost struct HeaderView {
    pub flags: u8,
    pub magic_len: u8,
    pub reserved: u8,
    pub original_length: u32,
    pub checksum: Seq<u8>,
}

/// The exact 44 bytes that encode a header with the given field values.
pub open spec fn spec_header_bytes(h: HeaderView) -> Seq<u8> {
    spec_signature() + seq![VERSION_BYTE, h.flags, h.magic_len, h.reserved]
        + spec_u32_to_le_bytes(h.original_length) + h.checksum
}

/// Decoding a header from a byte window: the signature and version are
/// checked before any other field is trusted; no other validation happens
/// here because size-consistency and magic-length checks need context the
/// codec does not have.
pub open spec fn spec_parse_header(bytes: Seq<u8>) -> Result<HeaderView, ObfsError> {
    if bytes.len() < HEADER_SIZE {
        Err(ObfsError::HeaderTooSmall)
    } else if bytes.subrange(0, 4) != spec_signature() {
        Err(ObfsError::BadSignature)
    } else if bytes[4] != VERSION_BYTE {
        Err(ObfsError::UnsupportedVersion)
    } else {
        Ok(HeaderView {
            flags: bytes[5],
            magic_len: bytes[6],
            reserved: bytes[7],
            original_length: spec_u32_from_le_bytes(bytes.subrange(8, 12)),
            checksum: bytes.subrange(12, 44),
        })
    }
}

/// Decoding the header stored at `offset` inside a whole file image.
pub open spec fn spec_extract_header(data: Seq<u8>, offset: int) -> Result<HeaderView, ObfsError> {
    if data.len() < offset + HEADER_SIZE {
        Err(ObfsError::HeaderTooSmall)
    } else {
        spec_parse_header(data.subrange(offset, offset + HEADER_SIZE))
    }
}

/// The header record, constructed fresh for every obfuscate operation and
/// parsed fresh for every deobfuscate or verify.
#[derive(Debug)]
pub struct ObfuscationHeader {
    pub signature: Vec<u8>,
    pub version: u8,
    pub flags: u8,
    pub magic_len: u8,
    pub reserved: u8,
    pub original_length: u32,
    pub checksum: Vec<u8>,
}

impl View for ObfuscationHeader {
    type V = HeaderView;

    open spec fn view(&self) -> HeaderView {
        HeaderView {
            flags: self.flags,
            magic_len: self.magic_len,
            reserved: self.reserved,
            original_length: self.original_length,
            checksum: self.checksum@,
        }
    }
}

impl ObfuscationHeader {
    /// A well-formed header carries the constant signature and version and
    /// a digest field of exactly 32 bytes.
    pub open spec fn wf(&self) -> bool {
        &&& self.signature@ == spec_signature()
        &&& self.version == VERSION_BYTE
        &&& self.checksum@.len() == HASH_SIZE
    }

    /// Builds a fresh header.  The flags byte records whether a checksum is
    /// present; without one the digest field is zero-filled.
    pub fn new(original_length: u32, magic_len: u8, checksum: Option<Vec<u8>>) -> (h: Self)
        requires
            checksum matches Some(c) ==> c@.len() == HASH_SIZE,
        ensures
            h.wf(),
            h.flags == if checksum is Some { 1u8 } else { 0u8 },
            h.magic_len == magic_len,
            h.reserved == 0u8,
            h.original_length == original_length,
            h.checksum@ == match checksum {
                Some(c) => c@,
                None => Seq::new(HASH_SIZE as nat, |i: int| 0u8),
            },
    {
        let mut signature: Vec<u8> = Vec::new();
        signature.push(0x4f);
        signature.push(0x42);
        signature.push(0x46);
        signature.push(0x58);
        proof {
            assert(signature@ =~= spec_signature());
        }
        let (flags, checksum): (u8, Vec<u8>) = match checksum {
            Some(c) => (1, c),
            None => {
                let mut zeroes: Vec<u8> = Vec::new();
                let mut i: usize = 0;
                while i < HASH_SIZE
                    invariant
                        i <= HASH_SIZE,
                        zeroes@.len() == i,
                        forall|j: int| 0 <= j < i ==> zeroes@[j] == 0u8,
                    decreases HASH_SIZE - i,
                {
                    zeroes.push(0);
                    i = i + 1;
                }
                proof {
                    assert(zeroes@ =~= Seq::new(HASH_SIZE as nat, |i: int| 0u8));
                }
                (0, zeroes)
            },
        };
        ObfuscationHeader {
            signature,
            version: VERSION_BYTE,
            flags,
            magic_len,
            reserved: 0,
            original_length,
            checksum,
        }
    }

    /// Packs the fields into the fixed on-disk order.
    pub fn to_bytes(&self) -> (bytes: Vec<u8>)
        ensures
            bytes@ == self.signature@ + seq![self.version, self.flags, self.magic_len, self.reserved]
                + spec_u32_to_le_bytes(self.original_length) + self.checksum@,
            self.wf() ==> bytes@ == spec_header_bytes(self@),
            self.wf() ==> bytes@.len() == HEADER_SIZE,
    {
        let mut bytes: Vec<u8> = Vec::new();
        bytes.extend_from_slice(self.signature.as_slice());
        bytes.push(self.version);
        bytes.push(self.flags);
        bytes.push(self.magic_len);
        bytes.push(self.reserved);
        let mut le: Vec<u8> = u32_to_le_bytes(self.original_length);
        bytes.append(&mut le);
        bytes.extend_from_slice(self.checksum.as_slice());
        proof {
            assert(bytes@ =~= self.signature@
                + seq![self.version, self.flags, self.magic_len, self.reserved]
                + spec_u32_to_le_bytes(self.original_length) + self.checksum@);
            if self.wf() {
                assert(bytes@ =~= spec_header_bytes(self@));
            }
        }
        bytes
    }

    /// Unpacks a header from the first 44 bytes of `bytes`, failing exactly
    /// as `spec_parse_header` says.
    pub fn from_bytes(bytes: &[u8]) -> (r: Result<Self, ObfsError>)
        ensures
            match r {
                Ok(h) => h.wf() && spec_parse_header(bytes@) == Ok::<HeaderView, ObfsError>(h@),
                Err(e) => spec_parse_header(bytes@) == Err::<HeaderView, ObfsError>(e),
            },
    {
        if bytes.len() < HEADER_SIZE {
            return Err(ObfsError::HeaderTooSmall);
        }
        let sig0 = *vstd::slice::slice_index_get(bytes, 0);
        let sig1 = *vstd::slice::slice_index_get(bytes, 1);
        let sig2 = *vstd::slice::slice_index_get(bytes, 2);
        let sig3 = *vstd::slice::slice_index_get(bytes, 3);
        if !(sig0 == 0x4f && sig1 == 0x42 && sig2 == 0x46 && sig3 == 0x58) {
            proof {
                assert(bytes@.subrange(0, 4) != spec_signature());
            }
            return Err(ObfsError::BadSignature);
        }
        proof {
            assert(bytes@.subrange(0, 4) =~= spec_signature());
        }
        let version = *vstd::slice::slice_index_get(bytes, 4);
        if version != VERSION_BYTE {
            return Err(ObfsError::UnsupportedVersion);
        }
        let flags = *vstd::slice::slice_index_get(bytes, 5);
        let magic_len = *vstd::slice::slice_index_get(bytes, 6);
        let reserved = *vstd::slice::slice_index_get(bytes, 7);
        let original_length = u32_from_le_bytes(slice_subrange(bytes, 8, 12));
        let checksum_slice = slice_subrange(bytes, 12, HEADER_SIZE);
        let checksum = vstd::slice::slice_to_vec(checksum_slice);
        let mut signature: Vec<u8> = Vec::new();
        signature.push(sig0);
        signature.push(sig1);
        signature.push(sig2);
        signature.push(sig3);
        proof {
            assert(signature@ =~= spec_signature());
        }
        let h = ObfuscationHeader {
            signature,
            version,
            flags,
            magic_len,
            reserved,
            original_length,
            checksum,
        };
        Ok(h)
    }

    /// Whether bit 0 of the flags byte says a checksum is stored.
    pub fn has_checksum(&self) -> (b: bool)
        ensures
            b == (self.flags & 1 == 1),
    {
        proof {
            let f = self.flags;
            assert((f & 1 == 1) == (f & 0x01 != 0)) by (bit_vector);
        }
        self.flags & 0x01 != 0
    }
}

/// Reads the header stored at `offset` of a whole in-memory file image.
pub fn extract_header(data: &[u8], offset: usize) -> (r: Result<ObfuscationHeader, ObfsError>)
    requires
        offset + HEADER_SIZE <= usize::MAX,
    ensures
        match r {
            Ok(h) => h.wf() && spec_extract_header(data@, offset as int) == Ok::<
                HeaderView,
                ObfsError,
            >(h@),
            Err(e) => spec_extract_header(data@, offset as int) == Err::<HeaderView, ObfsError>(e),
        },
{
    if data.len() < offset + HEADER_SIZE {
        return Err(ObfsError::HeaderTooSmall);
    }
    let window = slice_subrange(data, offset, offset + HEADER_SIZE);
    ObfuscationHeader::from_bytes(window)
}

} // verus!
