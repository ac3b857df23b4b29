//! The integrity subsystem: BLAKE3 digests of file content.
//!
//! The digest of a byte sequence is modelled by the uninterpreted function
//! [`blake3_of`]; the trusted wrappers below connect it to the `blake3`
//! crate.  [`calculate_blake3_hash_streaming`] folds the input through a
//! bounded buffer and is proved to produce the very digest that the
//! single-shot hash produces, which is the equivalence the two transform
//! engines rely on.

use vstd::prelude::*;
use vstd::slice::slice_subrange;

use crate::header::HASH_SIZE;

verus! {

/// Size of the bounded buffer used by the streaming paths.
pub const BUFFER_SIZE: usize = 65536;

/// The BLAKE3 digest of a byte sequence, named but not written out: the
/// trusted wrappers below say which calls return it.
pub uninterp spec fn blake3_of(data: Seq<u8>) -> Seq<u8>;

/// The digest normalised to exactly [`HASH_SIZE`] bytes, which is the form
/// in which it is stored in a header's checksum field.
pub open spec fn spec_checksum(data: Seq<u8>) -> Seq<u8> {
    Seq::new(
        HASH_SIZE as nat,
        |i: int|
            if i < blake3_of(data).len() {
                blake3_of(data)[i]
            } else {
                0u8
            },
    )
}

/// Relies on `blake3::hash`: the 32-byte digest of the whole buffer,
/// a function of the input bytes alone.
#[verifier::external_body]
fn blake3_hash_buffer(data: &[u8]) -> (digest: Vec<u8>)
    ensures
        digest@ == blake3_of(data@),
        digest@.len() == HASH_SIZE,
{
    blake3::hash(data).as_bytes().to_vec()
}

/// Relies on `blake3::Hasher`: declared so hash state can flow through
/// verified code.
#[verifier::external_type_specification]
#[verifier::external_body]
pub struct ExHasher(blake3::Hasher);

/// The bytes fed into a hash state so far.
pub uninterp spec fn hasher_fed(h: blake3::Hasher) -> Seq<u8>;

/// Relies on `blake3::Hasher::new`: a fresh state with nothing fed yet.
#[verifier::external_body]
fn hasher_new() -> (h: blake3::Hasher)
    ensures
        hasher_fed(h) == Seq::<u8>::empty(),
{
    blake3::Hasher::new()
}

/// Relies on `blake3::Hasher::update`: appends the input to the fed bytes.
#[verifier::external_body]
fn hasher_update(h: &mut blake3::Hasher, input: &[u8])
    ensures
        hasher_fed(*final(h)) == hasher_fed(*old(h)) + input@,
{
    h.update(input);
}

/// Relies on `blake3::Hasher::finalize` and its documented equivalence with
/// `blake3::hash` over the bytes fed so far.
#[verifier::external_body]
fn hasher_finalize(h: &blake3::Hasher) -> (digest: Vec<u8>)
    ensures
        digest@ == blake3_of(hasher_fed(*h)),
        digest@.len() == HASH_SIZE,
{
    h.finalize().as_bytes().to_vec()
}

/// Single-shot digest of a complete in-memory buffer, in the normalised
/// 32-byte form that headers store.
pub fn calculate_blake3_hash(data: &[u8]) -> (digest: Vec<u8>)
    ensures
        digest@ == spec_checksum(data@),
        digest@.len() == HASH_SIZE,
{
    let digest = blake3_hash_buffer(data);
    proof {
        assert(digest@ =~= spec_checksum(data@));
    }
    digest
}

/// Streaming digest: reads the input through the bounded buffer until
/// exhaustion, folding each chunk into a running hash state.  The result is
/// proved bit-identical to the single-shot digest of the same bytes.
pub fn calculate_blake3_hash_streaming(data: &[u8]) -> (digest: Vec<u8>)
    ensures
        digest@ == spec_checksum(data@),
        digest@.len() == HASH_SIZE,
{
    let mut hasher = hasher_new();
    let mut pos: usize = 0;
    while pos < data.len()
        invariant
            pos <= data@.len(),
            hasher_fed(hasher) == data@.subrange(0, pos as int),
        decreases data@.len() - pos,
    {
        let end: usize = if data.len() - pos < BUFFER_SIZE {
            data.len()
        } else {
            pos + BUFFER_SIZE
        };
        let chunk = slice_subrange(data, pos, end);
        hasher_update(&mut hasher, chunk);
        proof {
            assert(data@.subrange(0, pos as int) + data@.subrange(pos as int, end as int)
                =~= data@.subrange(0, end as int));
        }
        pos = end;
    }
    proof {
        assert(data@.subrange(0, data@.len() as int) =~= data@);
    }
    let digest = hasher_finalize(&hasher);
    proof {
        assert(digest@ =~= spec_checksum(data@));
    }
    digest
}

} // verus!
