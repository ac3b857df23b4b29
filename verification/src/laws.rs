//! Crate-level laws proved once and for all against the codec's model.

use vstd::bytes::lemma_auto_spec_u32_to_from_le_bytes;
use vstd::prelude::*;

use crate::checksum::spec_checksum;
use crate::engine::{
    spec_deobfuscate, spec_deobfuscated_bytes, spec_is_obfuscated, spec_obf_header,
    spec_obfuscate, spec_obfuscated_bytes, spec_valid_params,
};
use crate::errors::ObfsError;
use crate::header::{spec_extract_header, spec_header_bytes, HEADER_SIZE};

verus! {

/// Header codec round trip: decoding the encoding of any header with a
/// full-size digest field restores every field, the reserved byte included.
pub proof fn lemma_header_roundtrip(h: crate::header::HeaderView)
    requires
        h.checksum.len() == crate::header::HASH_SIZE,
    ensures
        crate::header::spec_parse_header(spec_header_bytes(h)) == Ok::<
            crate::header::HeaderView,
            ObfsError,
        >(h),
{
    lemma_auto_spec_u32_to_from_le_bytes();
    let b = spec_header_bytes(h);
    assert(b.len() == HEADER_SIZE);
    assert(b.subrange(0, 4) =~= crate::header::spec_signature());
    assert(b[4] == crate::header::VERSION_BYTE);
    assert(b.subrange(8, 12) =~= vstd::bytes::spec_u32_to_le_bytes(h.original_length));
    assert(b.subrange(12, 44) =~= h.checksum);
}

/// Round trip: for every buffer that fits below the header offset and does
/// not already start with the configured magic, obfuscation succeeds and
/// deobfuscating its output restores the original byte for byte, with any
/// stored checksum verifying.
///
/// A buffer longer than the offset is excluded: obfuscation overwrites the
/// bytes under the header window, so the transform is only reversible for
/// inputs that end at or before the offset.
pub proof fn lemma_round_trip(data: Seq<u8>, magic: Seq<u8>, offset: int, use_checksum: bool)
    requires
        spec_valid_params(magic, offset),
        magic.len() <= data.len(),
        data.len() <= offset,
        data.len() <= u32::MAX,
        data.subrange(0, magic.len() as int) != magic,
    ensures
        spec_obfuscate(data, magic, offset, use_checksum) is Ok,
        spec_deobfuscate(
            spec_obfuscate(data, magic, offset, use_checksum)->Ok_0,
            magic,
            offset,
        ) == Ok::<Seq<u8>, ObfsError>(data),
{
    lemma_auto_spec_u32_to_from_le_bytes();
    let m = magic.len() as int;
    let o = spec_obfuscated_bytes(data, magic, offset, use_checksum);
    let hv = spec_obf_header(data, magic, use_checksum);
    let hbytes = spec_header_bytes(hv);

    assert(hbytes.len() == HEADER_SIZE);
    assert(o.len() == offset + HEADER_SIZE + m);

    // The output starts with the configured magic.
    assert(o.subrange(0, m) =~= magic);
    assert(spec_is_obfuscated(o, magic));

    // The header window decodes to the header that was written.
    let window = o.subrange(offset, offset + HEADER_SIZE);
    assert forall|i: int| 0 <= i < HEADER_SIZE implies window[i] == hbytes[i] by {
        assert(window[i] == o[offset + i]);
    }
    assert(window =~= hbytes);
    assert(window.subrange(0, 4) =~= crate::header::spec_signature());
    assert(window[4] == crate::header::VERSION_BYTE);
    assert(window.subrange(8, 12) =~= vstd::bytes::spec_u32_to_le_bytes(hv.original_length));
    assert(window.subrange(12, 44) =~= hv.checksum);
    let h = spec_extract_header(o, offset)->Ok_0;
    assert(h.flags == hv.flags);
    assert(h.magic_len == m as u8);
    assert(h.original_length == hv.original_length);
    assert(h.original_length == data.len());
    assert(h.checksum == hv.checksum);

    // The reconstructed buffer is exactly the original.
    let res = spec_deobfuscated_bytes(o, m, offset, h.original_length as int);
    assert forall|i: int| 0 <= i < data.len() implies res[i] == data[i] by {
        if i < m {
            assert(res[i] == o[offset + HEADER_SIZE + i]);
        } else {
            assert(res[i] == o[i]);
        }
    }
    assert(res =~= data);

    // Any stored checksum was computed over those same bytes.
    if use_checksum {
        assert(h.flags == 1u8);
        assert(1u8 & 1 == 1) by (bit_vector);
        assert(spec_checksum(res) == h.checksum);
    } else {
        assert(h.flags == 0u8);
        assert(!(0u8 & 1 == 1)) by (bit_vector);
    }
    assert(spec_deobfuscate(o, magic, offset) == Ok::<Seq<u8>, ObfsError>(data));
}

/// Engine equivalence: the image a sequential writer produces — the
/// configured magic, then the source bytes up to the offset, zero padding
/// where the source falls short, the header, the relocated original magic,
/// and the remainder of the source — is byte for byte the image the
/// whole-buffer engine produces by rewriting a copy in place.  Both
/// engines' contracts promise [`spec_obfuscated_bytes`]; this lemma shows
/// that the streaming composition order builds that same sequence.
pub proof fn lemma_engine_equivalence(
    data: Seq<u8>,
    magic: Seq<u8>,
    offset: int,
    use_checksum: bool,
)
    requires
        spec_valid_params(magic, offset),
        magic.len() <= data.len(),
        data.len() <= u32::MAX,
    ensures
        spec_obfuscated_bytes(data, magic, offset, use_checksum) == ({
            let m = magic.len() as int;
            let copy_end = if data.len() <= offset {
                data.len() as int
            } else {
                offset
            };
            let padding = Seq::new((offset - copy_end) as nat, |i: int| 0u8);
            let tail = if data.len() > offset + HEADER_SIZE + m {
                data.subrange(offset + HEADER_SIZE + m, data.len() as int)
            } else {
                Seq::<u8>::empty()
            };
            magic + data.subrange(m, copy_end) + padding + spec_header_bytes(
                spec_obf_header(data, magic, use_checksum),
            ) + data.subrange(0, m) + tail
        }),
{
    lemma_auto_spec_u32_to_from_le_bytes();
    let m = magic.len() as int;
    let copy_end = if data.len() <= offset {
        data.len() as int
    } else {
        offset
    };
    let padding = Seq::new((offset - copy_end) as nat, |i: int| 0u8);
    let hbytes = spec_header_bytes(spec_obf_header(data, magic, use_checksum));
    let tail = if data.len() > offset + HEADER_SIZE + m {
        data.subrange(offset + HEADER_SIZE + m, data.len() as int)
    } else {
        Seq::<u8>::empty()
    };
    let streamed = magic + data.subrange(m, copy_end) + padding + hbytes + data.subrange(0, m)
        + tail;
    let image = spec_obfuscated_bytes(data, magic, offset, use_checksum);
    assert(hbytes.len() == HEADER_SIZE);
    assert(streamed.len() == image.len());
    assert forall|i: int| 0 <= i < image.len() implies streamed[i] == image[i] by {
        if i < m {
            assert(streamed[i] == magic[i]);
        } else if i < copy_end {
            assert(streamed[i] == data.subrange(m, copy_end)[i - m]);
        } else if i < offset {
            assert(streamed[i] == padding[i - copy_end]);
        } else if i < offset + HEADER_SIZE {
            assert(streamed[i] == hbytes[i - offset]);
        } else if i < offset + HEADER_SIZE + m {
            assert(streamed[i] == data.subrange(0, m)[i - (offset + HEADER_SIZE)]);
        } else {
            assert(streamed[i] == tail[i - (offset + HEADER_SIZE + m)]);
        }
    }
    assert(streamed =~= image);
}

/// Checksum sensitivity, the provable core: changing any single byte in a
/// region that feeds the reconstruction — the relocated original magic
/// after the header, or the body below the recorded length — changes the
/// reconstructed buffer itself.  Deobfuscation then fails with a checksum
/// mismatch exactly when the digest of that changed reconstruction differs
/// from the stored one, which is what its contract states; that two
/// different buffers hash differently is a property of BLAKE3 itself and
/// is exercised by tests, not proved here.
pub proof fn lemma_corruption_changes_reconstruction(
    data: Seq<u8>,
    corrupted: Seq<u8>,
    magic_len: int,
    offset: int,
    original_length: int,
    p: int,
)
    requires
        corrupted.len() == data.len(),
        0 <= p < data.len(),
        forall|i: int| 0 <= i < data.len() && i != p ==> corrupted[i] == data[i],
        corrupted[p] != data[p],
        0 <= magic_len,
        0 <= offset,
        0 <= original_length,
        (offset + HEADER_SIZE <= p && p - (offset + HEADER_SIZE) < magic_len && p - (offset
            + HEADER_SIZE) < original_length) || (magic_len <= p < original_length),
    ensures
        spec_deobfuscated_bytes(corrupted, magic_len, offset, original_length)
            != spec_deobfuscated_bytes(data, magic_len, offset, original_length),
{
    let before = spec_deobfuscated_bytes(data, magic_len, offset, original_length);
    let after = spec_deobfuscated_bytes(corrupted, magic_len, offset, original_length);
    if offset + HEADER_SIZE <= p && p - (offset + HEADER_SIZE) < magic_len && p - (offset
        + HEADER_SIZE) < original_length {
        let j = p - (offset + HEADER_SIZE);
        assert(after[j] == corrupted[p]);
        assert(before[j] == data[p]);
    } else {
        assert(after[p] == corrupted[p]);
        assert(before[p] == data[p]);
    }
}

} // verus!
