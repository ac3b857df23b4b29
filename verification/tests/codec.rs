use obfsx::config::check_min_size;
use obfsx::engine::{deobfuscate, is_obfuscated, obfuscate, verify_file};
use obfsx::errors::ObfsError;
use obfsx::header::{extract_header, ObfuscationHeader, HEADER_SIZE};
use obfsx::streaming::{deobfuscate_streaming, obfuscate_streaming, verify_file_optimized};

fn sample(len: usize) -> Vec<u8> {
    let mut v = Vec::with_capacity(len);
    let mut i: usize = 0;
    while i < len {
        v.push((i % 251) as u8 ^ 0x5a);
        i += 1;
    }
    v
}

#[test]
fn concrete_scenario() {
    let data = vec![0x41u8; 10];
    let magic = vec![0u8, 0, 0, 0];
    let out = obfuscate(&data, &magic, 64, true).unwrap();

    assert_eq!(out.len(), 64 + HEADER_SIZE + 4);
    assert_eq!(&out[0..4], &[0u8, 0, 0, 0]);

    let header = ObfuscationHeader::from_bytes(&out[64..64 + HEADER_SIZE]).unwrap();
    assert_eq!(header.original_length, 10);
    assert_eq!(header.magic_len, 4);
    assert_eq!(header.version, 1);
    assert!(header.has_checksum());
    assert_eq!(&out[108..112], b"AAAA");

    let restored = deobfuscate(&out, &magic, 64).unwrap();
    assert_eq!(restored, data);

    let report = verify_file(&out, &magic, 64).unwrap();
    assert!(report.has_checksum);
    assert_eq!(report.original_length, 10);
}

#[test]
fn round_trip_various_configurations() {
    let configs: Vec<(Vec<u8>, usize, bool)> = vec![
        (vec![0u8, 0, 0, 0], 64, true),
        (vec![0xde, 0xad, 0xbe, 0xef], 64, false),
        (vec![0x7f], 45, true),
        (vec![1, 2, 3, 4, 5, 6, 7, 8], 52, true),
        (vec![0xff, 0xfe], 100, false),
    ];
    for (magic, offset, checksum) in configs {
        for len in [magic.len(), magic.len() + 1, 17, offset - 1, offset] {
            let data = sample(len);
            assert!(
                data.len() < magic.len() || &data[..magic.len()] != magic.as_slice(),
                "sample data must not start with the magic"
            );
            let out = obfuscate(&data, &magic, offset, checksum).unwrap();
            assert!(is_obfuscated(&out, &magic));
            let restored = deobfuscate(&out, &magic, offset).unwrap();
            assert_eq!(restored, data, "round trip failed for len {}", len);
        }
    }
}

#[test]
fn engine_equivalence_obfuscate() {
    let magic = vec![0xde, 0xad, 0xbe, 0xef];
    // Lengths straddling the offset and the bounded-buffer size.
    for len in [4usize, 10, 63, 64, 65, 112, 113, 200, 70_000, 200_000] {
        for checksum in [false, true] {
            let data = sample(len);
            let a = obfuscate(&data, &magic, 64, checksum);
            let b = obfuscate_streaming(&data, &magic, 64, checksum);
            assert_eq!(a, b, "engines disagree at len {}", len);
        }
    }
}

#[test]
fn engine_equivalence_deobfuscate() {
    let magic = vec![0x11u8, 0x22];
    for len in [2usize, 30, 46, 100, 70_000] {
        let data = sample(len);
        let out = obfuscate(&data, &magic, 64, true).unwrap();
        let a = deobfuscate(&out, &magic, 64);
        let b = deobfuscate_streaming(&out, &magic, 64);
        assert_eq!(a, b);
        // Both verify paths agree with both deobfuscation paths.
        let va = verify_file(&out, &magic, 64);
        let vb = verify_file_optimized(&out, &magic, 64, true);
        assert_eq!(va.is_ok(), a.is_ok());
        assert_eq!(va, vb);
    }
}

#[test]
fn already_obfuscated_is_rejected() {
    let magic = vec![0u8, 0, 0, 0];
    let data = sample(50);
    let out = obfuscate(&data, &magic, 64, false).unwrap();
    assert_eq!(
        obfuscate(&out, &magic, 64, false).unwrap_err(),
        ObfsError::AlreadyObfuscated
    );
    assert_eq!(
        obfuscate_streaming(&out, &magic, 64, false).unwrap_err(),
        ObfsError::AlreadyObfuscated
    );
    // A plain file that happens to start with the magic is also refused.
    let mut plain = sample(20);
    plain[0] = 0;
    plain[1] = 0;
    plain[2] = 0;
    plain[3] = 0;
    assert_eq!(
        obfuscate(&plain, &magic, 64, true).unwrap_err(),
        ObfsError::AlreadyObfuscated
    );
}

#[test]
fn checksum_sensitivity_bit_flips() {
    let magic = vec![0u8, 0, 0, 0];
    let data = vec![0x41u8; 10];
    let out = obfuscate(&data, &magic, 64, true).unwrap();

    // Flip every single bit of the relocated original magic (the
    // post-header region) and of a body byte: each flip must be caught.
    let mut positions: Vec<usize> = (108..112).collect();
    positions.push(5);
    for pos in positions {
        for bit in 0..8 {
            let mut corrupted = out.clone();
            corrupted[pos] ^= 1u8 << bit;
            assert_eq!(
                deobfuscate(&corrupted, &magic, 64).unwrap_err(),
                ObfsError::ChecksumMismatch,
                "flip at byte {} bit {} went unnoticed",
                pos,
                bit
            );
            assert_eq!(
                deobfuscate_streaming(&corrupted, &magic, 64).unwrap_err(),
                ObfsError::ChecksumMismatch
            );
        }
    }
}

#[test]
fn boundary_sizes() {
    // A file of exactly magic-length bytes survives the round trip.
    let magic = vec![9u8, 8, 7, 6];
    let data = vec![1u8, 2, 3, 4];
    let out = obfuscate(&data, &magic, 64, true).unwrap();
    assert_eq!(deobfuscate(&out, &magic, 64).unwrap(), data);

    // A zero-byte file is rejected.
    assert!(!check_min_size(0, false));
    assert!(check_min_size(0, true));
    assert_eq!(
        obfuscate(&[], &magic, 64, false).unwrap_err(),
        ObfsError::TruncatedOrCorrupt
    );
}

#[test]
fn threshold_scenario() {
    // An input just above a small streaming threshold: the streaming result
    // matches what the whole-buffer engine produces on the same bytes.
    let threshold: usize = 128;
    let data = sample(threshold + 1);
    let magic = vec![0xaau8, 0xbb];
    assert!(obfsx::config::use_streaming(data.len(), threshold));
    assert!(!obfsx::config::use_streaming(threshold - 1, threshold));

    let streamed = obfuscate_streaming(&data, &magic, 64, false).unwrap();
    let buffered = obfuscate(&data, &magic, 64, false).unwrap();
    assert_eq!(streamed, buffered);

    let a = deobfuscate(&streamed, &magic, 64).unwrap();
    let b = deobfuscate_streaming(&streamed, &magic, 64).unwrap();
    assert_eq!(a, b);
}

#[test]
fn not_obfuscated_is_reported() {
    let magic = vec![0u8, 0, 0, 0];
    let data = sample(200);
    assert_eq!(
        deobfuscate(&data, &magic, 64).unwrap_err(),
        ObfsError::NotObfuscated
    );
    assert_eq!(
        verify_file(&data, &magic, 64).unwrap_err(),
        ObfsError::NotObfuscated
    );
}

#[test]
fn header_too_small_is_reported() {
    let magic = vec![0u8, 0, 0, 0];
    // Starts with the magic but ends before the header window.
    let data = vec![0u8; 50];
    assert_eq!(
        deobfuscate(&data, &magic, 64).unwrap_err(),
        ObfsError::HeaderTooSmall
    );
    assert!(matches!(
        ObfuscationHeader::from_bytes(&[0u8; 43]),
        Err(ObfsError::HeaderTooSmall)
    ));
    assert!(matches!(
        extract_header(&data, 64),
        Err(ObfsError::HeaderTooSmall)
    ));
}

#[test]
fn bad_signature_is_reported() {
    let magic = vec![0u8, 0, 0, 0];
    // Starts with the magic, long enough, but no header signature.
    let data = vec![0u8; 150];
    assert_eq!(
        deobfuscate(&data, &magic, 64).unwrap_err(),
        ObfsError::BadSignature
    );
}

#[test]
fn unsupported_version_is_reported() {
    let magic = vec![0u8, 0, 0, 0];
    let data = sample(30);
    let mut out = obfuscate(&data, &magic, 64, false).unwrap();
    out[64 + 4] = 2;
    assert_eq!(
        deobfuscate(&out, &magic, 64).unwrap_err(),
        ObfsError::UnsupportedVersion
    );
}

#[test]
fn magic_length_mismatch_is_reported() {
    let long_magic = vec![0u8, 0, 0, 0];
    let short_magic = vec![0u8, 0, 0];
    let data = sample(30);
    let out = obfuscate(&data, &long_magic, 64, false).unwrap();
    // The file leads with three zero bytes too, but the header records four.
    assert_eq!(
        deobfuscate(&out, &short_magic, 64).unwrap_err(),
        ObfsError::MagicLengthMismatch
    );
}

#[test]
fn truncated_or_corrupt_is_reported() {
    let magic = vec![0u8, 0, 0, 0];
    let data = sample(30);
    let mut out = obfuscate(&data, &magic, 64, false).unwrap();
    // Claim an original length beyond the current file size.
    let huge = (out.len() as u32 + 1).to_le_bytes();
    out[64 + 8..64 + 12].copy_from_slice(&huge);
    assert_eq!(
        deobfuscate(&out, &magic, 64).unwrap_err(),
        ObfsError::TruncatedOrCorrupt
    );
}

#[test]
fn missing_stored_magic_is_truncation() {
    let magic = vec![0u8, 0, 0, 0];
    let data = vec![0x41u8; 10];
    let out = obfuscate(&data, &magic, 64, false).unwrap();
    // Cut the file right after the header: the relocated magic is missing.
    let cut = &out[..64 + HEADER_SIZE];
    assert_eq!(
        deobfuscate(cut, &magic, 64).unwrap_err(),
        ObfsError::TruncatedOrCorrupt
    );
}

#[test]
fn zero_recorded_length_truncates_to_empty() {
    let magic = vec![0u8, 0, 0, 0];
    let data = vec![0x41u8; 10];
    let mut out = obfuscate(&data, &magic, 64, false).unwrap();
    out[64 + 8..64 + 12].copy_from_slice(&0u32.to_le_bytes());
    assert_eq!(deobfuscate(&out, &magic, 64).unwrap(), Vec::<u8>::new());
}

#[test]
fn header_codec_roundtrip() {
    let digest: Vec<u8> = (0u8..32).collect();
    let header = ObfuscationHeader::new(0x01020304, 6, Some(digest.clone()));
    let bytes = header.to_bytes();
    assert_eq!(bytes.len(), HEADER_SIZE);
    assert_eq!(&bytes[0..4], b"OBFX");
    assert_eq!(bytes[4], 1);
    assert_eq!(bytes[5], 1);
    assert_eq!(bytes[6], 6);
    assert_eq!(bytes[7], 0);
    assert_eq!(&bytes[8..12], &[0x04, 0x03, 0x02, 0x01]);
    assert_eq!(&bytes[12..44], digest.as_slice());

    let parsed = ObfuscationHeader::from_bytes(&bytes).unwrap();
    assert_eq!(parsed.original_length, 0x01020304);
    assert_eq!(parsed.magic_len, 6);
    assert_eq!(parsed.reserved, 0);
    assert!(parsed.has_checksum());
    assert_eq!(parsed.checksum, digest);

    let bare = ObfuscationHeader::new(7, 1, None);
    assert!(!bare.has_checksum());
    assert_eq!(bare.checksum, vec![0u8; 32]);
}

#[test]
fn verify_reports_without_writing() {
    let magic = vec![3u8, 1, 4, 1];
    let data = sample(40);
    let out = obfuscate(&data, &magic, 64, true).unwrap();

    let report = verify_file(&out, &magic, 64).unwrap();
    assert_eq!(report.version, 1);
    assert_eq!(report.original_length, 40);
    assert_eq!(report.magic_len, 4);
    assert!(report.has_checksum);

    let streamed = verify_file_optimized(&out, &magic, 64, true).unwrap();
    assert_eq!(report, streamed);

    let mut corrupted = out.clone();
    corrupted[108] ^= 0x80;
    assert_eq!(
        verify_file(&corrupted, &magic, 64).unwrap_err(),
        ObfsError::ChecksumMismatch
    );
    assert_eq!(
        verify_file_optimized(&corrupted, &magic, 64, true).unwrap_err(),
        ObfsError::ChecksumMismatch
    );
}
