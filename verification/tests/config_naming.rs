use obfsx::config::{
    check_min_size, decide_command, normalize_offset, parse_magic_bytes, should_use_checksum,
    use_streaming, Command, Config, MAX_AUTO_CHECKSUM_SIZE, TEMP_FILE_THRESHOLD,
};
use obfsx::errors::MagicParseError;
use obfsx::naming::{derive_output_name, derive_temp_name, overwrite_allowed, resolve_output_name};

#[test]
fn parse_magic_hex_forms() {
    assert_eq!(
        parse_magic_bytes(b"0xDEADBEEF").unwrap(),
        vec![0xde, 0xad, 0xbe, 0xef]
    );
    assert_eq!(
        parse_magic_bytes(b"\\xDE\\xAD\\xBE\\xEF").unwrap(),
        vec![0xde, 0xad, 0xbe, 0xef]
    );
    assert_eq!(parse_magic_bytes(b"0xaAbB").unwrap(), vec![0xaa, 0xbb]);
    assert_eq!(parse_magic_bytes(b"0x00").unwrap(), vec![0x00]);
}

#[test]
fn parse_magic_raw_forms() {
    assert_eq!(parse_magic_bytes(b"PNG!").unwrap(), b"PNG!".to_vec());
    assert_eq!(parse_magic_bytes(b"a").unwrap(), vec![b'a']);
    assert_eq!(parse_magic_bytes(b"12345678").unwrap(), b"12345678".to_vec());
}

#[test]
fn parse_magic_rejections() {
    assert_eq!(parse_magic_bytes(b"").unwrap_err(), MagicParseError::Empty);
    assert_eq!(parse_magic_bytes(b"0x").unwrap_err(), MagicParseError::Empty);
    assert_eq!(
        parse_magic_bytes(b"0xABC").unwrap_err(),
        MagicParseError::OddHexLength
    );
    assert_eq!(
        parse_magic_bytes(b"0xGG").unwrap_err(),
        MagicParseError::InvalidHexDigit
    );
    assert_eq!(
        parse_magic_bytes(b"123456789").unwrap_err(),
        MagicParseError::TooLong
    );
    assert_eq!(
        parse_magic_bytes(b"0x001122334455667788").unwrap_err(),
        MagicParseError::TooLong
    );
}

#[test]
fn offset_correction() {
    // Requesting less than header-size + magic-length yields exactly that sum.
    assert_eq!(normalize_offset(10, 4), 48);
    assert_eq!(normalize_offset(3, 8), 52);
    assert_eq!(normalize_offset(47, 4), 48);
    // A sufficient offset is kept as requested.
    assert_eq!(normalize_offset(48, 4), 48);
    assert_eq!(normalize_offset(64, 4), 64);
    assert_eq!(normalize_offset(1000, 1), 1000);
}

#[test]
fn checksum_policy_resolution() {
    let big = MAX_AUTO_CHECKSUM_SIZE + 1;
    let forced_on = should_use_checksum(Some(true), big);
    assert!(forced_on.enabled && !forced_on.warn);
    let forced_off = should_use_checksum(Some(false), 10);
    assert!(!forced_off.enabled && !forced_off.warn);
    let auto_small = should_use_checksum(None, MAX_AUTO_CHECKSUM_SIZE);
    assert!(auto_small.enabled && !auto_small.warn);
    let auto_big = should_use_checksum(None, big);
    assert!(!auto_big.enabled && auto_big.warn);
}

#[test]
fn engine_selection() {
    assert!(!use_streaming(0, TEMP_FILE_THRESHOLD));
    assert!(!use_streaming(TEMP_FILE_THRESHOLD - 1, TEMP_FILE_THRESHOLD));
    assert!(use_streaming(TEMP_FILE_THRESHOLD, TEMP_FILE_THRESHOLD));
    assert!(use_streaming(TEMP_FILE_THRESHOLD + 1, TEMP_FILE_THRESHOLD));
}

#[test]
fn command_selection() {
    assert_eq!(
        decide_command(Some(Command::Obfuscate), true, true),
        Command::Obfuscate
    );
    assert_eq!(decide_command(None, false, false), Command::Obfuscate);
    assert_eq!(decide_command(None, true, false), Command::Deobfuscate);
    assert_eq!(decide_command(None, true, true), Command::Verify);
    assert_eq!(decide_command(None, false, true), Command::Obfuscate);
}

#[test]
fn minimum_size_gate() {
    assert!(!check_min_size(0, false));
    assert!(!check_min_size(2, false));
    assert!(check_min_size(3, false));
    assert!(check_min_size(0, true));
}

#[test]
fn default_configuration() {
    let c = Config::default();
    assert_eq!(c.command, None);
    assert!(!c.force && !c.inplace && !c.quiet && !c.verbose && !c.verify_only);
    assert_eq!(c.magic, vec![0u8, 0, 0, 0]);
    assert_eq!(c.offset, 64);
    assert_eq!(c.checksum, None);
    assert_eq!(c.threshold, TEMP_FILE_THRESHOLD);
}

#[test]
fn output_name_derivation() {
    assert_eq!(
        derive_output_name(b"photo.png", Command::Obfuscate),
        b"photo.png.obfsx".to_vec()
    );
    assert_eq!(
        derive_output_name(b"photo.png.obfsx", Command::Deobfuscate),
        b"photo.png".to_vec()
    );
    assert_eq!(
        derive_output_name(b"data.bin", Command::Deobfuscate),
        b"data.bin_deobfuscated".to_vec()
    );
    assert_eq!(
        derive_output_name(b"", Command::Obfuscate),
        b".obfsx".to_vec()
    );
}

#[test]
fn output_name_resolution() {
    assert_eq!(
        resolve_output_name(b"in.dat", None, true, Command::Obfuscate),
        b"in.dat".to_vec()
    );
    assert_eq!(
        resolve_output_name(b"in.dat", Some(b"explicit.out".to_vec()), false, Command::Obfuscate),
        b"explicit.out".to_vec()
    );
    assert_eq!(
        resolve_output_name(b"in.dat", None, false, Command::Obfuscate),
        b"in.dat.obfsx".to_vec()
    );
    assert_eq!(derive_temp_name(b"out.bin"), b"out.bin.tmp".to_vec());
}

#[test]
fn overwrite_protection() {
    assert!(overwrite_allowed(false, false, false));
    assert!(!overwrite_allowed(true, false, false));
    assert!(overwrite_allowed(true, true, false));
    assert!(overwrite_allowed(true, false, true));
}
