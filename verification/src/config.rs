//! Configuration: the tunables every core operation receives explicitly,
//! and the pure decisions the command-line layer delegates to the library.

use vstd::prelude::*;
use vstd::slice::slice_index_get;

use crate::engine::spec_valid_params;
use crate::errors::MagicParseError;
use crate::header::HEADER_SIZE;

verus! {

/// Offset at which the header is stored when none is requested.
pub const DEFAULT_OFFSET: usize = 64;

/// Smallest offset a caller may request on the command line.
pub const MIN_OFFSET: usize = 3;

/// Files smaller than this are rejected unless forced.
pub const MIN_FILE_SIZE: usize = 3;

/// Longest magic-byte sequence the header can record.
pub const MAX_MAGIC_SIZE: usize = 8;

/// Above this size checksums are no longer enabled automatically.
pub const MAX_AUTO_CHECKSUM_SIZE: usize = 100 * 1024 * 1024;

/// At and above this size the streaming engine is used.
pub const TEMP_FILE_THRESHOLD: usize = 100 * 1024 * 1024;

/// The three operations a caller can select.
#[derive(Clone, Copy, Debug, PartialEq, Eq, Structural)]
pub enum Command {
    Obfuscate,
    Deobfuscate,
    Verify,
}

/// All tunables of one invocation, passed explicitly into every core
/// operation; file paths stay with the command-line layer.
#[derive(Debug, Clone)]
pub struct Config {
    /// The operation, or `None` to auto-detect from the file's leading bytes.
    pub command: Option<Command>,
    /// Overwrite existing outputs and bypass the minimum-size check.
    pub force: bool,
    /// Rename the result over the input file itself.
    pub inplace: bool,
    /// The obfuscation magic written over the file's leading bytes.
    pub magic: Vec<u8>,
    /// Where the header is stored.
    pub offset: usize,
    /// Suppress reporting.
    pub quiet: bool,
    /// Verbose reporting.
    pub verbose: bool,
    /// Checksum policy: `None` auto-detects by size, `Some` forces.
    pub checksum: Option<bool>,
    /// Only verify, never write output.
    pub verify_only: bool,
    /// File size at which the streaming engine takes over.
    pub threshold: usize,
}

impl Config {
    /// The invariant the engines rely on.
    pub open spec fn wf(&self) -> bool {
        spec_valid_params(self.magic@, self.offset as int)
    }
}

impl Default for Config {
    /// Auto-detected command, default magic `00 00 00 00` at offset 64,
    /// size-dependent checksum policy, nothing forced.
    fn default() -> (c: Self)
        ensures
            c.wf(),
            c.command is None,
            c.force == false,
            c.inplace == false,
            c.magic@ == seq![0u8, 0u8, 0u8, 0u8],
            c.offset == DEFAULT_OFFSET,
            c.quiet == false,
            c.verbose == false,
            c.checksum is None,
            c.verify_only == false,
            c.threshold == TEMP_FILE_THRESHOLD,
    {
        let mut magic: Vec<u8> = Vec::new();
        magic.push(0);
        magic.push(0);
        magic.push(0);
        magic.push(0);
        proof {
            assert(magic@ =~= seq![0u8, 0u8, 0u8, 0u8]);
        }
        Config {
            command: None,
            force: false,
            inplace: false,
            magic,
            offset: DEFAULT_OFFSET,
            quiet: false,
            verbose: false,
            checksum: None,
            verify_only: false,
            threshold: TEMP_FILE_THRESHOLD,
        }
    }
}

/// Corrects a requested offset upward so header and magic always fit:
/// anything below header-size + magic-length becomes exactly that sum,
/// never a truncated layout.  A changed result is the caller's cue to warn.
pub fn normalize_offset(offset: usize, magic_len: usize) -> (r: usize)
    requires
        magic_len <= MAX_MAGIC_SIZE,
    ensures
        offset < HEADER_SIZE + magic_len ==> r == HEADER_SIZE + magic_len,
        offset >= HEADER_SIZE + magic_len ==> r == offset,
        r >= HEADER_SIZE + magic_len,
{
    if offset < HEADER_SIZE + magic_len {
        HEADER_SIZE + magic_len
    } else {
        offset
    }
}

/// The outcome of checksum-policy resolution: whether to checksum, and
/// whether skipping it deserves a warning.
#[derive(Clone, Copy, Debug, PartialEq, Eq, Structural)]
pub struct ChecksumDecision {
    pub enabled: bool,
    pub warn: bool,
}

/// Resolves the checksum policy: an explicit choice always wins; otherwise
/// checksums are enabled automatically unless the file exceeds the
/// auto-checksum ceiling, in which case they are skipped with a warning.
pub fn should_use_checksum(checksum: Option<bool>, file_size: usize) -> (r: ChecksumDecision)
    ensures
        checksum matches Some(f) ==> r.enabled == f && r.warn == false,
        checksum is None ==> r.enabled == (file_size <= MAX_AUTO_CHECKSUM_SIZE) && r.warn == (
        file_size > MAX_AUTO_CHECKSUM_SIZE),
{
    match checksum {
        Some(force) => ChecksumDecision { enabled: force, warn: false },
        None => {
            if file_size > MAX_AUTO_CHECKSUM_SIZE {
                ChecksumDecision { enabled: false, warn: true }
            } else {
                ChecksumDecision { enabled: true, warn: false }
            }
        },
    }
}

/// Engine selection: the streaming engine serves files at and above the
/// threshold, the whole-buffer engine everything below it.
pub fn use_streaming(file_size: usize, threshold: usize) -> (r: bool)
    ensures
        r == (file_size >= threshold),
{
    file_size >= threshold
}

/// Whether a file of this size may be processed at all: undersized files
/// are rejected unless the caller forces them through.
pub fn check_min_size(file_size: usize, force: bool) -> (ok: bool)
    ensures
        ok == (file_size >= MIN_FILE_SIZE || force),
{
    file_size >= MIN_FILE_SIZE || force
}

/// Picks the operation when the caller named none: an already-obfuscated
/// file is deobfuscated (or verified in verify-only mode), anything else is
/// obfuscated.
pub fn decide_command(explicit: Option<Command>, already_obfuscated: bool, verify_only: bool) -> (c:
    Command)
    ensures
        c == match explicit {
            Some(cmd) => cmd,
            None => if already_obfuscated {
                if verify_only {
                    Command::Verify
                } else {
                    Command::Deobfuscate
                }
            } else {
                Command::Obfuscate
            },
        },
{
    match explicit {
        Some(cmd) => cmd,
        None => {
            if already_obfuscated {
                if verify_only {
                    Command::Verify
                } else {
                    Command::Deobfuscate
                }
            } else {
                Command::Obfuscate
            }
        },
    }
}

/// One left-to-right pass removing every non-overlapping occurrence of the
/// two-byte marker `p0 p1`.
pub open spec fn spec_remove_marker(s: Seq<u8>, p0: u8, p1: u8) -> Seq<u8>
    decreases s.len(),
{
    if s.len() >= 2 && s[0] == p0 && s[1] == p1 {
        spec_remove_marker(s.subrange(2, s.len() as int), p0, p1)
    } else if s.len() >= 1 {
        seq![s[0]] + spec_remove_marker(s.subrange(1, s.len() as int), p0, p1)
    } else {
        Seq::<u8>::empty()
    }
}

/// The value of one hex digit, upper or lower case, or `None`.
pub open spec fn spec_hex_val(c: u8) -> Option<u8> {
    if 0x30 <= c <= 0x39 {
        Some((c - 0x30) as u8)
    } else if 0x61 <= c <= 0x66 {
        Some((c - 0x61 + 10) as u8)
    } else if 0x41 <= c <= 0x46 {
        Some((c - 0x41 + 10) as u8)
    } else {
        None
    }
}

/// Decodes an even-length run of hex digits into bytes, two digits each;
/// `None` as soon as any character is no hex digit.
pub open spec fn spec_hex_decode(s: Seq<u8>) -> Option<Seq<u8>>
    decreases s.len(),
{
    if s.len() < 2 {
        if s.len() == 0 {
            Some(Seq::<u8>::empty())
        } else {
            None
        }
    } else {
        match (spec_hex_val(s[0]), spec_hex_val(s[1])) {
            (Some(hi), Some(lo)) => match spec_hex_decode(s.subrange(2, s.len() as int)) {
                Some(rest) => Some(seq![(hi * 16 + lo) as u8] + rest),
                None => None,
            },
            _ => None,
        }
    }
}

/// Whether the argument announces hex format with a leading `0x` or `\x`.
pub open spec fn spec_is_hex_marked(s: Seq<u8>) -> bool {
    s.len() >= 2 && ((s[0] == 0x30 && s[1] == 0x78) || (s[0] == 0x5c && s[1] == 0x78))
}

/// The complete outcome of magic-byte parsing.  A hex-marked argument has
/// its `0x` and `\x` markers stripped (each in one pass, in that order) and
/// the remaining digits decoded pairwise; anything else is taken as raw
/// bytes.  The result must be 1 to [`MAX_MAGIC_SIZE`] bytes.
pub open spec fn spec_parse_magic(s: Seq<u8>) -> Result<Seq<u8>, MagicParseError> {
    if s.len() == 0 {
        Err(MagicParseError::Empty)
    } else if spec_is_hex_marked(s) {
        let digits = spec_remove_marker(spec_remove_marker(s, 0x30, 0x78), 0x5c, 0x78);
        if digits.len() % 2 != 0 {
            Err(MagicParseError::OddHexLength)
        } else {
            match spec_hex_decode(digits) {
                None => Err(MagicParseError::InvalidHexDigit),
                Some(b) => {
                    if b.len() > MAX_MAGIC_SIZE {
                        Err(MagicParseError::TooLong)
                    } else if b.len() == 0 {
                        Err(MagicParseError::Empty)
                    } else {
                        Ok(b)
                    }
                },
            }
        }
    } else {
        if s.len() > MAX_MAGIC_SIZE {
            Err(MagicParseError::TooLong)
        } else {
            Ok(s)
        }
    }
}

/// One pass of marker removal, executed left to right.
#[verifier::loop_isolation(false)]
fn remove_marker(s: &[u8], p0: u8, p1: u8) -> (r: Vec<u8>)
    ensures
        r@ == spec_remove_marker(s@, p0, p1),
{
    let mut out: Vec<u8> = Vec::new();
    let mut i: usize = 0;
    proof {
        assert(s@.subrange(0, s@.len() as int) =~= s@);
    }
    while i < s.len()
        invariant
            i <= s@.len(),
            spec_remove_marker(s@, p0, p1) == out@ + spec_remove_marker(
                s@.subrange(i as int, s@.len() as int),
                p0,
                p1,
            ),
        decreases s@.len() - i,
    {
        let ghost suffix = s@.subrange(i as int, s@.len() as int);
        if i + 1 < s.len() && *slice_index_get(s, i) == p0 && *slice_index_get(s, i + 1) == p1 {
            proof {
                assert(suffix.subrange(2, suffix.len() as int) =~= s@.subrange(i + 2,
                    s@.len() as int));
            }
            i = i + 2;
        } else {
            let b: u8 = *slice_index_get(s, i);
            out.push(b);
            proof {
                if suffix.len() >= 2 {
                    assert(!(suffix[0] == p0 && suffix[1] == p1));
                }
                assert(suffix.subrange(1, suffix.len() as int) =~= s@.subrange(i + 1,
                    s@.len() as int));
                assert(out@ + spec_remove_marker(s@.subrange(i + 1, s@.len() as int), p0, p1)
                    =~= (out@.drop_last() + (seq![b] + spec_remove_marker(
                    s@.subrange(i + 1, s@.len() as int),
                    p0,
                    p1,
                ))));
            }
            i = i + 1;
        }
    }
    proof {
        assert(s@.subrange(s@.len() as int, s@.len() as int) =~= Seq::<u8>::empty());
        assert(out@ + Seq::<u8>::empty() =~= out@);
    }
    out
}

/// The value of one hex digit, or `None`.
fn hex_val(c: u8) -> (r: Option<u8>)
    ensures
        r == spec_hex_val(c),
{
    if 0x30 <= c && c <= 0x39 {
        Some(c - 0x30)
    } else if 0x61 <= c && c <= 0x66 {
        Some(c - 0x61 + 10)
    } else if 0x41 <= c && c <= 0x46 {
        Some(c - 0x41 + 10)
    } else {
        None
    }
}

/// Parses a magic-byte argument, as raw bytes or in hex form, failing
/// exactly as [`spec_parse_magic`] says; a successful result always has a
/// length the engines accept.
#[verifier::loop_isolation(false)]
pub fn parse_magic_bytes(s: &[u8]) -> (r: Result<Vec<u8>, MagicParseError>)
    ensures
        match r {
            Ok(v) => spec_parse_magic(s@) == Ok::<Seq<u8>, MagicParseError>(v@),
            Err(e) => spec_parse_magic(s@) == Err::<Seq<u8>, MagicParseError>(e),
        },
        r matches Ok(v) ==> 1 <= v@.len() <= MAX_MAGIC_SIZE,
{
    if s.len() == 0 {
        return Err(MagicParseError::Empty);
    }
    let hex_marked: bool = s.len() >= 2 && ((*slice_index_get(s, 0) == 0x30 && *slice_index_get(
        s,
        1,
    ) == 0x78) || (*slice_index_get(s, 0) == 0x5c && *slice_index_get(s, 1) == 0x78));
    if hex_marked {
        let stripped = remove_marker(s, 0x30, 0x78);
        let digits = remove_marker(stripped.as_slice(), 0x5c, 0x78);
        if digits.len() % 2 != 0 {
            return Err(MagicParseError::OddHexLength);
        }
        let ghost dseq = digits@;
        let mut out: Vec<u8> = Vec::new();
        let mut i: usize = 0;
        proof {
            assert(dseq.subrange(0, dseq.len() as int) =~= dseq);
        }
        while i < digits.len()
            invariant
                i <= dseq.len(),
                i % 2 == 0,
                dseq.len() % 2 == 0,
                digits@ == dseq,
                spec_hex_decode(dseq) == match spec_hex_decode(
                    dseq.subrange(i as int, dseq.len() as int),
                ) {
                    Some(rest) => Some(out@ + rest),
                    None => None::<Seq<u8>>,
                },
            decreases dseq.len() - i,
        {
            let ghost suffix = dseq.subrange(i as int, dseq.len() as int);
            let hi = match hex_val(*slice_index_get(digits.as_slice(), i)) {
                Some(v) => v,
                None => {
                    return Err(MagicParseError::InvalidHexDigit);
                },
            };
            let lo = match hex_val(*slice_index_get(digits.as_slice(), i + 1)) {
                Some(v) => v,
                None => {
                    return Err(MagicParseError::InvalidHexDigit);
                },
            };
            let b: u8 = hi * 16 + lo;
            out.push(b);
            proof {
                assert(suffix.subrange(2, suffix.len() as int) =~= dseq.subrange(i + 2,
                    dseq.len() as int));
                let tail = spec_hex_decode(dseq.subrange(i + 2, dseq.len() as int));
                if tail is Some {
                    let rest = tail->Some_0;
                    assert(out@ + rest =~= out@.drop_last() + (seq![b] + rest));
                }
            }
            i = i + 2;
        }
        proof {
            assert(dseq.subrange(dseq.len() as int, dseq.len() as int) =~= Seq::<u8>::empty());
            assert(out@ + Seq::<u8>::empty() =~= out@);
        }
        if out.len() > MAX_MAGIC_SIZE {
            return Err(MagicParseError::TooLong);
        }
        if out.len() == 0 {
            return Err(MagicParseError::Empty);
        }
        Ok(out)
    } else {
        if s.len() > MAX_MAGIC_SIZE {
            return Err(MagicParseError::TooLong);
        }
        let v = vstd::slice::slice_to_vec(s);
        Ok(v)
    }
}

} // verus!
