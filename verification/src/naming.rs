//! Commit-layer decisions: how the final output name is chosen and when an
//! existing destination may be overwritten.
//!
//! Names are handled as byte strings; the command-line layer converts from
//! and to platform paths at the edge.  The writes themselves — temporary
//! sibling, atomic rename, rollback — are I/O and stay with that layer.

use vstd::prelude::*;
use vstd::slice::{slice_subrange, slice_to_vec};

use crate::config::Command;
use crate::engine::bytes_eq;

verus! {

/// The extension `.obfsx` appended to obfuscated outputs.
pub open spec fn spec_obfsx_suffix() -> Seq<u8> {
    seq![0x2eu8, 0x6fu8, 0x62u8, 0x66u8, 0x73u8, 0x78u8]
}

/// The marker `_deobfuscated` appended when no extension can be stripped.
pub open spec fn spec_deobf_marker() -> Seq<u8> {
    seq![
        0x5fu8, 0x64u8, 0x65u8, 0x6fu8, 0x62u8, 0x66u8, 0x75u8, 0x73u8, 0x63u8, 0x61u8, 0x74u8,
        0x65u8, 0x64u8,
    ]
}

/// The suffix `.tmp` of the temporary sibling the commit layer writes
/// before the atomic rename.
pub open spec fn spec_tmp_suffix() -> Seq<u8> {
    seq![0x2eu8, 0x74u8, 0x6du8, 0x70u8]
}

/// Whether `s` ends with `suffix`.
pub open spec fn spec_ends_with(s: Seq<u8>, suffix: Seq<u8>) -> bool {
    s.len() >= suffix.len() && s.subrange(s.len() - suffix.len(), s.len() as int) == suffix
}

/// The derived output name: obfuscation appends the obfuscated extension;
/// deobfuscation strips it when present and otherwise marks the name as
/// deobfuscated.
pub open spec fn spec_derive_output_name(name: Seq<u8>, cmd: Command) -> Seq<u8> {
    if cmd == Command::Obfuscate {
        name + spec_obfsx_suffix()
    } else {
        if spec_ends_with(name, spec_obfsx_suffix()) {
            name.subrange(0, name.len() - spec_obfsx_suffix().len())
        } else {
            name + spec_deobf_marker()
        }
    }
}

/// Pushes the obfuscated-extension bytes onto a name.
fn push_obfsx_suffix(out: &mut Vec<u8>)
    ensures
        final(out)@ == old(out)@ + spec_obfsx_suffix(),
{
    out.push(0x2e);
    out.push(0x6f);
    out.push(0x62);
    out.push(0x66);
    out.push(0x73);
    out.push(0x78);
    proof {
        assert(final(out)@ =~= old(out)@ + spec_obfsx_suffix());
    }
}

/// Derives the output file name from the input file name for a transform
/// command (verify writes nothing and derives no name).
pub fn derive_output_name(name: &[u8], cmd: Command) -> (r: Vec<u8>)
    requires
        cmd != Command::Verify,
    ensures
        r@ == spec_derive_output_name(name@, cmd),
{
    match cmd {
        Command::Obfuscate => {
            let mut out = slice_to_vec(name);
            push_obfsx_suffix(&mut out);
            out
        },
        _ => {
            let suffix_len: usize = 6;
            if name.len() >= suffix_len {
                let tail = slice_subrange(name, name.len() - suffix_len, name.len());
                let mut suffix: Vec<u8> = Vec::new();
                push_obfsx_suffix(&mut suffix);
                proof {
                    assert(suffix@ =~= spec_obfsx_suffix());
                }
                if bytes_eq(tail, suffix.as_slice()) {
                    return slice_to_vec(slice_subrange(name, 0, name.len() - suffix_len));
                }
            }
            let mut out = slice_to_vec(name);
            out.push(0x5f);
            out.push(0x64);
            out.push(0x65);
            out.push(0x6f);
            out.push(0x62);
            out.push(0x66);
            out.push(0x75);
            out.push(0x73);
            out.push(0x63);
            out.push(0x61);
            out.push(0x74);
            out.push(0x65);
            out.push(0x64);
            proof {
                assert(out@ =~= name@ + spec_deobf_marker());
            }
            out
        },
    }
}

/// The final output name of one invocation: the input itself in in-place
/// mode, an explicitly requested name otherwise, and the derived name when
/// neither was given.
pub fn resolve_output_name(
    input_name: &[u8],
    explicit: Option<Vec<u8>>,
    inplace: bool,
    cmd: Command,
) -> (r: Vec<u8>)
    requires
        cmd != Command::Verify,
    ensures
        inplace ==> r@ == input_name@,
        !inplace ==> r@ == match explicit {
            Some(e) => e@,
            None => spec_derive_output_name(input_name@, cmd),
        },
{
    if inplace {
        return slice_to_vec(input_name);
    }
    match explicit {
        Some(e) => e,
        None => derive_output_name(input_name, cmd),
    }
}

/// The name of the temporary sibling written before the atomic rename.
pub fn derive_temp_name(output_name: &[u8]) -> (r: Vec<u8>)
    ensures
        r@ == output_name@ + spec_tmp_suffix(),
{
    let mut out = slice_to_vec(output_name);
    out.push(0x2e);
    out.push(0x74);
    out.push(0x6d);
    out.push(0x70);
    proof {
        assert(out@ =~= output_name@ + spec_tmp_suffix());
    }
    out
}

/// Overwrite protection: an existing destination is only replaced when the
/// caller forced it or asked for an in-place transform.
pub fn overwrite_allowed(destination_exists: bool, force: bool, inplace: bool) -> (r: bool)
    ensures
        r == (force || inplace || !destination_exists),
{
    force || inplace || !destination_exists
}

} // verus!
