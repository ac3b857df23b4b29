//! A reversible magic-byte obfuscation codec.
//!
//! The codec disguises a file's type by overwriting its leading magic bytes
//! with a caller-chosen value.  A fixed 44-byte header, embedded at a
//! configurable offset, records what the reversal needs: the format
//! version, the length of the original file, the relocated original magic
//! bytes, and an optional BLAKE3 integrity digest of the original content.
//! [`laws::lemma_round_trip`] proves the transform reversible byte for byte
//! for every input that ends at or before the header offset; an input that
//! extends into the header window loses the bytes the header overwrites,
//! which the integrity digest then reports.
//!
//! Two engines perform the same logical transform: a whole-buffer engine for
//! small inputs and a streaming engine that works through a bounded buffer.
//! Both are specified against the same mathematical model of the container
//! format, so their outputs are provably byte-identical.

pub mod checksum;
pub mod config;
pub mod engine;
pub mod errors;
pub mod header;
pub mod laws;
pub mod naming;
pub mod streaming;
