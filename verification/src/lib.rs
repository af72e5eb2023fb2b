//! Extraction of password-recovery fingerprints from legacy-encrypted ZIP
//! archives.
//!
//! The crate locates an archive's end-of-central-directory trailer, walks the
//! central directory, reads each entry's local file header and raw payload,
//! classifies entries that use the legacy (pre-AES) stream cipher, and renders
//! one delimited text record per qualifying entry for an offline
//! password-recovery tool.
//!
//! All parsing works on an in-memory byte buffer; opening files and printing
//! lines is left to the caller.

pub mod cd;
pub mod classify;
pub mod context;
pub mod eocd;
pub mod error;
pub mod hex;
pub mod laws;
pub mod le;
pub mod lfh;
pub mod serialize;
