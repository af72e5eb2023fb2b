use vstd::prelude::*;

use crate::error::ZipError;
use crate::le::{le16_at, le32_at, read_u16, read_u32};

verus! {

/// The end-of-central-directory trailer: the fixed-size record at the end of
/// an archive that points at the central directory.
#[derive(Debug)]
pub struct EOCD {
    pub n_disk: u16,
    pub cd_start_disk: u16,
    pub cdr_disk: u16,
    pub sigma_cdr: u16,
    pub cd_size: u32,
    pub cd_offset: u32,
    pub comment_len: u16,
    pub comment: u8,
}

/// The byte offset of the 22-byte trailer record: exactly 22 bytes before the
/// end of the stream.
pub open spec fn eocd_pos(a: Seq<u8>) -> int {
    a.len() - 22
}

/// Whether the four trailer signature bytes 0x50 0x4b 0x05 0x06 are present.
pub open spec fn eocd_sig_ok(a: Seq<u8>) -> bool {
    let p = eocd_pos(a);
    a[p] == 0x50u8 && a[p + 1] == 0x4bu8 && a[p + 2] == 0x05u8 && a[p + 3] == 0x06u8
}

/// The trailer fields decoded from the last 22 bytes of the stream.
pub open spec fn spec_eocd(a: Seq<u8>) -> EOCD {
    let p = eocd_pos(a);
    EOCD {
        n_disk: le16_at(a, p + 4),
        cd_start_disk: le16_at(a, p + 6),
        cdr_disk: le16_at(a, p + 8),
        sigma_cdr: le16_at(a, p + 10),
        cd_size: le32_at(a, p + 12),
        cd_offset: le32_at(a, p + 16),
        comment_len: le16_at(a, p + 20),
        comment: 0,
    }
}

impl EOCD {
    /// Reads and validates the archive trailer from the last 22 bytes of the
    /// stream. A stream shorter than the trailer is truncated; a signature
    /// mismatch is a malformed archive. Trailing archive comments are not
    /// supported: the trailer is expected to end the stream.
    pub fn new(archive: &Vec<u8>) -> (r: Result<EOCD, ZipError>)
        ensures
            archive.len() < 22 ==> r == Err::<EOCD, ZipError>(ZipError::TruncatedArchive),
            archive.len() >= 22 && !eocd_sig_ok(archive@) ==> r == Err::<EOCD, ZipError>(
                ZipError::MalformedArchive,
            ),
            archive.len() >= 22 && eocd_sig_ok(archive@) ==> r == Ok::<EOCD, ZipError>(
                spec_eocd(archive@),
            ),
    {
        if archive.len() < 22 {
            return Err(ZipError::TruncatedArchive);
        }
        let p = archive.len() - 22;
        if !(archive[p] == 0x50 && archive[p + 1] == 0x4b && archive[p + 2] == 0x05 && archive[p
            + 3] == 0x06) {
            return Err(ZipError::MalformedArchive);
        }
        Ok(
            EOCD {
                n_disk: read_u16(archive, p + 4),
                cd_start_disk: read_u16(archive, p + 6),
                cdr_disk: read_u16(archive, p + 8),
                sigma_cdr: read_u16(archive, p + 10),
                cd_size: read_u32(archive, p + 12),
                cd_offset: read_u32(archive, p + 16),
                comment_len: read_u16(archive, p + 20),
                comment: 0,
            },
        )
    }
}

} // verus!
