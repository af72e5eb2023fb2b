use vstd::prelude::*;

use crate::cd::{CD, CDView};
use crate::error::ZipError;
use crate::le::{copy_range, le16_at, le32_at, read_u16, read_u32};

verus! {

/// One local file header together with the entry's raw (still encrypted)
/// payload bytes.
#[derive(Debug)]
pub struct LFH {
    pub ver_needed: u16,
    pub gp_flag: u16,
    pub comp_method: u16,
    pub file_mod_time: u16,
    pub file_mod_date: u16,
    pub file_crc32: u32,
    pub comp_size: u32,
    pub uncomp_size: u32,
    pub fname_len: usize,
    pub ef_len: usize,
    pub file_name: Vec<u8>,
    pub magic_type: u16,
    pub offex: u32,
    pub ef: Vec<u8>,
    pub hash: Vec<u8>,
}

/// The mathematical model of a local file header.
#[verifier::ext_equal]
pub ghost struct LFHView {
    pub ver_needed: u16,
    pub gp_flag: u16,
    pub comp_method: u16,
    pub file_mod_time: u16,
    pub file_mod_date: u16,
    pub file_crc32: u32,
    pub comp_size: u32,
    pub uncomp_size: u32,
    pub fname_len: usize,
    pub ef_len: usize,
    pub file_name: Seq<u8>,
    pub magic_type: u16,
    pub offex: u32,
    pub ef: Seq<u8>,
    pub hash: Seq<u8>,
}

impl View for LFH {
    type V = LFHView;

    open spec fn view(&self) -> LFHView {
        LFHView {
            ver_needed: self.ver_needed,
            gp_flag: self.gp_flag,
            comp_method: self.comp_method,
            file_mod_time: self.file_mod_time,
            file_mod_date: self.file_mod_date,
            file_crc32: self.file_crc32,
            comp_size: self.comp_size,
            uncomp_size: self.uncomp_size,
            fname_len: self.fname_len,
            ef_len: self.ef_len,
            file_name: self.file_name@,
            magic_type: self.magic_type,
            offex: self.offex,
            ef: self.ef@,
            hash: self.hash@,
        }
    }
}

/// Whether the local-header signature bytes 0x50 0x4b 0x03 0x04 stand at
/// offset `off`.
pub open spec fn lfh_sig_ok(a: Seq<u8>, off: int) -> bool {
    a[off] == 0x50u8 && a[off + 1] == 0x4bu8 && a[off + 2] == 0x03u8 && a[off + 3] == 0x04u8
}

/// The local header decoded at the directory entry's back-reference offset.
/// The payload length is the directory's compressed size, which is
/// authoritative; the local header's own sizes may be zero when streamed.
pub open spec fn spec_lfh(a: Seq<u8>, cd: CDView) -> Result<LFHView, ZipError> {
    let off = cd.rel_lfh_offset as int;
    if off + 30 > a.len() {
        Err(ZipError::TruncatedArchive)
    } else if !lfh_sig_ok(a, off) {
        Err(ZipError::MalformedArchive)
    } else {
        let n = le16_at(a, off + 26) as int;
        let m = le16_at(a, off + 28) as int;
        if off + 30 + n + m + cd.comp_size > a.len() {
            Err(ZipError::TruncatedArchive)
        } else {
            Ok(
                LFHView {
                    ver_needed: le16_at(a, off + 4),
                    gp_flag: le16_at(a, off + 6),
                    comp_method: le16_at(a, off + 8),
                    file_mod_time: le16_at(a, off + 10),
                    file_mod_date: le16_at(a, off + 12),
                    file_crc32: le32_at(a, off + 14),
                    comp_size: le32_at(a, off + 18),
                    uncomp_size: le32_at(a, off + 22),
                    fname_len: n as usize,
                    ef_len: m as usize,
                    file_name: a.subrange(off + 30, off + 30 + n),
                    magic_type: 0,
                    offex: (30 + n + m) as u32,
                    ef: a.subrange(off + 30 + n, off + 30 + n + m),
                    hash: a.subrange(off + 30 + n + m, off + 30 + n + m + cd.comp_size),
                },
            )
        }
    }
}

impl LFH {
    /// Reads the local header that `cd` points at: the fixed 30-byte header,
    /// the filename and extra-field block, and exactly `cd.comp_size` payload
    /// bytes. The stream ending before all declared bytes are read is a
    /// truncated archive; a signature mismatch is a malformed archive.
    pub fn new(cd: &CD, archive: &Vec<u8>) -> (r: Result<LFH, ZipError>)
        ensures
            match r {
                Ok(l) => spec_lfh(archive@, cd@) matches Ok(lv) && l@ == lv,
                Err(e) => spec_lfh(archive@, cd@) matches Err(ev) && e == ev,
            },
    {
        let off: usize = cd.rel_lfh_offset as usize;
        if archive.len() < off || archive.len() - off < 30 {
            return Err(ZipError::TruncatedArchive);
        }
        if !(archive[off] == 0x50 && archive[off + 1] == 0x4b && archive[off + 2] == 0x03
            && archive[off + 3] == 0x04) {
            return Err(ZipError::MalformedArchive);
        }
        let n: usize = read_u16(archive, off + 26) as usize;
        let m: usize = read_u16(archive, off + 28) as usize;
        let rest: usize = archive.len() - off - 30;
        if n + m > rest || cd.comp_size as usize > rest - n - m {
            return Err(ZipError::TruncatedArchive);
        }
        let lfh = LFH {
            ver_needed: read_u16(archive, off + 4),
            gp_flag: read_u16(archive, off + 6),
            comp_method: read_u16(archive, off + 8),
            file_mod_time: read_u16(archive, off + 10),
            file_mod_date: read_u16(archive, off + 12),
            file_crc32: read_u32(archive, off + 14),
            comp_size: read_u32(archive, off + 18),
            uncomp_size: read_u32(archive, off + 22),
            fname_len: n,
            ef_len: m,
            file_name: copy_range(archive, off + 30, off + 30 + n),
            magic_type: 0,
            offex: 30 + n as u32 + m as u32,
            ef: copy_range(archive, off + 30 + n, off + 30 + n + m),
            hash: copy_range(
                archive,
                off + 30 + n + m,
                off + 30 + n + m + cd.comp_size as usize,
            ),
        };
        proof {
            assert(spec_lfh(archive@, cd@) matches Ok(lv) && lfh@ =~= lv);
        }
        Ok(lfh)
    }
}

} // verus!
