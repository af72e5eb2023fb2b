use vstd::prelude::*;

use crate::error::ZipError;
use crate::le::{copy_range, le16_at, le32_at, read_u16, read_u32};

verus! {

/// One central-directory entry: per-file metadata mirrored from the
/// directory, with a back-reference offset to the file's local header.
#[derive(Debug)]
pub struct CD {
    pub ver_by: u16,
    pub ver_needed: u16,
    pub gp_flag: u16,
    pub comp_method: u16,
    pub file_crc32: u32,
    pub comp_size: u32,
    pub uncomp_size: u32,
    pub fname_len: u16,
    pub ef_len: u16,
    pub comment_len: u16,
    pub rel_lfh_offset: u32,
    pub fname_offset: usize,
    pub ef: Vec<u8>,
}

/// The mathematical model of a directory entry.
#[verifier::ext_equal]
pub ghost struct CDView {
    pub ver_by: u16,
    pub ver_needed: u16,
    pub gp_flag: u16,
    pub comp_method: u16,
    pub file_crc32: u32,
    pub comp_size: u32,
    pub uncomp_size: u32,
    pub fname_len: u16,
    pub ef_len: u16,
    pub comment_len: u16,
    pub rel_lfh_offset: u32,
    pub fname_offset: usize,
    pub ef: Seq<u8>,
}

impl View for CD {
    type V = CDView;

    open spec fn view(&self) -> CDView {
        CDView {
            ver_by: self.ver_by,
            ver_needed: self.ver_needed,
            gp_flag: self.gp_flag,
            comp_method: self.comp_method,
            file_crc32: self.file_crc32,
            comp_size: self.comp_size,
            uncomp_size: self.uncomp_size,
            fname_len: self.fname_len,
            ef_len: self.ef_len,
            comment_len: self.comment_len,
            rel_lfh_offset: self.rel_lfh_offset,
            fname_offset: self.fname_offset,
            ef: self.ef@,
        }
    }
}

/// Whether the directory-record signature bytes 0x50 0x4b 0x01 0x02 stand at
/// offset `off`.
pub open spec fn cd_sig_ok(a: Seq<u8>, off: int) -> bool {
    a[off] == 0x50u8 && a[off + 1] == 0x4bu8 && a[off + 2] == 0x01u8 && a[off + 3] == 0x02u8
}

/// The total byte length of the record at `off`: 46 fixed bytes plus the
/// declared filename, extra-field and comment lengths.
pub open spec fn cd_rec_span(a: Seq<u8>, off: int) -> int {
    46 + le16_at(a, off + 28) + le16_at(a, off + 30) + le16_at(a, off + 32)
}

/// Whether a whole directory record can be read at `off`: the fixed header is
/// in bounds, the signature matches, and the variable-length parts are in
/// bounds.
pub open spec fn cd_rec_ok(a: Seq<u8>, off: int) -> bool {
    &&& off + 46 <= a.len()
    &&& cd_sig_ok(a, off)
    &&& off + cd_rec_span(a, off) <= a.len()
}

/// The directory entry decoded from the record at `off`. The low byte of
/// version-needed is kept; the high byte denotes the host OS and is
/// discarded.
pub open spec fn cd_rec_view(a: Seq<u8>, off: int) -> CDView {
    let fname_len = le16_at(a, off + 28);
    let ef_len = le16_at(a, off + 30);
    CDView {
        ver_by: le16_at(a, off + 4),
        ver_needed: (le16_at(a, off + 6) as int % 256) as u16,
        gp_flag: le16_at(a, off + 8),
        comp_method: le16_at(a, off + 10),
        file_crc32: le32_at(a, off + 16),
        comp_size: le32_at(a, off + 20),
        uncomp_size: le32_at(a, off + 24),
        fname_len: fname_len,
        ef_len: ef_len,
        comment_len: le16_at(a, off + 32),
        rel_lfh_offset: le32_at(a, off + 42),
        fname_offset: (46 + fname_len + 1) as usize,
        ef: a.subrange(off + 46 + fname_len, off + 46 + fname_len + ef_len),
    }
}

/// The offset one past the `k`-th sequential directory record, starting at
/// `off`.
pub open spec fn cd_walk_end(a: Seq<u8>, off: int, k: nat) -> int
    decreases k,
{
    if k == 0 {
        off
    } else {
        let e = cd_walk_end(a, off, (k - 1) as nat);
        e + cd_rec_span(a, e)
    }
}

/// Whether `k` sequential directory records can all be read starting at
/// `off`.
pub open spec fn cd_walk_ok(a: Seq<u8>, off: int, k: nat) -> bool
    decreases k,
{
    if k == 0 {
        true
    } else {
        cd_walk_ok(a, off, (k - 1) as nat) && cd_rec_ok(a, cd_walk_end(a, off, (k - 1) as nat))
    }
}

/// The first `k` directory entries decoded sequentially from `off`, in
/// directory order.
pub open spec fn cd_walk_views(a: Seq<u8>, off: int, k: nat) -> Seq<CDView>
    decreases k,
{
    if k == 0 {
        Seq::empty()
    } else {
        cd_walk_views(a, off, (k - 1) as nat).push(
            cd_rec_view(a, cd_walk_end(a, off, (k - 1) as nat)),
        )
    }
}

/// Whether the whole directory parses: `n` records can be read from `off`,
/// and together they span exactly the `size` bytes the trailer declares.
pub open spec fn cd_parse_ok(a: Seq<u8>, off: int, n: nat, size: int) -> bool {
    cd_walk_ok(a, off, n) && cd_walk_end(a, off, n) - off == size
}

/// A walk over more records is also a walk over fewer.
pub proof fn lemma_cd_walk_ok_prefix(a: Seq<u8>, off: int, j: nat, k: nat)
    requires
        j <= k,
        cd_walk_ok(a, off, k),
    ensures
        cd_walk_ok(a, off, j),
    decreases k,
{
    if j < k {
        lemma_cd_walk_ok_prefix(a, off, j, (k - 1) as nat);
    }
}

/// A walk over `k` records yields exactly `k` entries.
pub proof fn lemma_cd_walk_views_len(a: Seq<u8>, off: int, k: nat)
    ensures
        cd_walk_views(a, off, k).len() == k,
    decreases k,
{
    if k > 0 {
        lemma_cd_walk_views_len(a, off, (k - 1) as nat);
    }
}

impl CD {
    /// Walks the central directory: starting at the trailer's directory
    /// offset, decodes `sigma_cdr` sequential records, checks that they span
    /// exactly `cd_size` bytes, and returns the entries in directory order.
    /// A signature mismatch, a length field that would read past the end of
    /// the stream, or a span that disagrees with the declared directory size
    /// is a malformed archive.
    pub fn new(cd_offset: u32, sigma_cdr: u16, cd_size: u32, archive: &Vec<u8>) -> (r: Result<
        Vec<CD>,
        ZipError,
    >)
        ensures
            match r {
                Ok(v) => {
                    &&& cd_parse_ok(archive@, cd_offset as int, sigma_cdr as nat, cd_size as int)
                    &&& v@.map_values(|c: CD| c@) == cd_walk_views(
                        archive@,
                        cd_offset as int,
                        sigma_cdr as nat,
                    )
                    &&& v@.len() == sigma_cdr
                },
                Err(e) => {
                    &&& e == ZipError::MalformedArchive
                    &&& !cd_parse_ok(archive@, cd_offset as int, sigma_cdr as nat, cd_size as int)
                },
            },
    {
        let ghost ga = archive@;
        let ghost goff = cd_offset as int;
        let ghost gn = sigma_cdr as nat;
        let off0: usize = cd_offset as usize;
        let n: usize = sigma_cdr as usize;
        let mut out: Vec<CD> = Vec::new();
        let mut cur: usize = off0;
        let mut i: usize = 0;
        while i < n
            invariant
                i <= n,
                n == sigma_cdr as usize,
                off0 == cd_offset as usize,
                ga == archive@,
                goff == cd_offset as int,
                gn == sigma_cdr as nat,
                off0 <= cur,
                cd_walk_ok(ga, goff, i as nat),
                cur as int == cd_walk_end(ga, goff, i as nat),
                out@.map_values(|c: CD| c@) == cd_walk_views(ga, goff, i as nat),
                out.len() == i,
            decreases n - i,
        {
            if archive.len() < cur || archive.len() - cur < 46 {
                proof {
                    assert(!cd_parse_ok(ga, goff, gn, cd_size as int)) by {
                        if cd_walk_ok(ga, goff, gn) {
                            lemma_cd_walk_ok_prefix(ga, goff, (i + 1) as nat, gn);
                        }
                    }
                }
                return Err(ZipError::MalformedArchive);
            }
            if !(archive[cur] == 0x50 && archive[cur + 1] == 0x4b && archive[cur + 2] == 0x01
                && archive[cur + 3] == 0x02) {
                proof {
                    assert(!cd_parse_ok(ga, goff, gn, cd_size as int)) by {
                        if cd_walk_ok(ga, goff, gn) {
                            lemma_cd_walk_ok_prefix(ga, goff, (i + 1) as nat, gn);
                        }
                    }
                }
                return Err(ZipError::MalformedArchive);
            }
            let fname_len = read_u16(archive, cur + 28);
            let ef_len = read_u16(archive, cur + 30);
            let comment_len = read_u16(archive, cur + 32);
            let varlen: usize = fname_len as usize + ef_len as usize + comment_len as usize;
            if archive.len() - cur - 46 < varlen {
                proof {
                    assert(!cd_parse_ok(ga, goff, gn, cd_size as int)) by {
                        if cd_walk_ok(ga, goff, gn) {
                            lemma_cd_walk_ok_prefix(ga, goff, (i + 1) as nat, gn);
                        }
                    }
                }
                return Err(ZipError::MalformedArchive);
            }
            let ef_start: usize = cur + 46 + fname_len as usize;
            let ef = copy_range(archive, ef_start, ef_start + ef_len as usize);
            let entry = CD {
                ver_by: read_u16(archive, cur + 4),
                ver_needed: read_u16(archive, cur + 6) % 256,
                gp_flag: read_u16(archive, cur + 8),
                comp_method: read_u16(archive, cur + 10),
                file_crc32: read_u32(archive, cur + 16),
                comp_size: read_u32(archive, cur + 20),
                uncomp_size: read_u32(archive, cur + 24),
                fname_len,
                ef_len,
                comment_len,
                rel_lfh_offset: read_u32(archive, cur + 42),
                fname_offset: 46 + fname_len as usize + 1,
                ef,
            };
            proof {
                assert(entry@ =~= cd_rec_view(ga, cur as int));
                assert(cd_rec_ok(ga, cur as int));
            }
            out.push(entry);
            proof {
                assert(out@.map_values(|c: CD| c@) =~= cd_walk_views(ga, goff, (i + 1) as nat));
            }
            cur = cur + 46 + varlen;
            i = i + 1;
        }
        if cur - off0 != cd_size as usize {
            proof {
                assert(!cd_parse_ok(ga, goff, gn, cd_size as int));
            }
            return Err(ZipError::MalformedArchive);
        }
        Ok(out)
    }
}

} // verus!
