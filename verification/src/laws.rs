use vstd::prelude::*;

use crate::cd::{
    cd_parse_ok, cd_rec_ok, cd_rec_span, cd_rec_view, cd_walk_end, cd_walk_views,
    lemma_cd_walk_views_len, CDView,
};
use crate::classify::{bit0_set, bit3_set, legacy_version, verif_bytes};
use crate::eocd::{eocd_sig_ok, spec_eocd, EOCD};
use crate::error::ZipError;
use crate::hex::hex_pair;
use crate::le::le16_at;
use crate::lfh::{spec_lfh, LFHView};
use crate::serialize::spec_entry_line;

verus! {

/// A successful directory walk terminates having consumed exactly the byte
/// span the trailer declares, and yields exactly the declared entry count.
pub proof fn lemma_cd_walk_exact(a: Seq<u8>, off: int, n: nat, size: int)
    requires
        cd_parse_ok(a, off, n, size),
    ensures
        cd_walk_end(a, off, n) == off + size,
        cd_walk_views(a, off, n).len() == n,
{
    lemma_cd_walk_views_len(a, off, n);
}

/// A successfully read local header accounts for exactly
/// `30 + n + m + comp_size` bytes starting at the directory entry's
/// back-reference offset, where `n` and `m` are the local header's own
/// declared lengths and `comp_size` is the directory's compressed size: the
/// fixed header, the filename, the extra field and the payload tile that
/// span without gap or overlap.
pub proof fn lemma_lfh_reads_exact(a: Seq<u8>, cd: CDView)
    requires
        spec_lfh(a, cd) is Ok,
    ensures
        spec_lfh(a, cd) matches Ok(l) && {
            let off = cd.rel_lfh_offset as int;
            let n = le16_at(a, off + 26) as int;
            let m = le16_at(a, off + 28) as int;
            &&& l.fname_len == n
            &&& l.ef_len == m
            &&& off + 30 + n + m + cd.comp_size <= a.len()
            &&& a.subrange(off, off + 30 + n + m + cd.comp_size) == a.subrange(off, off + 30)
                + l.file_name + l.ef + l.hash
        },
{
    let off = cd.rel_lfh_offset as int;
    let n = le16_at(a, off + 26) as int;
    let m = le16_at(a, off + 28) as int;
    assert(a.subrange(off, off + 30 + n + m + cd.comp_size) =~= a.subrange(off, off + 30)
        + a.subrange(off + 30, off + 30 + n) + a.subrange(off + 30 + n, off + 30 + n + m)
        + a.subrange(off + 30 + n + m, off + 30 + n + m + cd.comp_size));
}

/// Verification-byte derivation is a pure function of the flag bits and of
/// the modification time or the CRC alone: with flag bit 3 set the bytes are
/// the modification time's, independent of the CRC; with bit 3 unset they
/// are the CRC's two highest-order bytes, independent of the time.
pub proof fn lemma_verification_branch(flag: u16, mod_time: u16, crc: u32)
    ensures
        bit3_set(flag) ==> verif_bytes(flag, mod_time, crc) == hex_pair(
            (mod_time as int / 256) as u8,
        ) + hex_pair((mod_time as int % 256) as u8),
        !bit3_set(flag) ==> verif_bytes(flag, mod_time, crc) == hex_pair(
            (crc as int / 16777216) as u8,
        ) + hex_pair(((crc as int / 65536) % 256) as u8),
        bit3_set(flag) ==> forall|crc2: u32|
            verif_bytes(flag, mod_time, crc2) == verif_bytes(flag, mod_time, crc),
        !bit3_set(flag) ==> forall|t2: u16|
            verif_bytes(flag, t2, crc) == verif_bytes(flag, mod_time, crc),
{
}

/// Classification excludes any entry whose flag bit 0 is unset, whatever its
/// version-needed value: the entry is reported unsupported and produces no
/// output line.
pub proof fn lemma_excludes_unencrypted(zipname: Seq<u8>, l: LFHView, check_bytes: u8)
    requires
        !bit0_set(l.gp_flag),
    ensures
        spec_entry_line(zipname, l, check_bytes) == Err::<Seq<u8>, ZipError>(
            ZipError::UnsupportedEntry,
        ),
{
}

/// Entries whose version-needed is none of the legacy values are excluded
/// from output even when flag bit 0 is set: they are reported unsupported
/// and produce no output line.
pub proof fn lemma_excludes_nonlegacy_version(zipname: Seq<u8>, l: LFHView, check_bytes: u8)
    requires
        !legacy_version(l.ver_needed),
    ensures
        spec_entry_line(zipname, l, check_bytes) == Err::<Seq<u8>, ZipError>(
            ZipError::UnsupportedEntry,
        ),
{
}

/// The little-endian byte pair of a 16-bit value, low byte first.
pub open spec fn le16_bytes(v: u16) -> Seq<u8> {
    seq![(v as int % 256) as u8, (v as int / 256) as u8]
}

/// The little-endian byte quadruple of a 32-bit value, low byte first.
pub open spec fn le32_bytes(v: u32) -> Seq<u8> {
    seq![
        (v as int % 256) as u8,
        ((v as int / 256) % 256) as u8,
        ((v as int / 65536) % 256) as u8,
        ((v as int / 16777216) % 256) as u8,
    ]
}

/// Splitting a 16-bit value into its little-endian bytes loses nothing.
pub proof fn lemma_le16_split(v: u16)
    ensures
        (v as int % 256) + 256 * (v as int / 256) == v,
{
    vstd::arithmetic::div_mod::lemma_fundamental_div_mod(v as int, 256);
}

/// Splitting a 32-bit value into its little-endian bytes loses nothing.
pub proof fn lemma_le32_split(v: u32)
    ensures
        (v as int % 256) + 256 * ((v as int / 256) % 256) + 65536 * ((v as int / 65536) % 256)
            + 16777216 * ((v as int / 16777216) % 256) == v,
{
    let x = v as int;
    vstd::arithmetic::div_mod::lemma_fundamental_div_mod(x, 256);
    vstd::arithmetic::div_mod::lemma_fundamental_div_mod(x / 256, 256);
    vstd::arithmetic::div_mod::lemma_fundamental_div_mod(x / 65536, 256);
    vstd::arithmetic::div_mod::lemma_div_denominator(x, 256, 256);
    vstd::arithmetic::div_mod::lemma_div_denominator(x, 65536, 256);
    assert(x / 16777216 < 256);
    vstd::arithmetic::div_mod::lemma_small_mod((x / 16777216) as nat, 256);
}

/// The 22-byte encoding of a trailer record, signature first.
pub open spec fn encode_eocd(e: EOCD) -> Seq<u8> {
    seq![0x50u8, 0x4bu8, 0x05u8, 0x06u8] + le16_bytes(e.n_disk) + le16_bytes(e.cd_start_disk)
        + le16_bytes(e.cdr_disk) + le16_bytes(e.sigma_cdr) + le32_bytes(e.cd_size) + le32_bytes(
        e.cd_offset,
    ) + le16_bytes(e.comment_len)
}

/// Round trip for the trailer layout: decoding a stream that ends with the
/// encoding of a trailer whose comment byte is clear reproduces exactly that
/// trailer.
pub proof fn lemma_eocd_roundtrip(pre: Seq<u8>, e: EOCD)
    requires
        e.comment == 0,
    ensures
        (pre + encode_eocd(e)).len() >= 22,
        eocd_sig_ok(pre + encode_eocd(e)),
        spec_eocd(pre + encode_eocd(e)) == e,
{
    let a = pre + encode_eocd(e);
    assert(encode_eocd(e).len() == 22);
    let p = a.len() - 22;
    assert(p == pre.len());
    lemma_le16_split(e.n_disk);
    lemma_le16_split(e.cd_start_disk);
    lemma_le16_split(e.cdr_disk);
    lemma_le16_split(e.sigma_cdr);
    lemma_le16_split(e.comment_len);
    lemma_le32_split(e.cd_size);
    lemma_le32_split(e.cd_offset);
    assert(spec_eocd(a) == e);
}

/// The encoding of one central-directory record: the 46 fixed bytes, then
/// the filename, the extra field, and the comment. The modification fields
/// and attributes that the decoder skips are free parameters.
pub open spec fn encode_cd_record(
    c: CDView,
    mod_time: u16,
    mod_date: u16,
    disk_start: u16,
    int_attrs: u16,
    ext_attrs: u32,
    fname: Seq<u8>,
    comment: Seq<u8>,
) -> Seq<u8> {
    seq![0x50u8, 0x4bu8, 0x01u8, 0x02u8] + le16_bytes(c.ver_by) + le16_bytes(c.ver_needed)
        + le16_bytes(c.gp_flag) + le16_bytes(c.comp_method) + le16_bytes(mod_time) + le16_bytes(
        mod_date,
    ) + le32_bytes(c.file_crc32) + le32_bytes(c.comp_size) + le32_bytes(c.uncomp_size)
        + le16_bytes(c.fname_len) + le16_bytes(c.ef_len) + le16_bytes(c.comment_len)
        + le16_bytes(disk_start) + le16_bytes(int_attrs) + le32_bytes(ext_attrs) + le32_bytes(
        c.rel_lfh_offset,
    ) + fname + c.ef + comment
}

/// Round trip for the directory-record layout: a record encoded anywhere in
/// a stream decodes to exactly the entry it was built from.
#[verifier::rlimit(60)]
pub proof fn lemma_cd_record_roundtrip(
    pre: Seq<u8>,
    c: CDView,
    mod_time: u16,
    mod_date: u16,
    disk_start: u16,
    int_attrs: u16,
    ext_attrs: u32,
    fname: Seq<u8>,
    comment: Seq<u8>,
    post: Seq<u8>,
)
    requires
        c.ver_needed < 256,
        fname.len() == c.fname_len,
        c.ef.len() == c.ef_len,
        comment.len() == c.comment_len,
        c.fname_offset == 46 + c.fname_len + 1,
    ensures
        ({
            let a = pre + encode_cd_record(
                c,
                mod_time,
                mod_date,
                disk_start,
                int_attrs,
                ext_attrs,
                fname,
                comment,
            ) + post;
            let off = pre.len() as int;
            &&& cd_rec_ok(a, off)
            &&& cd_rec_span(a, off) == 46 + c.fname_len + c.ef_len + c.comment_len
            &&& cd_rec_view(a, off) =~= c
        }),
{
    let enc = encode_cd_record(
        c,
        mod_time,
        mod_date,
        disk_start,
        int_attrs,
        ext_attrs,
        fname,
        comment,
    );
    let a = pre + enc + post;
    let off = pre.len() as int;
    assert(enc.len() == 46 + c.fname_len + c.ef_len + c.comment_len);
    lemma_le16_split(c.ver_by);
    lemma_le16_split(c.ver_needed);
    lemma_le16_split(c.gp_flag);
    lemma_le16_split(c.comp_method);
    lemma_le16_split(c.fname_len);
    lemma_le16_split(c.ef_len);
    lemma_le16_split(c.comment_len);
    lemma_le32_split(c.file_crc32);
    lemma_le32_split(c.comp_size);
    lemma_le32_split(c.uncomp_size);
    lemma_le32_split(c.rel_lfh_offset);
    vstd::arithmetic::div_mod::lemma_small_mod(c.ver_needed as nat, 256);
    assert(cd_rec_view(a, off).ef =~= c.ef);
    assert(cd_rec_view(a, off) =~= c);
}

/// The encoding of one local file header: the 30 fixed bytes, then the
/// filename, the extra field, and the raw payload.
pub open spec fn encode_lfh_record(l: LFHView) -> Seq<u8> {
    seq![0x50u8, 0x4bu8, 0x03u8, 0x04u8] + le16_bytes(l.ver_needed) + le16_bytes(l.gp_flag)
        + le16_bytes(l.comp_method) + le16_bytes(l.file_mod_time) + le16_bytes(l.file_mod_date)
        + le32_bytes(l.file_crc32) + le32_bytes(l.comp_size) + le32_bytes(l.uncomp_size)
        + le16_bytes(l.fname_len as u16) + le16_bytes(l.ef_len as u16) + l.file_name + l.ef
        + l.hash
}

/// Round trip for the local-header layout: a local header encoded at the
/// back-reference offset of a directory entry decodes to exactly the header
/// it was built from.
#[verifier::rlimit(60)]
pub proof fn lemma_lfh_roundtrip(pre: Seq<u8>, l: LFHView, cd: CDView, post: Seq<u8>)
    requires
        l.fname_len <= 0xffff,
        l.ef_len <= 0xffff,
        l.file_name.len() == l.fname_len,
        l.ef.len() == l.ef_len,
        l.hash.len() == cd.comp_size,
        l.magic_type == 0,
        l.offex == 30 + l.fname_len + l.ef_len,
        cd.rel_lfh_offset == pre.len(),
    ensures
        spec_lfh(pre + encode_lfh_record(l) + post, cd) matches Ok(lv) && lv =~= l,
{
    let enc = encode_lfh_record(l);
    let a = pre + enc + post;
    let off = cd.rel_lfh_offset as int;
    assert(enc.len() == 30 + l.fname_len + l.ef_len + l.hash.len());
    lemma_le16_split(l.ver_needed);
    lemma_le16_split(l.gp_flag);
    lemma_le16_split(l.comp_method);
    lemma_le16_split(l.file_mod_time);
    lemma_le16_split(l.file_mod_date);
    lemma_le16_split(l.fname_len as u16);
    lemma_le16_split(l.ef_len as u16);
    lemma_le32_split(l.file_crc32);
    lemma_le32_split(l.comp_size);
    lemma_le32_split(l.uncomp_size);
    assert(le16_at(a, off + 26) == l.fname_len);
    assert(le16_at(a, off + 28) == l.ef_len);
    assert(spec_lfh(a, cd) matches Ok(lv) && lv =~= l) by {
        assert(spec_lfh(a, cd) is Ok);
        match spec_lfh(a, cd) {
            Ok(lv) => {
                assert(lv.file_name =~= l.file_name);
                assert(lv.ef =~= l.ef);
                assert(lv.hash =~= l.hash);
            },
            Err(_) => {},
        }
    }
}

} // verus!
