use vstd::prelude::*;

use crate::error::ZipError;
use crate::hex::{hex_lower, hex_pair, push_hex_pair, push_hex_u32};
use crate::le::le16_at;
use crate::lfh::{LFH, LFHView};

verus! {

/// Whether bit 0 of the general-purpose flag field is set: the entry is
/// encrypted.
pub open spec fn bit0_set(flag: u16) -> bool {
    flag as int % 2 == 1
}

/// Whether bit 3 of the general-purpose flag field is set: the local header's
/// sizes and CRC were left as placeholders and the actual values live in a
/// trailing data descriptor ("streamed" mode).
pub open spec fn bit3_set(flag: u16) -> bool {
    (flag as int / 8) % 2 == 1
}

/// Whether version-needed-to-extract denotes one of the versions 1.0, 2.0 or
/// 4.5 (stored in tenths).
pub open spec fn legacy_version(ver_needed: u16) -> bool {
    ver_needed == 10 || ver_needed == 20 || ver_needed == 45
}

/// Whether an entry is a legacy-stream-cipher candidate: encrypted, and
/// version-needed one of the legacy values.
pub open spec fn is_candidate(l: LFHView) -> bool {
    bit0_set(l.gp_flag) && legacy_version(l.ver_needed)
}

/// The two verification bytes, rendered as four lowercase hex digits. With
/// flag bit 3 set they are the two bytes of the modification time field,
/// high byte first; otherwise the two highest-order bytes of the CRC-32
/// field.
pub open spec fn verif_bytes(flag: u16, mod_time: u16, crc: u32) -> Seq<u8> {
    if bit3_set(flag) {
        hex_pair((mod_time as int / 256) as u8) + hex_pair((mod_time as int % 256) as u8)
    } else {
        hex_pair((crc as int / 16777216) as u8) + hex_pair(((crc as int / 65536) % 256) as u8)
    }
}

/// The sequence of sub-record identifiers found by walking an extra-field
/// payload from `off`: each sub-record is a 2-byte identifier, a 2-byte data
/// length, and that many data bytes. `None` when a declared length runs past
/// the end of the payload.
pub open spec fn ef_walk(ef: Seq<u8>, off: int) -> Option<Seq<u16>>
    decreases ef.len() - off,
{
    if off == ef.len() {
        Some(Seq::empty())
    } else if off + 4 > ef.len() {
        None
    } else {
        let id = le16_at(ef, off);
        let ds = le16_at(ef, off + 2) as int;
        if off + 4 + ds > ef.len() {
            None
        } else {
            match ef_walk(ef, off + 4 + ds) {
                Some(rest) => Some(seq![id] + rest),
                None => None,
            }
        }
    }
}

/// Checks whether the entry is a legacy-stream-cipher candidate.
pub fn is_legacy_candidate(lfh: &LFH) -> (r: bool)
    ensures
        r == is_candidate(lfh@),
{
    lfh.gp_flag % 2 == 1 && (lfh.ver_needed == 10 || lfh.ver_needed == 20 || lfh.ver_needed == 45)
}

/// Derives the verification bytes of an entry from its flag bits and its
/// modification time or CRC-32 field.
pub fn verification_bytes(flag: u16, mod_time: u16, crc: u32) -> (r: Vec<u8>)
    ensures
        r@ == verif_bytes(flag, mod_time, crc),
{
    let mut r: Vec<u8> = Vec::new();
    if (flag / 8) % 2 == 1 {
        push_hex_pair(&mut r, (mod_time / 256) as u8);
        push_hex_pair(&mut r, (mod_time % 256) as u8);
    } else {
        push_hex_pair(&mut r, (crc / 16777216) as u8);
        push_hex_pair(&mut r, ((crc / 65536) % 256) as u8);
    }
    proof {
        assert(r@ =~= verif_bytes(flag, mod_time, crc));
    }
    r
}

/// Prepends the identifiers already collected to the remainder of a walk.
pub open spec fn walk_prepend(pre: Seq<u16>, r: Option<Seq<u16>>) -> Option<Seq<u16>> {
    match r {
        Some(s) => Some(pre + s),
        None => None,
    }
}

/// Walks an extra-field payload and collects the sub-record identifiers, in
/// order. A declared sub-record length that runs past the payload is a
/// malformed extra field.
pub fn walk_extra_field(ef: &Vec<u8>) -> (r: Result<Vec<u16>, ZipError>)
    ensures
        match r {
            Ok(ids) => ef_walk(ef@, 0) matches Some(s) && ids@ == s,
            Err(e) => ef_walk(ef@, 0) is None && e == ZipError::MalformedExtraField,
        },
{
    let mut ids: Vec<u16> = Vec::new();
    let mut cur: usize = 0;
    proof {
        match ef_walk(ef@, 0) {
            Some(s) => {
                assert(Seq::<u16>::empty() + s =~= s);
            },
            None => {},
        }
    }
    while cur < ef.len()
        invariant
            cur <= ef.len(),
            ef_walk(ef@, 0) == walk_prepend(ids@, ef_walk(ef@, cur as int)),
        decreases ef.len() - cur,
    {
        if ef.len() - cur < 4 {
            return Err(ZipError::MalformedExtraField);
        }
        let id = crate::le::read_u16(ef, cur);
        let ds = crate::le::read_u16(ef, cur + 2) as usize;
        if ds > ef.len() - cur - 4 {
            return Err(ZipError::MalformedExtraField);
        }
        let ghost prev = cur as int;
        let ghost prev_ids = ids@;
        ids.push(id);
        cur = cur + 4 + ds;
        proof {
            match ef_walk(ef@, cur as int) {
                Some(rest) => {
                    assert(ef_walk(ef@, prev) == Some(seq![id] + rest));
                    assert(prev_ids + (seq![id] + rest) =~= ids@ + rest);
                },
                None => {},
            }
        }
    }
    proof {
        assert(ids@ + Seq::<u16>::empty() =~= ids@);
    }
    Ok(ids)
}

/// The literal `"efh "` that prefixes each identifier in the diagnostic
/// trace.
pub open spec fn lit_efh() -> Seq<u8> {
    seq![101u8, 102u8, 104u8, 32u8]
}

/// The diagnostic trace of a walked extra field: `"efh "`, the identifier in
/// lowercase hex, and a space, once per sub-record, in walk order.
pub open spec fn trace_of(ids: Seq<u16>) -> Seq<u8>
    decreases ids.len(),
{
    if ids.len() == 0 {
        Seq::empty()
    } else {
        trace_of(ids.drop_last()) + lit_efh() + hex_lower(ids.last() as int) + seq![32u8]
    }
}

/// Renders the diagnostic trace of the given sub-record identifiers.
pub fn ef_trace(ids: &Vec<u16>) -> (out: Vec<u8>)
    ensures
        out@ == trace_of(ids@),
{
    let mut out: Vec<u8> = Vec::new();
    let mut i: usize = 0;
    while i < ids.len()
        invariant
            i <= ids.len(),
            out@ == trace_of(ids@.subrange(0, i as int)),
        decreases ids.len() - i,
    {
        let ghost pre = ids@.subrange(0, i as int);
        let ghost post = ids@.subrange(0, i + 1);
        out.push(101u8);
        out.push(102u8);
        out.push(104u8);
        out.push(32u8);
        push_hex_u32(&mut out, ids[i] as u32);
        out.push(32u8);
        proof {
            assert(post.drop_last() =~= pre);
            assert(out@ =~= trace_of(pre) + lit_efh() + hex_lower(ids@[i as int] as int) + seq![
                32u8,
            ]);
        }
        i += 1;
    }
    proof {
        assert(ids@.subrange(0, ids@.len() as int) =~= ids@);
    }
    out
}

/// The classification record of one qualifying entry: its verification-byte
/// string and the diagnostic trace of extra-field sub-record identifiers.
#[derive(Debug)]
pub struct Classified {
    pub cs: Vec<u8>,
    pub efh_ids: Vec<u16>,
}

/// Classifies one entry. A non-candidate entry is excluded as unsupported,
/// which is a normal outcome; a malformed extra field is fatal for this entry
/// only.
pub fn process_legacy(lfh: &LFH) -> (r: Result<Classified, ZipError>)
    ensures
        !is_candidate(lfh@) ==> (r matches Err(e) && e == ZipError::UnsupportedEntry),
        is_candidate(lfh@) && ef_walk(lfh@.ef, 0) is None ==> (r matches Err(e) && e
            == ZipError::MalformedExtraField),
        is_candidate(lfh@) && ef_walk(lfh@.ef, 0) is Some ==> (r matches Ok(c) && c.cs@
            == verif_bytes(lfh@.gp_flag, lfh@.file_mod_time, lfh@.file_crc32) && (ef_walk(
            lfh@.ef,
            0,
        ) matches Some(s) && c.efh_ids@ == s)),
{
    if !is_legacy_candidate(lfh) {
        return Err(ZipError::UnsupportedEntry);
    }
    let cs = verification_bytes(lfh.gp_flag, lfh.file_mod_time, lfh.file_crc32);
    match walk_extra_field(&lfh.ef) {
        Ok(efh_ids) => Ok(Classified { cs, efh_ids }),
        Err(e) => Err(e),
    }
}

} // verus!
