use vstd::prelude::*;

use crate::classify::{ef_walk, is_candidate, process_legacy, verif_bytes};
use crate::error::ZipError;
use crate::hex::{
    hex32, hex_lower, hex_seq, push_all, push_byte, push_hex32, push_hex_seq, push_hex_u32,
};
use crate::lfh::{LFH, LFHView};

verus! {

/// The literal `":$pkzip2$1*"`: record prefix with the fixed classification
/// tag `1`.
pub open spec fn lit_prefix() -> Seq<u8> {
    seq![58u8, 36u8, 112u8, 107u8, 122u8, 105u8, 112u8, 50u8, 36u8, 49u8, 42u8]
}

/// The literal `"*2*"`: separator, protocol sub-version, separator.
pub open spec fn lit_subver() -> Seq<u8> {
    seq![42u8, 50u8, 42u8]
}

/// The literal `"*0*"`: separator, zero placeholder, separator.
pub open spec fn lit_zero() -> Seq<u8> {
    seq![42u8, 48u8, 42u8]
}

/// The literal `"$/pkzip$:"`: record suffix and trailer separator.
pub open spec fn lit_suffix() -> Seq<u8> {
    seq![36u8, 47u8, 112u8, 107u8, 122u8, 105u8, 112u8, 36u8, 58u8]
}

/// The full output record for one qualifying entry: the archive and entry
/// names, the fixed prefix token, the delimited numeric fields in lowercase
/// hex (the CRC fixed at eight digits, the rest unpadded), the
/// verification-byte string `cs`, the raw payload as contiguous hex, and the
/// suffix token with the colon-separated trailer.
pub open spec fn record_line(zipname: Seq<u8>, l: LFHView, check_bytes: u8, cs: Seq<u8>) -> Seq<
    u8,
> {
    zipname + seq![47u8] + l.file_name + lit_prefix() + hex_lower(check_bytes as int)
        + lit_subver() + hex_lower(l.magic_type as int) + seq![42u8] + hex_lower(
        l.comp_size as int,
    ) + seq![42u8] + hex_lower(l.uncomp_size as int) + seq![42u8] + hex32(l.file_crc32)
        + lit_zero() + hex_lower(l.offex as int) + seq![42u8] + hex_lower(l.comp_method as int)
        + seq![42u8] + hex_lower(l.comp_size as int) + seq![42u8] + cs + seq![42u8] + hex_seq(
        l.hash,
    ) + lit_suffix() + l.file_name + seq![58u8] + zipname + seq![58u8] + seq![58u8] + zipname
}

/// The per-entry outcome: the rendered record for a qualifying entry, or the
/// tagged reason the entry produced no output.
pub open spec fn spec_entry_line(zipname: Seq<u8>, l: LFHView, check_bytes: u8) -> Result<
    Seq<u8>,
    ZipError,
> {
    if !is_candidate(l) {
        Err(ZipError::UnsupportedEntry)
    } else if ef_walk(l.ef, 0) is None {
        Err(ZipError::MalformedExtraField)
    } else {
        Ok(
            record_line(
                zipname,
                l,
                check_bytes,
                verif_bytes(l.gp_flag, l.file_mod_time, l.file_crc32),
            ),
        )
    }
}

/// Appends the record prefix `":$pkzip2$1*"`.
fn push_lit_prefix(out: &mut Vec<u8>)
    ensures
        final(out)@ == old(out)@ + lit_prefix(),
{
    out.push(58u8);
    out.push(36u8);
    out.push(112u8);
    out.push(107u8);
    out.push(122u8);
    out.push(105u8);
    out.push(112u8);
    out.push(50u8);
    out.push(36u8);
    out.push(49u8);
    out.push(42u8);
    proof {
        assert(out@ =~= old(out)@ + lit_prefix());
    }
}

/// Appends the record suffix `"$/pkzip$:"`.
fn push_lit_suffix(out: &mut Vec<u8>)
    ensures
        final(out)@ == old(out)@ + lit_suffix(),
{
    out.push(36u8);
    out.push(47u8);
    out.push(112u8);
    out.push(107u8);
    out.push(122u8);
    out.push(105u8);
    out.push(112u8);
    out.push(36u8);
    out.push(58u8);
    proof {
        assert(out@ =~= old(out)@ + lit_suffix());
    }
}

/// Appends `"*2*"`.
fn push_lit_subver(out: &mut Vec<u8>)
    ensures
        final(out)@ == old(out)@ + lit_subver(),
{
    out.push(42u8);
    out.push(50u8);
    out.push(42u8);
    proof {
        assert(out@ =~= old(out)@ + lit_subver());
    }
}

/// Appends `"*0*"`.
fn push_lit_zero(out: &mut Vec<u8>)
    ensures
        final(out)@ == old(out)@ + lit_zero(),
{
    out.push(42u8);
    out.push(48u8);
    out.push(42u8);
    proof {
        assert(out@ =~= old(out)@ + lit_zero());
    }
}

/// Renders the full output record for one qualifying entry with the given
/// verification-byte string.
pub fn render_record(zipname: &Vec<u8>, lfh: &LFH, check_bytes: u8, cs: &Vec<u8>) -> (out: Vec<
    u8,
>)
    ensures
        out@ == record_line(zipname@, lfh@, check_bytes, cs@),
{
    let mut out: Vec<u8> = Vec::new();
    push_all(&mut out, zipname);
    proof {
        assert(Seq::<u8>::empty() + zipname@ =~= zipname@);
    }
    push_byte(&mut out, 47u8);
    push_all(&mut out, &lfh.file_name);
    push_lit_prefix(&mut out);
    push_hex_u32(&mut out, check_bytes as u32);
    push_lit_subver(&mut out);
    push_hex_u32(&mut out, lfh.magic_type as u32);
    push_byte(&mut out, 42u8);
    push_hex_u32(&mut out, lfh.comp_size);
    push_byte(&mut out, 42u8);
    push_hex_u32(&mut out, lfh.uncomp_size);
    push_byte(&mut out, 42u8);
    push_hex32(&mut out, lfh.file_crc32);
    push_lit_zero(&mut out);
    push_hex_u32(&mut out, lfh.offex);
    push_byte(&mut out, 42u8);
    push_hex_u32(&mut out, lfh.comp_method as u32);
    push_byte(&mut out, 42u8);
    push_hex_u32(&mut out, lfh.comp_size);
    push_byte(&mut out, 42u8);
    push_all(&mut out, cs);
    push_byte(&mut out, 42u8);
    push_hex_seq(&mut out, &lfh.hash);
    push_lit_suffix(&mut out);
    push_all(&mut out, &lfh.file_name);
    push_byte(&mut out, 58u8);
    push_all(&mut out, zipname);
    push_byte(&mut out, 58u8);
    push_byte(&mut out, 58u8);
    push_all(&mut out, zipname);
    proof {
        assert(out@ =~= record_line(zipname@, lfh@, check_bytes, cs@));
    }
    out
}

/// Runs one entry through classification and, for a qualifying entry,
/// serialization. The error tags why an entry produced no output line; an
/// unsupported entry is a normal outcome.
pub fn handle_file_entry(zipname: &Vec<u8>, check_bytes: u8, lfh: &LFH) -> (r: Result<
    Vec<u8>,
    ZipError,
>)
    ensures
        match r {
            Ok(line) => spec_entry_line(zipname@, lfh@, check_bytes) matches Ok(s) && line@ == s,
            Err(e) => spec_entry_line(zipname@, lfh@, check_bytes) matches Err(ev) && e == ev,
        },
{
    match process_legacy(lfh) {
        Ok(c) => Ok(render_record(zipname, lfh, check_bytes, &c.cs)),
        Err(e) => Err(e),
    }
}

} // verus!
