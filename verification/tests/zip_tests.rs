use zipoxide::cd::CD;
use zipoxide::classify::{is_legacy_candidate, process_legacy, verification_bytes, walk_extra_field};
use zipoxide::context::{construct_zip, write_and_clean, Zipctx};
use zipoxide::eocd::EOCD;
use zipoxide::error::ZipError;
use zipoxide::le::{u16_to_le, u32_to_le};
use zipoxide::lfh::LFH;
use zipoxide::serialize::handle_file_entry;

fn le16(v: u16) -> Vec<u8> {
    vec![(v & 0xff) as u8, (v >> 8) as u8]
}

fn le32(v: u32) -> Vec<u8> {
    vec![
        (v & 0xff) as u8,
        ((v >> 8) & 0xff) as u8,
        ((v >> 16) & 0xff) as u8,
        ((v >> 24) & 0xff) as u8,
    ]
}

fn hex_of(bytes: &[u8]) -> String {
    let mut s = String::new();
    for b in bytes {
        s.push_str(&format!("{:02x}", b));
    }
    s
}

fn eocd_record(sigma_cdr: u16, cd_size: u32, cd_offset: u32) -> Vec<u8> {
    let mut v = vec![0x50u8, 0x4b, 0x05, 0x06];
    v.extend(le16(0)); // disk number
    v.extend(le16(0)); // directory start disk
    v.extend(le16(sigma_cdr)); // records on this disk
    v.extend(le16(sigma_cdr)); // records total
    v.extend(le32(cd_size));
    v.extend(le32(cd_offset));
    v.extend(le16(0)); // comment length
    v
}

fn cd_record(
    ver_needed: u16,
    gp_flag: u16,
    comp_method: u16,
    crc: u32,
    comp_size: u32,
    uncomp_size: u32,
    rel_lfh_offset: u32,
    fname: &[u8],
    ef: &[u8],
    comment: &[u8],
) -> Vec<u8> {
    let mut v = vec![0x50u8, 0x4b, 0x01, 0x02];
    v.extend(le16(20)); // version made by
    v.extend(le16(ver_needed));
    v.extend(le16(gp_flag));
    v.extend(le16(comp_method));
    v.extend(le16(0x6083)); // modification time
    v.extend(le16(0x5a2b)); // modification date
    v.extend(le32(crc));
    v.extend(le32(comp_size));
    v.extend(le32(uncomp_size));
    v.extend(le16(fname.len() as u16));
    v.extend(le16(ef.len() as u16));
    v.extend(le16(comment.len() as u16));
    v.extend(le16(0)); // disk number start
    v.extend(le16(0)); // internal attributes
    v.extend(le32(0)); // external attributes
    v.extend(le32(rel_lfh_offset));
    v.extend_from_slice(fname);
    v.extend_from_slice(ef);
    v.extend_from_slice(comment);
    v
}

fn lfh_record(
    ver_needed: u16,
    gp_flag: u16,
    comp_method: u16,
    mod_time: u16,
    crc: u32,
    comp_size: u32,
    uncomp_size: u32,
    fname: &[u8],
    ef: &[u8],
    payload: &[u8],
) -> Vec<u8> {
    let mut v = vec![0x50u8, 0x4b, 0x03, 0x04];
    v.extend(le16(ver_needed));
    v.extend(le16(gp_flag));
    v.extend(le16(comp_method));
    v.extend(le16(mod_time));
    v.extend(le16(0x5a2b)); // modification date
    v.extend(le32(crc));
    v.extend(le32(comp_size));
    v.extend(le32(uncomp_size));
    v.extend(le16(fname.len() as u16));
    v.extend(le16(ef.len() as u16));
    v.extend_from_slice(fname);
    v.extend_from_slice(ef);
    v.extend_from_slice(payload);
    v
}

/// A complete single-entry archive with the given local fields.
fn single_entry_archive(gp_flag: u16, ver_needed: u16, payload: &[u8]) -> Vec<u8> {
    let fname = b"secret.txt";
    let lfh = lfh_record(
        ver_needed,
        gp_flag,
        8,
        0x6083,
        0xdeadbeef,
        payload.len() as u32,
        0x100,
        fname,
        &[],
        payload,
    );
    let cd = cd_record(
        ver_needed,
        gp_flag,
        8,
        0xdeadbeef,
        payload.len() as u32,
        0x100,
        0,
        fname,
        &[],
        &[],
    );
    let mut archive = lfh.clone();
    archive.extend(cd.iter().copied());
    archive.extend(eocd_record(1, cd.len() as u32, lfh.len() as u32));
    archive
}

#[test]
fn u16_decodes_little_endian() {
    assert_eq!(u16_to_le(&[0x34, 0x12]), 0x1234);
    assert_eq!(u16_to_le(&[0xff, 0x00]), 0x00ff);
}

#[test]
fn u32_decodes_little_endian() {
    assert_eq!(u32_to_le(&[0x78, 0x56, 0x34, 0x12]), 0x12345678);
    assert_eq!(u32_to_le(&[0xef, 0xbe, 0xad, 0xde]), 0xdeadbeef);
}

#[test]
fn eocd_decodes_trailer_fields() {
    let mut a = vec![7u8; 10]; // arbitrary leading bytes
    a.extend(eocd_record(3, 0x1234, 0x00abcdef));
    let e = EOCD::new(&a).unwrap();
    assert_eq!(e.n_disk, 0);
    assert_eq!(e.cd_start_disk, 0);
    assert_eq!(e.cdr_disk, 3);
    assert_eq!(e.sigma_cdr, 3);
    assert_eq!(e.cd_size, 0x1234);
    assert_eq!(e.cd_offset, 0x00abcdef);
    assert_eq!(e.comment_len, 0);
}

#[test]
fn eocd_rejects_bad_signature() {
    let mut rec = eocd_record(1, 10, 0);
    rec[2] = 0x01; // damage the third signature byte
    assert_eq!(EOCD::new(&rec).unwrap_err(), ZipError::MalformedArchive);
}

#[test]
fn eocd_rejects_short_stream() {
    let a = vec![0x50u8, 0x4b, 0x05, 0x06];
    assert_eq!(EOCD::new(&a).unwrap_err(), ZipError::TruncatedArchive);
}

#[test]
fn bad_trailer_signature_fails_whole_archive() {
    let mut a = single_entry_archive(0x0001, 10, &[0u8; 8]);
    let n = a.len();
    a[n - 22] = 0x51; // not the trailer signature
    let r = construct_zip(b"archive.zip".to_vec(), &a);
    assert_eq!(r.unwrap_err(), ZipError::MalformedArchive);
}

#[test]
fn cd_walks_two_records_in_order() {
    let rec0 = cd_record(10, 1, 0, 0x11111111, 4, 4, 0, b"a.txt", &[], &[]);
    let rec1 = cd_record(20, 9, 8, 0x22222222, 5, 9, 34, b"b.bin", &[1, 2, 3], b"note");
    let cd_offset = 100u32;
    let mut a = vec![0u8; 100];
    a.extend(rec0.iter().copied());
    a.extend(rec1.iter().copied());
    let cd_size = (rec0.len() + rec1.len()) as u32;
    let v = CD::new(cd_offset, 2, cd_size, &a).unwrap();
    assert_eq!(v.len(), 2);
    assert_eq!(v[0].ver_needed, 10);
    assert_eq!(v[0].gp_flag, 1);
    assert_eq!(v[0].file_crc32, 0x11111111);
    assert_eq!(v[0].fname_len, 5);
    assert_eq!(v[1].ver_needed, 20);
    assert_eq!(v[1].comp_method, 8);
    assert_eq!(v[1].ef, vec![1, 2, 3]);
    assert_eq!(v[1].comment_len, 4);
    assert_eq!(v[1].rel_lfh_offset, 34);
    assert_eq!(v[1].fname_offset, 46 + 5 + 1);
}

#[test]
fn cd_masks_version_needed_high_byte() {
    let rec = cd_record(0x030a, 1, 0, 0, 0, 0, 0, b"x", &[], &[]);
    let a = rec.clone();
    let v = CD::new(0, 1, rec.len() as u32, &a).unwrap();
    assert_eq!(v[0].ver_needed, 10);
}

#[test]
fn cd_rejects_size_mismatch() {
    let rec = cd_record(10, 1, 0, 0, 0, 0, 0, b"a.txt", &[], &[]);
    let a = rec.clone();
    let wrong = rec.len() as u32 + 1;
    assert_eq!(CD::new(0, 1, wrong, &a).unwrap_err(), ZipError::MalformedArchive);
}

#[test]
fn cd_rejects_record_past_end() {
    let mut rec = cd_record(10, 1, 0, 0, 0, 0, 0, b"a.txt", &[], &[]);
    // declare a filename longer than the stream holds
    rec[28] = 0xff;
    rec[29] = 0xff;
    let a = rec.clone();
    assert_eq!(CD::new(0, 1, rec.len() as u32, &a).unwrap_err(), ZipError::MalformedArchive);
}

#[test]
fn cd_rejects_bad_signature() {
    let mut rec = cd_record(10, 1, 0, 0, 0, 0, 0, b"a.txt", &[], &[]);
    rec[3] = 0x03;
    let a = rec.clone();
    assert_eq!(CD::new(0, 1, rec.len() as u32, &a).unwrap_err(), ZipError::MalformedArchive);
}

#[test]
fn lfh_decodes_header_name_extra_and_payload() {
    let payload: Vec<u8> = (0u8..=0x3f).collect();
    let a = single_entry_archive(0x0001, 10, &payload);
    let cds = CD::new(104, 1, 56, &a).unwrap();
    let l = LFH::new(&cds[0], &a).unwrap();
    assert_eq!(l.ver_needed, 10);
    assert_eq!(l.gp_flag, 1);
    assert_eq!(l.comp_method, 8);
    assert_eq!(l.file_mod_time, 0x6083);
    assert_eq!(l.file_mod_date, 0x5a2b);
    assert_eq!(l.file_crc32, 0xdeadbeef);
    assert_eq!(l.comp_size, 0x40);
    assert_eq!(l.uncomp_size, 0x100);
    assert_eq!(l.fname_len, 10);
    assert_eq!(l.ef_len, 0);
    assert_eq!(l.file_name, b"secret.txt".to_vec());
    assert_eq!(l.magic_type, 0);
    assert_eq!(l.offex, 40);
    assert_eq!(l.ef, Vec::<u8>::new());
    assert_eq!(l.hash, payload);
}

#[test]
fn lfh_rejects_truncated_payload() {
    let payload = [9u8; 16];
    let mut a = lfh_record(10, 1, 0, 0, 0, 16, 16, b"f", &[], &payload);
    a.truncate(a.len() - 1); // one payload byte short
    let cd_rec = cd_record(10, 1, 0, 0, 16, 16, 0, b"f", &[], &[]);
    let cds = CD::new(0, 1, cd_rec.len() as u32, &cd_rec).unwrap();
    assert_eq!(LFH::new(&cds[0], &a).unwrap_err(), ZipError::TruncatedArchive);
}

#[test]
fn lfh_rejects_bad_signature() {
    let mut a = lfh_record(10, 1, 0, 0, 0, 0, 0, b"f", &[], &[]);
    a[2] = 0x05;
    let cd_rec = cd_record(10, 1, 0, 0, 0, 0, 0, b"f", &[], &[]);
    let cds = CD::new(0, 1, cd_rec.len() as u32, &cd_rec).unwrap();
    assert_eq!(LFH::new(&cds[0], &a).unwrap_err(), ZipError::MalformedArchive);
}

fn lfh_value(gp_flag: u16, ver_needed: u16, ef: Vec<u8>) -> LFH {
    LFH {
        ver_needed,
        gp_flag,
        comp_method: 8,
        file_mod_time: 0x6083,
        file_mod_date: 0x5a2b,
        file_crc32: 0xdeadbeef,
        comp_size: 4,
        uncomp_size: 8,
        fname_len: 1,
        ef_len: ef.len(),
        file_name: b"f".to_vec(),
        magic_type: 0,
        offex: 31 + ef.len() as u32,
        ef,
        hash: vec![1, 2, 3, 4],
    }
}

#[test]
fn classifier_requires_encryption_bit() {
    // flag bit 0 unset: excluded whatever the version-needed value
    let l = lfh_value(0x0000, 10, Vec::new());
    assert!(!is_legacy_candidate(&l));
    assert_eq!(process_legacy(&l).unwrap_err(), ZipError::UnsupportedEntry);
    let l8 = lfh_value(0x0008, 45, Vec::new());
    assert_eq!(process_legacy(&l8).unwrap_err(), ZipError::UnsupportedEntry);
}

#[test]
fn classifier_excludes_version_30() {
    let l = lfh_value(0x0001, 30, Vec::new());
    assert!(!is_legacy_candidate(&l));
    assert_eq!(process_legacy(&l).unwrap_err(), ZipError::UnsupportedEntry);
}

#[test]
fn classifier_accepts_legacy_versions() {
    for v in [10u16, 20, 45] {
        let l = lfh_value(0x0001, v, Vec::new());
        assert!(is_legacy_candidate(&l));
        assert!(process_legacy(&l).is_ok());
    }
}

#[test]
fn verification_bytes_use_crc_without_bit3() {
    // bit 3 unset: the CRC's two highest-order bytes
    let cs = verification_bytes(0x0001, 0x6083, 0xdeadbeef);
    assert_eq!(cs, b"dead".to_vec());
}

#[test]
fn verification_bytes_use_time_with_bit3() {
    // bit 3 set: the modification time's bytes, high byte first
    let cs = verification_bytes(0x0009, 0x6083, 0xdeadbeef);
    assert_eq!(cs, b"6083".to_vec());
}

#[test]
fn extra_field_walk_collects_identifiers() {
    let mut ef = Vec::new();
    ef.extend(le16(0x5455));
    ef.extend(le16(4));
    ef.extend([0u8; 4]);
    ef.extend(le16(0x7875));
    ef.extend(le16(1));
    ef.push(0);
    assert_eq!(walk_extra_field(&ef).unwrap(), vec![0x5455, 0x7875]);
}

#[test]
fn extra_field_walk_rejects_overrun() {
    let mut ef = Vec::new();
    ef.extend(le16(0x5455));
    ef.extend(le16(9)); // declared length runs past the payload
    ef.extend([0u8; 4]);
    assert_eq!(walk_extra_field(&ef).unwrap_err(), ZipError::MalformedExtraField);
    let l = lfh_value(0x0001, 10, ef);
    assert_eq!(process_legacy(&l).unwrap_err(), ZipError::MalformedExtraField);
}

#[test]
fn process_legacy_yields_check_string_and_trace() {
    let mut ef = Vec::new();
    ef.extend(le16(0x000a));
    ef.extend(le16(0));
    let l = lfh_value(0x0001, 20, ef);
    let c = process_legacy(&l).unwrap();
    assert_eq!(c.cs, b"dead".to_vec());
    assert_eq!(c.efh_ids, vec![0x000a]);
}

#[test]
fn zipctx_new_sets_protocol_defaults() {
    let e = EOCD::new(&eocd_record(0, 0, 0)).unwrap();
    let ctx = Zipctx::new(b"x.zip".to_vec(), Vec::new(), Vec::new(), e);
    assert_eq!(ctx.check_bytes, 2);
    assert_eq!(ctx.cs, Vec::<u8>::new());
    assert_eq!(ctx.zipname, b"x.zip".to_vec());
}

#[test]
fn single_entry_end_to_end_crc_branch() {
    let payload: Vec<u8> = (0u8..=0x3f).collect();
    let a = single_entry_archive(0x0001, 10, &payload);
    let mut ctx = construct_zip(b"archive.zip".to_vec(), &a).unwrap();
    assert_eq!(ctx.cd.len(), 1);
    assert_eq!(ctx.lfh.len(), 1);
    let lines = write_and_clean(&mut ctx);
    assert_eq!(ctx.lfh.len(), 0);
    assert_eq!(lines.len(), 1);
    let line = String::from_utf8(lines[0].clone()).unwrap();
    let expected = format!(
        "archive.zip/secret.txt:$pkzip2$1*2*2*0*40*100*deadbeef*0*28*8*40*dead*{}$/pkzip$:secret.txt:archive.zip::archive.zip",
        hex_of(&payload)
    );
    assert_eq!(line, expected);
}

#[test]
fn single_entry_end_to_end_time_branch() {
    // flag 0x0009 sets bit 3, so the verification bytes come from the
    // modification time field
    let payload = [0xabu8; 4];
    let a = single_entry_archive(0x0009, 10, &payload);
    let mut ctx = construct_zip(b"a.zip".to_vec(), &a).unwrap();
    let lines = write_and_clean(&mut ctx);
    assert_eq!(lines.len(), 1);
    let line = String::from_utf8(lines[0].clone()).unwrap();
    let expected = format!(
        "a.zip/secret.txt:$pkzip2$1*2*2*0*4*100*deadbeef*0*28*8*4*6083*{}$/pkzip$:secret.txt:a.zip::a.zip",
        hex_of(&payload)
    );
    assert_eq!(line, expected);
}

#[test]
fn unsupported_entry_emits_no_line() {
    let a = single_entry_archive(0x0001, 30, &[1u8, 2, 3]);
    let mut ctx = construct_zip(b"a.zip".to_vec(), &a).unwrap();
    assert_eq!(ctx.lfh.len(), 1);
    let lines = write_and_clean(&mut ctx);
    assert_eq!(lines.len(), 0);
}

#[test]
fn handle_file_entry_tags_exclusion() {
    let l = lfh_value(0x0000, 10, Vec::new());
    let r = handle_file_entry(&b"a.zip".to_vec(), 2, &l);
    assert_eq!(r.unwrap_err(), ZipError::UnsupportedEntry);
    let ok = handle_file_entry(&b"a.zip".to_vec(), 2, &lfh_value(0x0001, 45, Vec::new()));
    let line = String::from_utf8(ok.unwrap()).unwrap();
    assert!(line.starts_with("a.zip/f:$pkzip2$1*2*2*0*4*8*deadbeef*0*1f*8*4*dead*01020304$/pkzip$"));
}

#[test]
fn two_entry_archive_emits_lines_in_directory_order() {
    let p0 = [0x11u8; 2];
    let p1 = [0x22u8; 3];
    let lfh0 = lfh_record(10, 1, 0, 0x6083, 0xcafef00d, 2, 2, b"one", &[], &p0);
    let lfh1 = lfh_record(20, 1, 8, 0x6083, 0x01020304, 3, 3, b"two", &[], &p1);
    let off1 = lfh0.len() as u32;
    let cd0 = cd_record(10, 1, 0, 0xcafef00d, 2, 2, 0, b"one", &[], &[]);
    let cd1 = cd_record(20, 1, 8, 0x01020304, 3, 3, off1, b"two", &[], &[]);
    let mut a = lfh0.clone();
    a.extend(lfh1.iter().copied());
    let cd_off = a.len() as u32;
    a.extend(cd0.iter().copied());
    a.extend(cd1.iter().copied());
    a.extend(eocd_record(2, (cd0.len() + cd1.len()) as u32, cd_off));
    let mut ctx = construct_zip(b"z.zip".to_vec(), &a).unwrap();
    assert_eq!(ctx.lfh.len(), 2);
    let lines = write_and_clean(&mut ctx);
    assert_eq!(lines.len(), 2);
    let l0 = String::from_utf8(lines[0].clone()).unwrap();
    let l1 = String::from_utf8(lines[1].clone()).unwrap();
    assert!(l0.starts_with("z.zip/one:$pkzip2$1*2*2*0*2*2*cafef00d*0*21*0*2*cafe*1111$/pkzip$"));
    assert!(l1.starts_with("z.zip/two:$pkzip2$1*2*2*0*3*3*01020304*0*21*8*3*0102*222222$/pkzip$"));
}

#[test]
fn entry_with_bad_back_reference_is_skipped() {
    let payload = [7u8; 2];
    let lfh0 = lfh_record(10, 1, 0, 0x6083, 0xcafef00d, 2, 2, b"one", &[], &payload);
    // the second entry's back-reference points past the end of the stream
    let cd0 = cd_record(10, 1, 0, 0xcafef00d, 2, 2, 0, b"one", &[], &[]);
    let cd1 = cd_record(10, 1, 0, 0, 2, 2, 0x00ffffff, b"two", &[], &[]);
    let mut a = lfh0.clone();
    let cd_off = a.len() as u32;
    a.extend(cd0.iter().copied());
    a.extend(cd1.iter().copied());
    a.extend(eocd_record(2, (cd0.len() + cd1.len()) as u32, cd_off));
    let mut ctx = construct_zip(b"z.zip".to_vec(), &a).unwrap();
    assert_eq!(ctx.cd.len(), 2);
    assert_eq!(ctx.lfh.len(), 1);
    let lines = write_and_clean(&mut ctx);
    assert_eq!(lines.len(), 1);
    assert!(String::from_utf8(lines[0].clone()).unwrap().starts_with("z.zip/one:"));
}

#[test]
fn empty_directory_archive_yields_no_lines() {
    let a = eocd_record(0, 0, 0);
    let mut ctx = construct_zip(b"e.zip".to_vec(), &a).unwrap();
    assert_eq!(ctx.cd.len(), 0);
    assert_eq!(ctx.lfh.len(), 0);
    assert_eq!(write_and_clean(&mut ctx).len(), 0);
}

#[test]
fn empty_extra_field_walks_to_no_identifiers() {
    assert_eq!(walk_extra_field(&Vec::new()).unwrap(), Vec::<u16>::new());
}

#[test]
fn ef_trace_lists_identifiers_in_hex() {
    let ids = vec![0x5455u16, 0x1];
    let t = String::from_utf8(zipoxide::classify::ef_trace(&ids)).unwrap();
    assert_eq!(t, "efh 5455 efh 1 ");
    assert_eq!(zipoxide::classify::ef_trace(&Vec::new()), Vec::<u8>::new());
}
