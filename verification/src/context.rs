use vstd::prelude::*;

use crate::cd::{cd_parse_ok, cd_walk_views, CD, CDView};
use crate::eocd::{eocd_sig_ok, spec_eocd, EOCD};
use crate::error::ZipError;
use crate::lfh::{spec_lfh, LFH, LFHView};
use crate::serialize::{handle_file_entry, spec_entry_line};

verus! {

/// Aggregates one archive: its display name, the parsed directory and
/// local-header records, the trailer, the check-byte count of the output
/// protocol, and a scratch verification-byte string.
#[derive(Debug)]
pub struct Zipctx {
    pub zipname: Vec<u8>,
    pub lfh: Vec<LFH>,
    pub cd: Vec<CD>,
    pub eocd: EOCD,
    pub check_bytes: u8,
    pub cs: Vec<u8>,
}

/// The local headers read for the given directory entries, in directory
/// order. An entry whose local header fails to parse is skipped; its failure
/// is scoped to that entry alone.
pub open spec fn spec_lfhs(a: Seq<u8>, cds: Seq<CDView>) -> Seq<LFHView>
    decreases cds.len(),
{
    if cds.len() == 0 {
        Seq::empty()
    } else {
        let rest = spec_lfhs(a, cds.drop_last());
        match spec_lfh(a, cds.last()) {
            Ok(l) => rest.push(l),
            Err(_) => rest,
        }
    }
}

/// The output records of the qualifying entries among `ls`, in directory
/// order. Entries that are excluded or fail classification produce no line.
pub open spec fn spec_lines(zipname: Seq<u8>, ls: Seq<LFHView>, check_bytes: u8) -> Seq<Seq<u8>>
    decreases ls.len(),
{
    if ls.len() == 0 {
        Seq::empty()
    } else {
        let rest = spec_lines(zipname, ls.drop_last(), check_bytes);
        match spec_entry_line(zipname, ls.last(), check_bytes) {
            Ok(line) => rest.push(line),
            Err(_) => rest,
        }
    }
}

impl Zipctx {
    /// Builds an archive context over already-parsed records. The output
    /// protocol uses two check bytes, and the scratch verification-byte
    /// string starts empty.
    pub fn new(zipname: Vec<u8>, lfheaders: Vec<LFH>, cd: Vec<CD>, eocd: EOCD) -> (r: Zipctx)
        ensures
            r.zipname == zipname,
            r.lfh == lfheaders,
            r.cd == cd,
            r.eocd == eocd,
            r.check_bytes == 2,
            r.cs@ == Seq::<u8>::empty(),
    {
        Zipctx { zipname, lfh: lfheaders, cd, eocd, check_bytes: 2, cs: Vec::new() }
    }
}

/// Parses a whole archive held in memory: reads and validates the trailer,
/// walks the central directory, and reads the local header and payload of
/// every directory entry. A trailer or directory failure is fatal for the
/// archive; a local-header failure only skips that entry.
pub fn construct_zip(zipname: Vec<u8>, archive: &Vec<u8>) -> (r: Result<Zipctx, ZipError>)
    ensures
        archive.len() < 22 ==> r == Err::<Zipctx, ZipError>(ZipError::TruncatedArchive),
        archive.len() >= 22 && !eocd_sig_ok(archive@) ==> r == Err::<Zipctx, ZipError>(
            ZipError::MalformedArchive,
        ),
        archive.len() >= 22 && eocd_sig_ok(archive@) && !cd_parse_ok(
            archive@,
            spec_eocd(archive@).cd_offset as int,
            spec_eocd(archive@).sigma_cdr as nat,
            spec_eocd(archive@).cd_size as int,
        ) ==> r == Err::<Zipctx, ZipError>(ZipError::MalformedArchive),
        archive.len() >= 22 && eocd_sig_ok(archive@) && cd_parse_ok(
            archive@,
            spec_eocd(archive@).cd_offset as int,
            spec_eocd(archive@).sigma_cdr as nat,
            spec_eocd(archive@).cd_size as int,
        ) ==> (r matches Ok(ctx) && {
            let e = spec_eocd(archive@);
            let cds = cd_walk_views(archive@, e.cd_offset as int, e.sigma_cdr as nat);
            &&& ctx.zipname@ == zipname@
            &&& ctx.eocd == e
            &&& ctx.cd@.map_values(|c: CD| c@) == cds
            &&& ctx.lfh@.map_values(|l: LFH| l@) == spec_lfhs(archive@, cds)
            &&& ctx.check_bytes == 2
            &&& ctx.cs@ == Seq::<u8>::empty()
        }),
{
    let eocd = match EOCD::new(archive) {
        Ok(e) => e,
        Err(e) => {
            return Err(e);
        },
    };
    let cd = match CD::new(eocd.cd_offset, eocd.sigma_cdr, eocd.cd_size, archive) {
        Ok(v) => v,
        Err(e) => {
            return Err(e);
        },
    };
    let ghost cds = cd_walk_views(archive@, eocd.cd_offset as int, eocd.sigma_cdr as nat);
    let mut lfheaders: Vec<LFH> = Vec::new();
    let mut i: usize = 0;
    while i < cd.len()
        invariant
            i <= cd.len(),
            cd@.map_values(|c: CD| c@) == cds,
            lfheaders@.map_values(|l: LFH| l@) == spec_lfhs(archive@, cds.subrange(0, i as int)),
        decreases cd.len() - i,
    {
        let ghost pre = cds.subrange(0, i as int);
        let ghost post = cds.subrange(0, i + 1);
        proof {
            assert(post.drop_last() =~= pre);
            assert(cds[i as int] == cd@[i as int]@);
        }
        match LFH::new(&cd[i], archive) {
            Ok(l) => {
                lfheaders.push(l);
                proof {
                    assert(lfheaders@.map_values(|l: LFH| l@) =~= spec_lfhs(archive@, post));
                }
            },
            Err(_) => {
                proof {
                    assert(lfheaders@.map_values(|l: LFH| l@) =~= spec_lfhs(archive@, post));
                }
            },
        }
        i += 1;
    }
    proof {
        assert(cds.subrange(0, cds.len() as int) =~= cds);
    }
    Ok(Zipctx::new(zipname, lfheaders, cd, eocd))
}

/// Renders the output records of every qualifying entry held in the context,
/// in directory order, and drains the context's local headers. No line is
/// emitted for an entry that is excluded or whose classification failed.
pub fn write_and_clean(ctx: &mut Zipctx) -> (lines: Vec<Vec<u8>>)
    ensures
        lines@.map_values(|v: Vec<u8>| v@) == spec_lines(
            old(ctx).zipname@,
            old(ctx).lfh@.map_values(|l: LFH| l@),
            old(ctx).check_bytes,
        ),
        final(ctx).lfh@.len() == 0,
        final(ctx).zipname == old(ctx).zipname,
        final(ctx).cd == old(ctx).cd,
        final(ctx).eocd == old(ctx).eocd,
        final(ctx).check_bytes == old(ctx).check_bytes,
        final(ctx).cs == old(ctx).cs,
{
    let ghost lviews = old(ctx).lfh@.map_values(|l: LFH| l@);
    let mut lines: Vec<Vec<u8>> = Vec::new();
    let mut i: usize = 0;
    while i < ctx.lfh.len()
        invariant
            i <= ctx.lfh.len(),
            *ctx == *old(ctx),
            lviews == ctx.lfh@.map_values(|l: LFH| l@),
            lines@.map_values(|v: Vec<u8>| v@) == spec_lines(
                ctx.zipname@,
                lviews.subrange(0, i as int),
                ctx.check_bytes,
            ),
        decreases ctx.lfh.len() - i,
    {
        let ghost pre = lviews.subrange(0, i as int);
        let ghost post = lviews.subrange(0, i + 1);
        proof {
            assert(post.drop_last() =~= pre);
            assert(lviews[i as int] == ctx.lfh@[i as int]@);
        }
        match handle_file_entry(&ctx.zipname, ctx.check_bytes, &ctx.lfh[i]) {
            Ok(line) => {
                lines.push(line);
                proof {
                    assert(lines@.map_values(|v: Vec<u8>| v@) =~= spec_lines(
                        ctx.zipname@,
                        post,
                        ctx.check_bytes,
                    ));
                }
            },
            Err(_) => {
                proof {
                    assert(lines@.map_values(|v: Vec<u8>| v@) =~= spec_lines(
                        ctx.zipname@,
                        post,
                        ctx.check_bytes,
                    ));
                }
            },
        }
        i += 1;
    }
    proof {
        assert(lviews.subrange(0, lviews.len() as int) =~= lviews);
    }
    ctx.lfh = Vec::new();
    lines
}

} // verus!
