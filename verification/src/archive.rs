//! Archive extraction planning with a path-traversal defense: the entries of
//! a tar+gzip or zip archive held in memory are turned into a verified write
//! plan under a destination directory; any entry whose path escapes the
//! destination aborts the plan with an unsafe-path error.

use vstd::prelude::*;

use crate::errors::AppError;
use crate::fsmodel::spec_ext_of;
use crate::text::chars_end_with;
use crate::text::chars_eq;
use crate::text::chars_string;
use crate::text::str_chars;

verus! {

/// One entry of an archive, as the archive reader hands it over.
pub struct ArchiveEntry {
    /// The entry path as stored in the archive.
    pub path: String,
    /// The entry's contents (empty for directories).
    pub data: Vec<u8>,
    /// Whether the entry is a directory.
    pub is_dir: bool,
}

/// One entry of a zip archive; the name is absent when the library's
/// safe-name resolution rejected the stored path.
pub struct ZipEntryRaw {
    /// The entry's safe relative path, if it has one.
    pub name: Option<String>,
    /// The entry's contents (empty for directories).
    pub data: Vec<u8>,
    /// Whether the entry is a directory.
    pub is_dir: bool,
}

/// One planned write of an extraction: a path under the destination, the
/// bytes to put there, and whether it is a directory to create.
#[derive(Debug)]
pub struct ExtractedFile {
    /// Destination path of the entry.
    pub path: String,
    /// The bytes to write (empty for directories).
    pub data: Vec<u8>,
    /// Whether the entry is a directory.
    pub is_dir: bool,
}

/// The view of an archive entry.
pub open spec fn spec_entry_views(s: Seq<ArchiveEntry>) -> Seq<(Seq<char>, Seq<u8>, bool)> {
    s.map_values(|e: ArchiveEntry| (e.path@, e.data@, e.is_dir))
}

/// The view of a zip entry.
pub open spec fn spec_zip_entry_views(s: Seq<ZipEntryRaw>) -> Seq<
    (Option<Seq<char>>, Seq<u8>, bool),
> {
    s.map_values(
        |e: ZipEntryRaw|
            (
                match e.name {
                    Some(n) => Some(n@),
                    None => None,
                },
                e.data@,
                e.is_dir,
            ),
    )
}

/// The view of a planned write.
pub open spec fn spec_plan_views(s: Seq<ExtractedFile>) -> Seq<(Seq<char>, Seq<u8>, bool)> {
    s.map_values(|e: ExtractedFile| (e.path@, e.data@, e.is_dir))
}

/// What a tar+gzip archive holds: the entries (path, contents, directory
/// flag) that reading the given bytes yields, or nothing when the bytes are
/// not a readable archive. The entries are a function of the bytes alone.
pub uninterp spec fn tar_gz_entries_of(bytes: Seq<u8>) -> Option<Seq<(Seq<char>, Seq<u8>, bool)>>;

/// What a zip archive holds: for each entry its safe enclosed name (absent
/// when the stored path is rejected as unsafe), contents and directory flag;
/// nothing when the bytes are not a readable archive. The entries are a
/// function of the bytes alone.
pub uninterp spec fn zip_entries_of(bytes: Seq<u8>) -> Option<
    Seq<(Option<Seq<char>>, Seq<u8>, bool)>,
>;

/// Relies on `flate2::read::GzDecoder`, `tar::Archive::entries`,
/// `tar::Entry::{path, header}` and `Read::read_to_end`: reads every entry of
/// a tar+gzip archive held in memory. The result depends on the bytes alone
/// and is named `tar_gz_entries_of`.
#[verifier::external_body]
fn tar_gz_entries(bytes: &Vec<u8>) -> (r: Result<Vec<ArchiveEntry>, String>)
    ensures
        match r {
            Ok(es) => tar_gz_entries_of(bytes@) == Some(spec_entry_views(es@)),
            Err(_) => tar_gz_entries_of(bytes@) is None,
        },
{
    let gz = flate2::read::GzDecoder::new(&bytes[..]);
    let mut archive = tar::Archive::new(gz);
    let mut out: Vec<ArchiveEntry> = Vec::new();
    for entry in archive.entries().map_err(|e| e.to_string())? {
        let mut entry = entry.map_err(|e| e.to_string())?;
        let path = entry.path().map_err(|e| e.to_string())?.to_string_lossy().to_string();
        let is_dir = entry.header().entry_type().is_dir();
        let mut data: Vec<u8> = Vec::new();
        std::io::Read::read_to_end(&mut entry, &mut data).map_err(|e| e.to_string())?;
        out.push(ArchiveEntry { path, data, is_dir });
    }
    Ok(out)
}

/// Relies on `zip::ZipArchive::{new, len, by_index}`,
/// `ZipFile::{enclosed_name, is_dir}` and `Read::read_to_end`: reads every
/// entry of a zip archive held in memory; `enclosed_name` itself rejects
/// unsafe stored paths, which come back as absent names. The result depends
/// on the bytes alone and is named `zip_entries_of`.
#[verifier::external_body]
fn zip_entries(bytes: &Vec<u8>) -> (r: Result<Vec<ZipEntryRaw>, String>)
    ensures
        match r {
            Ok(es) => zip_entries_of(bytes@) == Some(spec_zip_entry_views(es@)),
            Err(_) => zip_entries_of(bytes@) is None,
        },
{
    let cursor = std::io::Cursor::new(bytes.as_slice());
    let mut archive = zip::ZipArchive::new(cursor).map_err(|e| e.to_string())?;
    let mut out: Vec<ZipEntryRaw> = Vec::new();
    for i in 0..archive.len() {
        let mut file = archive.by_index(i).map_err(|e| e.to_string())?;
        let name = file.enclosed_name().map(|p| p.to_string_lossy().to_string());
        let is_dir = file.is_dir();
        let mut data: Vec<u8> = Vec::new();
        std::io::Read::read_to_end(&mut file, &mut data).map_err(|e| e.to_string())?;
        out.push(ZipEntryRaw { name, data, is_dir });
    }
    Ok(out)
}

// === the path-traversal defense ===

/// Splits on a separator, scanning from the left; a trailing empty segment
/// is dropped.
pub open spec fn spec_split_sep_acc(s: Seq<char>, sep: char, cur: Seq<char>) -> Seq<Seq<char>>
    decreases s.len(),
{
    if s.len() == 0 {
        if cur.len() == 0 {
            Seq::empty()
        } else {
            seq![cur]
        }
    } else if s[0] == sep {
        seq![cur] + spec_split_sep_acc(s.skip(1), sep, Seq::empty())
    } else {
        spec_split_sep_acc(s.skip(1), sep, cur.push(s[0]))
    }
}

/// The segments of a path, split on `/`.
pub open spec fn spec_split_slash(s: Seq<char>) -> Seq<Seq<char>> {
    spec_split_sep_acc(s, '/', Seq::empty())
}

/// Splits on either path separator (`/` or `\`), scanning from the left; a
/// trailing empty segment is dropped. Archive entries may carry either
/// convention, and a traversal step must not hide behind the other one.
pub open spec fn spec_split_path_acc(s: Seq<char>, cur: Seq<char>) -> Seq<Seq<char>>
    decreases s.len(),
{
    if s.len() == 0 {
        if cur.len() == 0 {
            Seq::empty()
        } else {
            seq![cur]
        }
    } else if s[0] == '/' || s[0] == '\\' {
        seq![cur] + spec_split_path_acc(s.skip(1), Seq::empty())
    } else {
        spec_split_path_acc(s.skip(1), cur.push(s[0]))
    }
}

/// The segments of an archive entry path, split on both separators.
pub open spec fn spec_split_path(s: Seq<char>) -> Seq<Seq<char>> {
    spec_split_path_acc(s, Seq::empty())
}

/// Splits a character vector on both path separators.
fn split_path(v: &Vec<char>) -> (r: Vec<Vec<char>>)
    ensures
        r@.map_values(|x: Vec<char>| x@) == spec_split_path(v@),
{
    let mut out: Vec<Vec<char>> = Vec::new();
    let mut cur: Vec<char> = Vec::new();
    let mut i: usize = 0;
    assert(v@.skip(0) =~= v@);
    assert(out@.map_values(|x: Vec<char>| x@) =~= Seq::<Seq<char>>::empty());
    while i < v.len()
        invariant
            0 <= i <= v@.len(),
            spec_split_path(v@) == out@.map_values(|x: Vec<char>| x@) + spec_split_path_acc(
                v@.skip(i as int),
                cur@,
            ),
        decreases v@.len() - i,
    {
        let c = v[i];
        assert(v@.skip(i as int)[0] == v@[i as int]);
        assert(v@.skip(i as int).skip(1) =~= v@.skip(i + 1));
        if c == '/' || c == '\\' {
            let ghost before = out@.map_values(|x: Vec<char>| x@);
            out.push(cur);
            cur = Vec::new();
            assert(out@.map_values(|x: Vec<char>| x@) =~= before.push(out@.last()@));
            assert(before + (seq![out@.last()@] + spec_split_path_acc(v@.skip(i + 1), cur@))
                =~= out@.map_values(|x: Vec<char>| x@) + spec_split_path_acc(
                v@.skip(i + 1),
                cur@,
            ));
        } else {
            cur.push(c);
        }
        i = i + 1;
    }
    assert(v@.skip(v@.len() as int) =~= Seq::<char>::empty());
    if cur.len() > 0 {
        let ghost before = out@.map_values(|x: Vec<char>| x@);
        let ghost curv = cur@;
        out.push(cur);
        assert(out@.map_values(|x: Vec<char>| x@) =~= before.push(curv));
        assert(before + seq![curv] =~= before.push(curv));
    } else {
        assert(spec_split_path_acc(Seq::<char>::empty(), cur@) =~= Seq::<Seq<char>>::empty());
        assert(out@.map_values(|x: Vec<char>| x@) + Seq::<Seq<char>>::empty() =~= out@.map_values(
            |x: Vec<char>| x@,
        ));
    }
    out
}

/// Splits a character vector on `/`.
pub(crate) fn split_slash(v: &Vec<char>) -> (r: Vec<Vec<char>>)
    ensures
        r@.map_values(|x: Vec<char>| x@) == spec_split_slash(v@),
{
    let mut out: Vec<Vec<char>> = Vec::new();
    let mut cur: Vec<char> = Vec::new();
    let mut i: usize = 0;
    assert(v@.skip(0) =~= v@);
    assert(out@.map_values(|x: Vec<char>| x@) =~= Seq::<Seq<char>>::empty());
    while i < v.len()
        invariant
            0 <= i <= v@.len(),
            spec_split_slash(v@) == out@.map_values(|x: Vec<char>| x@) + spec_split_sep_acc(
                v@.skip(i as int),
                '/',
                cur@,
            ),
        decreases v@.len() - i,
    {
        let c = v[i];
        assert(v@.skip(i as int)[0] == v@[i as int]);
        assert(v@.skip(i as int).skip(1) =~= v@.skip(i + 1));
        if c == '/' {
            let ghost before = out@.map_values(|x: Vec<char>| x@);
            out.push(cur);
            cur = Vec::new();
            assert(out@.map_values(|x: Vec<char>| x@) =~= before.push(out@.last()@));
            assert(before + (seq![out@.last()@] + spec_split_sep_acc(v@.skip(i + 1), '/', cur@))
                =~= out@.map_values(|x: Vec<char>| x@) + spec_split_sep_acc(
                v@.skip(i + 1),
                '/',
                cur@,
            ));
        } else {
            cur.push(c);
        }
        i = i + 1;
    }
    assert(v@.skip(v@.len() as int) =~= Seq::<char>::empty());
    if cur.len() > 0 {
        let ghost before = out@.map_values(|x: Vec<char>| x@);
        let ghost curv = cur@;
        out.push(cur);
        assert(out@.map_values(|x: Vec<char>| x@) =~= before.push(curv));
        assert(before + seq![curv] =~= before.push(curv));
    } else {
        assert(spec_split_sep_acc(Seq::<char>::empty(), '/', cur@) =~= Seq::<Seq<char>>::empty());
        assert(out@.map_values(|x: Vec<char>| x@) + Seq::<Seq<char>>::empty() =~= out@.map_values(
            |x: Vec<char>| x@,
        ));
    }
    out
}

/// Whether one path segment is forbidden: a parent-directory step or a
/// drive prefix.
pub open spec fn spec_seg_unsafe(g: Seq<char>) -> bool {
    g == seq!['.', '.'] || (g.len() == 2 && g[1] == ':')
}

/// Whether one path segment is skipped: empty (repeated separators) or the
/// current directory.
pub open spec fn spec_seg_skipped(g: Seq<char>) -> bool {
    g.len() == 0 || g == seq!['.']
}

/// Joins the accepted segments under `cur`, from the left; a forbidden
/// segment aborts.
pub open spec fn spec_join_segs(cur: Seq<char>, segs: Seq<Seq<char>>) -> Option<Seq<char>>
    decreases segs.len(),
{
    if segs.len() == 0 {
        Some(cur)
    } else if spec_seg_unsafe(segs[0]) {
        None
    } else if spec_seg_skipped(segs[0]) {
        spec_join_segs(cur, segs.skip(1))
    } else {
        spec_join_segs(cur + seq!['/'] + segs[0], segs.skip(1))
    }
}

/// The safe join of an archive entry path under a base directory: absolute
/// paths, parent-directory components and drive prefixes are rejected;
/// current-directory and empty components are skipped; the rest are appended
/// one by one. Both `/` and `\` separate components, so a traversal step
/// cannot hide behind the other platform's convention.
pub open spec fn spec_safe_join(base: Seq<char>, entry: Seq<char>) -> Option<Seq<char>> {
    if entry.len() > 0 && (entry[0] == '/' || entry[0] == '\\') {
        None
    } else {
        spec_join_segs(base, spec_split_path(entry))
    }
}

/// Safely joins an archive entry path under `base`: rejects absolute paths,
/// parent-directory components and drive prefixes with an unsafe-path error.
pub fn safe_join(base: &str, entry: &str) -> (r: Result<String, AppError>)
    ensures
        match r {
            Ok(p) => spec_safe_join(base@, entry@) == Some(p@),
            Err(e) => spec_safe_join(base@, entry@) is None && e is UnsafePath,
        },
{
    let ev = str_chars(entry);
    if ev.len() > 0 && (ev[0] == '/' || ev[0] == '\\') {
        return Err(AppError::UnsafePath("absolute path in archive entry".to_owned()));
    }
    let segs = split_path(&ev);
    let ghost segviews = segs@.map_values(|x: Vec<char>| x@);
    let mut cur: Vec<char> = str_chars(base);
    let mut i: usize = 0;
    assert(segviews.skip(0) =~= segviews);
    while i < segs.len()
        invariant
            0 <= i <= segs@.len(),
            segviews == segs@.map_values(|x: Vec<char>| x@),
            segviews == spec_split_path(entry@),
            !(entry@.len() > 0 && (entry@[0] == '/' || entry@[0] == '\\')),
            spec_join_segs(base@, segviews) == spec_join_segs(cur@, segviews.skip(i as int)),
        decreases segs@.len() - i,
    {
        assert(segviews.skip(i as int)[0] == segviews[i as int]);
        assert(segviews.skip(i as int).skip(1) =~= segviews.skip(i + 1));
        let g = &segs[i];
        let is_parent = g.len() == 2 && g[0] == '.' && g[1] == '.';
        let is_drive = g.len() == 2 && g[1] == ':';
        if is_parent || is_drive {
            assert(spec_seg_unsafe(segviews[i as int])) by {
                if is_parent {
                    assert(segviews[i as int] =~= seq!['.', '.']);
                }
            }
            return Err(AppError::UnsafePath("unsafe path in archive entry".to_owned()));
        }
        assert(!spec_seg_unsafe(segviews[i as int])) by {
            if segviews[i as int] == seq!['.', '.'] {
                assert(g@[0] == '.' && g@[1] == '.' && g@.len() == 2);
            }
        }
        let is_skip = g.len() == 0 || (g.len() == 1 && g[0] == '.');
        if !is_skip {
            assert(!spec_seg_skipped(segviews[i as int])) by {
                if segviews[i as int] == seq!['.'] {
                    assert(g@.len() == 1 && g@[0] == '.');
                }
            }
            let ghost before = cur@;
            cur.push('/');
            let mut j: usize = 0;
            while j < g.len()
                invariant
                    0 <= j <= g@.len(),
                    cur@ =~= before + seq!['/'] + g@.take(j as int),
                decreases g@.len() - j,
            {
                cur.push(g[j]);
                j = j + 1;
            }
            assert(g@.take(g@.len() as int) =~= g@);
        } else {
            assert(spec_seg_skipped(segviews[i as int])) by {
                if g@.len() == 1 && g@[0] == '.' {
                    assert(segviews[i as int] =~= seq!['.']);
                }
            }
        }
        i = i + 1;
    }
    assert(segviews.skip(segs@.len() as int) =~= Seq::<Seq<char>>::empty());
    Ok(chars_string(&cur))
}

// === extraction plans ===

/// The write plan of a list of archive entries under `dest`: each entry at
/// its safe join, or nothing when any entry is unsafe.
pub open spec fn spec_plan_entries(dest: Seq<char>, es: Seq<(Seq<char>, Seq<u8>, bool)>) -> Option<
    Seq<(Seq<char>, Seq<u8>, bool)>,
>
    decreases es.len(),
{
    if es.len() == 0 {
        Some(Seq::empty())
    } else {
        match spec_safe_join(dest, es[0].0) {
            None => None,
            Some(p) => match spec_plan_entries(dest, es.skip(1)) {
                None => None,
                Some(t) => Some(seq![(p, es[0].1, es[0].2)] + t),
            },
        }
    }
}

/// Plans the writes of a list of tar entries under `dest`: every entry path
/// is safe-joined; the first unsafe path aborts the whole plan with an
/// unsafe-path error and no write is planned.
pub fn plan_extract_entries(entries: Vec<ArchiveEntry>, dest: &str) -> (r: Result<
    Vec<ExtractedFile>,
    AppError,
>)
    ensures
        match r {
            Ok(p) => spec_plan_entries(dest@, spec_entry_views(entries@)) == Some(
                spec_plan_views(p@),
            ),
            Err(e) => spec_plan_entries(dest@, spec_entry_views(entries@)) is None
                && e is UnsafePath,
        },
{
    let ghost orig = spec_entry_views(entries@);
    let mut es = entries;
    let mut out: Vec<ExtractedFile> = Vec::new();
    assert(spec_plan_views(out@) =~= Seq::<(Seq<char>, Seq<u8>, bool)>::empty());
    loop
        invariant
            orig == spec_entry_views(entries@),
            spec_plan_entries(dest@, orig) == (match spec_plan_entries(
                dest@,
                spec_entry_views(es@),
            ) {
                None => None::<Seq<(Seq<char>, Seq<u8>, bool)>>,
                Some(t) => Some(spec_plan_views(out@) + t),
            }),
        decreases es@.len(),
    {
        if es.len() == 0 {
            assert(spec_plan_views(out@) + Seq::<(Seq<char>, Seq<u8>, bool)>::empty()
                =~= spec_plan_views(out@));
            return Ok(out);
        }
        let ghost esv = spec_entry_views(es@);
        let e = es.remove(0);
        assert(esv[0] == (e.path@, e.data@, e.is_dir));
        assert(spec_entry_views(es@) =~= esv.skip(1));
        match safe_join(dest, e.path.as_str()) {
            Ok(p) => {
                let ghost before = spec_plan_views(out@);
                let ghost pv = p@;
                let ghost dv = e.data@;
                let ghost isd = e.is_dir;
                out.push(ExtractedFile { path: p, data: e.data, is_dir: e.is_dir });
                assert(spec_plan_views(out@) =~= before.push((pv, dv, isd)));
                proof {
                    if spec_plan_entries(dest@, esv.skip(1)) is Some {
                        assert(before + (seq![(pv, dv, isd)] + spec_plan_entries(
                            dest@,
                            esv.skip(1),
                        )->0) =~= spec_plan_views(out@) + spec_plan_entries(
                            dest@,
                            esv.skip(1),
                        )->0);
                    }
                }
            },
            Err(err) => {
                return Err(err);
            },
        }
    }
}

/// The write plan of a list of zip entries under `dest`: each entry with a
/// safe enclosed name goes to `dest/<name>`; an entry whose stored path was
/// rejected aborts the plan.
pub open spec fn spec_plan_zip_entries(
    dest: Seq<char>,
    es: Seq<(Option<Seq<char>>, Seq<u8>, bool)>,
) -> Option<Seq<(Seq<char>, Seq<u8>, bool)>>
    decreases es.len(),
{
    if es.len() == 0 {
        Some(Seq::empty())
    } else {
        match es[0].0 {
            None => None,
            Some(n) => match spec_plan_zip_entries(dest, es.skip(1)) {
                None => None,
                Some(t) => Some(seq![(dest + seq!['/'] + n, es[0].1, es[0].2)] + t),
            },
        }
    }
}

/// Plans the writes of a list of zip entries under `dest`: entries rejected
/// by the safe-name resolution abort the plan with an unsafe-path error.
pub fn plan_zip_entries(entries: Vec<ZipEntryRaw>, dest: &str) -> (r: Result<
    Vec<ExtractedFile>,
    AppError,
>)
    ensures
        match r {
            Ok(p) => spec_plan_zip_entries(dest@, spec_zip_entry_views(entries@)) == Some(
                spec_plan_views(p@),
            ),
            Err(e) => spec_plan_zip_entries(dest@, spec_zip_entry_views(entries@)) is None
                && e is UnsafePath,
        },
{
    let ghost orig = spec_zip_entry_views(entries@);
    let mut es = entries;
    let mut out: Vec<ExtractedFile> = Vec::new();
    assert(spec_plan_views(out@) =~= Seq::<(Seq<char>, Seq<u8>, bool)>::empty());
    loop
        invariant
            orig == spec_zip_entry_views(entries@),
            spec_plan_zip_entries(dest@, orig) == (match spec_plan_zip_entries(
                dest@,
                spec_zip_entry_views(es@),
            ) {
                None => None::<Seq<(Seq<char>, Seq<u8>, bool)>>,
                Some(t) => Some(spec_plan_views(out@) + t),
            }),
        decreases es@.len(),
    {
        if es.len() == 0 {
            assert(spec_plan_views(out@) + Seq::<(Seq<char>, Seq<u8>, bool)>::empty()
                =~= spec_plan_views(out@));
            return Ok(out);
        }
        let ghost esv = spec_zip_entry_views(es@);
        let e = es.remove(0);
        assert(esv[0] == (
            match e.name {
                Some(n) => Some(n@),
                None => None::<Seq<char>>,
            },
            e.data@,
            e.is_dir,
        ));
        assert(spec_zip_entry_views(es@) =~= esv.skip(1));
        match e.name {
            Some(n) => {
                let mut path: Vec<char> = str_chars(dest);
                path.push('/');
                let nv = str_chars(n.as_str());
                let ghost before_path = path@;
                let mut j: usize = 0;
                while j < nv.len()
                    invariant
                        0 <= j <= nv@.len(),
                        path@ =~= before_path + nv@.take(j as int),
                    decreases nv@.len() - j,
                {
                    path.push(nv[j]);
                    j = j + 1;
                }
                assert(nv@.take(nv@.len() as int) =~= nv@);
                assert(path@ =~= dest@ + seq!['/'] + n@);
                let ghost pv = path@;
                let ghost dv = e.data@;
                let ghost isd = e.is_dir;
                let ghost before = spec_plan_views(out@);
                out.push(
                    ExtractedFile { path: chars_string(&path), data: e.data, is_dir: e.is_dir },
                );
                assert(spec_plan_views(out@) =~= before.push((pv, dv, isd)));
                proof {
                    if spec_plan_zip_entries(dest@, esv.skip(1)) is Some {
                        assert(before + (seq![(pv, dv, isd)] + spec_plan_zip_entries(
                            dest@,
                            esv.skip(1),
                        )->0) =~= spec_plan_views(out@) + spec_plan_zip_entries(
                            dest@,
                            esv.skip(1),
                        )->0);
                    }
                }
            },
            None => {
                return Err(AppError::UnsafePath("unsafe path in zip entry".to_owned()));
            },
        }
    }
}

/// One top-level entry of a directory listing.
pub struct DirEntryInfo {
    /// The entry's name.
    pub name: String,
    /// Whether the entry is a directory.
    pub is_dir: bool,
}

/// The views of a directory listing.
pub open spec fn spec_dir_entry_views(s: Seq<DirEntryInfo>) -> Seq<(Seq<char>, bool)> {
    s.map_values(|e: DirEntryInfo| (e.name@, e.is_dir))
}

/// Whether a top-level entry is hidden: its name starts with a dot.
pub open spec fn spec_entry_hidden(e: (Seq<char>, bool)) -> bool {
    e.0.len() > 0 && e.0[0] == '.'
}

/// The non-hidden entries of a listing, in order.
pub open spec fn spec_visible_entries(s: Seq<(Seq<char>, bool)>) -> Seq<(Seq<char>, bool)>
    decreases s.len(),
{
    if s.len() == 0 {
        s
    } else {
        let r = spec_visible_entries(s.drop_last());
        if spec_entry_hidden(s.last()) {
            r
        } else {
            r.push(s.last())
        }
    }
}

/// The single root of an extraction directory: its one non-hidden entry,
/// when there is exactly one and it is a directory; otherwise none.
pub open spec fn spec_single_root(s: Seq<(Seq<char>, bool)>) -> Option<Seq<char>> {
    let v = spec_visible_entries(s);
    if v.len() == 1 && v[0].1 {
        Some(v[0].0)
    } else {
        None
    }
}

/// Finds the conventional single top-level payload directory: returns the
/// one non-hidden entry exactly when it is alone and a directory; with zero
/// or several non-hidden entries, or a lone file, returns none.
pub fn find_single_root_dir(entries: &Vec<DirEntryInfo>) -> (r: Option<String>)
    ensures
        match r {
            Some(p) => spec_single_root(spec_dir_entry_views(entries@)) == Some(p@),
            None => spec_single_root(spec_dir_entry_views(entries@)) is None,
        },
{
    let ghost views = spec_dir_entry_views(entries@);
    let mut count: usize = 0;
    let mut first_name: Option<String> = None;
    let mut first_is_dir: bool = false;
    let mut i: usize = 0;
    assert(views.take(0) =~= Seq::<(Seq<char>, bool)>::empty());
    while i < entries.len()
        invariant
            0 <= i <= entries@.len(),
            views == spec_dir_entry_views(entries@),
            count <= i,
            count == spec_visible_entries(views.take(i as int)).len(),
            count == 0 <==> first_name is None,
            count > 0 ==> {
                &&& first_name is Some
                &&& spec_visible_entries(views.take(i as int))[0] == (
                    first_name->0@,
                    first_is_dir,
                )
            },
        decreases entries@.len() - i,
    {
        assert(views.take(i + 1).drop_last() =~= views.take(i as int));
        assert(views.take(i + 1).last() == views[i as int]);
        let name = &entries[i].name;
        let nv = str_chars(name.as_str());
        let hidden = nv.len() > 0 && nv[0] == '.';
        assert(hidden == spec_entry_hidden(views[i as int]));
        if !hidden {
            if count == 0 {
                first_name = Some(name.clone());
                first_is_dir = entries[i].is_dir;
            }
            count = count + 1;
        }
        i = i + 1;
    }
    assert(views.take(entries@.len() as int) =~= views);
    if count == 1 && first_is_dir {
        first_name
    } else {
        None
    }
}

// === format dispatch and whole-archive planning ===

/// The archive formats the extractor reads.
#[derive(Clone, Copy, PartialEq, Eq, Structural, Debug)]
pub enum ArchiveKind {
    /// A gzip-compressed tar archive.
    TarGz,
    /// A zip archive.
    Zip,
}

/// The format a file name selects: a `.tar.gz` suffix (checked on the whole
/// name) or a bare `gz` extension select tar+gzip; a `zip` extension selects
/// zip; anything else is unsupported.
pub open spec fn spec_archive_kind(name: Seq<char>) -> Option<ArchiveKind> {
    if seq!['.', 't', 'a', 'r', '.', 'g', 'z'].is_suffix_of(name) {
        Some(ArchiveKind::TarGz)
    } else {
        match spec_ext_of(name) {
            Some(e) => if e == seq!['z', 'i', 'p'] {
                Some(ArchiveKind::Zip)
            } else if e == seq!['g', 'z'] {
                Some(ArchiveKind::TarGz)
            } else {
                None
            },
            None => None,
        }
    }
}

/// Chooses the extraction method from the file name; unsupported and
/// extension-less names are rejected.
pub fn archive_kind(file_name: &str) -> (r: Result<ArchiveKind, AppError>)
    ensures
        match r {
            Ok(k) => spec_archive_kind(file_name@) == Some(k),
            Err(e) => spec_archive_kind(file_name@) is None && e is Unsupported,
        },
{
    let nv = str_chars(file_name);
    let mut targz: Vec<char> = Vec::new();
    targz.push('.');
    targz.push('t');
    targz.push('a');
    targz.push('r');
    targz.push('.');
    targz.push('g');
    targz.push('z');
    assert(targz@ =~= seq!['.', 't', 'a', 'r', '.', 'g', 'z']);
    if chars_end_with(&nv, &targz) {
        return Ok(ArchiveKind::TarGz);
    }
    match crate::fsmodel::ext_of_chars(&nv) {
        Some(e) => {
            let mut zip_ext: Vec<char> = Vec::new();
            zip_ext.push('z');
            zip_ext.push('i');
            zip_ext.push('p');
            assert(zip_ext@ =~= seq!['z', 'i', 'p']);
            let mut gz_ext: Vec<char> = Vec::new();
            gz_ext.push('g');
            gz_ext.push('z');
            assert(gz_ext@ =~= seq!['g', 'z']);
            if chars_eq(&e, &zip_ext) {
                Ok(ArchiveKind::Zip)
            } else if chars_eq(&e, &gz_ext) {
                Ok(ArchiveKind::TarGz)
            } else {
                Err(AppError::Unsupported("unsupported archive format".to_owned()))
            }
        },
        None => Err(AppError::Unsupported("file name has no extension".to_owned())),
    }
}

/// The archive-extraction rules: reads archives held in memory, defends
/// against path traversal, and plans the writes under a destination.
pub struct ArchiveService;

impl ArchiveService {
    /// An archive service.
    pub fn new() -> (r: ArchiveService) {
        ArchiveService
    }

    /// Safely joins an archive entry path under `base`.
    pub fn safe_join(&self, base: &str, entry: &str) -> (r: Result<String, AppError>)
        ensures
            match r {
                Ok(p) => spec_safe_join(base@, entry@) == Some(p@),
                Err(e) => spec_safe_join(base@, entry@) is None && e is UnsafePath,
            },
    {
        safe_join(base, entry)
    }

    /// Reads a tar+gzip archive held in memory and plans its extraction
    /// under `dest`: unreadable bytes give a parse error, and an entry path
    /// with a parent-directory, absolute or drive-prefix component gives an
    /// unsafe-path error with nothing planned from any entry.
    pub fn extract_tar_gz(&self, bytes: &Vec<u8>, dest: &str) -> (r: Result<
        Vec<ExtractedFile>,
        AppError,
    >)
        ensures
            match r {
                Ok(p) => {
                    &&& tar_gz_entries_of(bytes@) is Some
                    &&& spec_plan_entries(dest@, tar_gz_entries_of(bytes@)->0) == Some(
                        spec_plan_views(p@),
                    )
                },
                Err(e) => match tar_gz_entries_of(bytes@) {
                    None => e is Parse,
                    Some(es) => spec_plan_entries(dest@, es) is None && e is UnsafePath,
                },
            },
    {
        match tar_gz_entries(bytes) {
            Ok(es) => plan_extract_entries(es, dest),
            Err(m) => Err(AppError::Parse(m)),
        }
    }

    /// Reads a zip archive held in memory and plans its extraction under
    /// `dest`: unreadable bytes give a parse error, and an entry whose
    /// stored path the safe-name resolution rejects gives an unsafe-path
    /// error with nothing planned from any entry.
    pub fn extract_zip(&self, bytes: &Vec<u8>, dest: &str) -> (r: Result<
        Vec<ExtractedFile>,
        AppError,
    >)
        ensures
            match r {
                Ok(p) => {
                    &&& zip_entries_of(bytes@) is Some
                    &&& spec_plan_zip_entries(dest@, zip_entries_of(bytes@)->0) == Some(
                        spec_plan_views(p@),
                    )
                },
                Err(e) => match zip_entries_of(bytes@) {
                    None => e is Parse,
                    Some(es) => spec_plan_zip_entries(dest@, es) is None && e is UnsafePath,
                },
            },
    {
        match zip_entries(bytes) {
            Ok(es) => plan_zip_entries(es, dest),
            Err(m) => Err(AppError::Parse(m)),
        }
    }

    /// Dispatches on the archive file name and plans the extraction with
    /// the matching reader.
    pub fn extract_auto(&self, file_name: &str, bytes: &Vec<u8>, dest: &str) -> (r: Result<
        Vec<ExtractedFile>,
        AppError,
    >)
        ensures
            spec_archive_kind(file_name@) is None ==> r is Err,
            spec_archive_kind(file_name@) == Some(ArchiveKind::TarGz) && r is Ok
                ==> tar_gz_entries_of(bytes@) is Some && spec_plan_entries(
                dest@,
                tar_gz_entries_of(bytes@)->0,
            ) == Some(spec_plan_views(r->Ok_0@)),
            spec_archive_kind(file_name@) == Some(ArchiveKind::Zip) && r is Ok
                ==> zip_entries_of(bytes@) is Some && spec_plan_zip_entries(
                dest@,
                zip_entries_of(bytes@)->0,
            ) == Some(spec_plan_views(r->Ok_0@)),
    {
        match archive_kind(file_name)? {
            ArchiveKind::TarGz => self.extract_tar_gz(bytes, dest),
            ArchiveKind::Zip => self.extract_zip(bytes, dest),
        }
    }

    /// Finds the conventional single top-level payload directory of a
    /// listing.
    pub fn find_single_root_dir(&self, entries: &Vec<DirEntryInfo>) -> (r: Option<String>)
        ensures
            match r {
                Some(p) => spec_single_root(spec_dir_entry_views(entries@)) == Some(p@),
                None => spec_single_root(spec_dir_entry_views(entries@)) is None,
            },
    {
        find_single_root_dir(entries)
    }
}

} // verus!
