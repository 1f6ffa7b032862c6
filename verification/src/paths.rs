//! Container paths and file rules: the derived per-game directory layout,
//! path containment, image-file rules, and cover lookup over directory
//! snapshots.

use vstd::prelude::*;
use vstd::string::StringExecFns;

use crate::config::encode_game_config;
use crate::config::parse_game_config;
use crate::config::spec_encode_config;
use crate::config::spec_opt_view;
use crate::config::spec_parse_config;
use crate::config::spec_str_views;
use crate::config::GameConfig;
use crate::errors::AppError;
use crate::fsmodel::ext_of_chars;
use crate::fsmodel::spec_ext_of;
use crate::fsmodel::DirSnapshot;
use crate::text::chars_eq;
use crate::text::chars_string;
use crate::text::lower_chars;
use crate::text::spec_lower_seq;
use crate::text::str_chars;
use crate::text::str_eq;

verus! {

/// The non-empty entries of a segment list, in order: repeated and trailing
/// separators contribute nothing.
pub open spec fn spec_nonempty_segs(segs: Seq<Seq<char>>) -> Seq<Seq<char>>
    decreases segs.len(),
{
    if segs.len() == 0 {
        Seq::empty()
    } else {
        let r = spec_nonempty_segs(segs.drop_last());
        if segs.last().len() == 0 {
            r
        } else {
            r.push(segs.last())
        }
    }
}

/// Whether `path` lies at or below `root`, component-wise: both must agree
/// on being absolute, and the root's components must be a prefix of the
/// path's. A bare `/` root therefore contains every absolute path, and a
/// trailing separator on either side changes nothing. Both paths are
/// expected in canonical form.
pub open spec fn spec_is_within(path: Seq<char>, root: Seq<char>) -> bool {
    let p_abs = path.len() > 0 && path[0] == '/';
    let r_abs = root.len() > 0 && root[0] == '/';
    p_abs == r_abs && spec_nonempty_segs(crate::archive::spec_split_slash(root)).is_prefix_of(
        spec_nonempty_segs(crate::archive::spec_split_slash(path)),
    )
}

/// The non-empty `/`-separated segments of a path.
fn nonempty_segments(v: &Vec<char>) -> (r: Vec<Vec<char>>)
    ensures
        r@.map_values(|x: Vec<char>| x@) == spec_nonempty_segs(
            crate::archive::spec_split_slash(v@),
        ),
{
    let segs = crate::archive::split_slash(v);
    let ghost sviews = segs@.map_values(|x: Vec<char>| x@);
    let mut out: Vec<Vec<char>> = Vec::new();
    let mut i: usize = 0;
    assert(sviews.take(0) =~= Seq::<Seq<char>>::empty());
    assert(out@.map_values(|x: Vec<char>| x@) =~= spec_nonempty_segs(sviews.take(0)));
    while i < segs.len()
        invariant
            0 <= i <= segs@.len(),
            sviews == segs@.map_values(|x: Vec<char>| x@),
            sviews == crate::archive::spec_split_slash(v@),
            out@.map_values(|x: Vec<char>| x@) == spec_nonempty_segs(sviews.take(i as int)),
        decreases segs@.len() - i,
    {
        assert(sviews.take(i + 1).drop_last() =~= sviews.take(i as int));
        assert(sviews.take(i + 1).last() == sviews[i as int]);
        if segs[i].len() > 0 {
            let ghost before = out@.map_values(|x: Vec<char>| x@);
            let seg = segs[i].clone();
            assert(seg@ == sviews[i as int]);
            out.push(seg);
            assert(out@.map_values(|x: Vec<char>| x@) =~= before.push(sviews[i as int]));
        }
        i = i + 1;
    }
    assert(sviews.take(segs@.len() as int) =~= sviews);
    out
}

/// Decides whether `path` lies within `root`, comparing canonical paths
/// component-wise as the filesystem would.
pub fn is_within_dir(path: &str, root: &str) -> (r: bool)
    ensures
        r == spec_is_within(path@, root@),
{
    let pv = str_chars(path);
    let rv = str_chars(root);
    let p_abs = pv.len() > 0 && pv[0] == '/';
    let r_abs = rv.len() > 0 && rv[0] == '/';
    if p_abs != r_abs {
        return false;
    }
    let ps = nonempty_segments(&pv);
    let rs = nonempty_segments(&rv);
    let ghost psv = ps@.map_values(|x: Vec<char>| x@);
    let ghost rsv = rs@.map_values(|x: Vec<char>| x@);
    if rs.len() > ps.len() {
        return false;
    }
    let mut i: usize = 0;
    while i < rs.len()
        invariant
            0 <= i <= rs@.len(),
            rs@.len() <= ps@.len(),
            psv == ps@.map_values(|x: Vec<char>| x@),
            rsv == rs@.map_values(|x: Vec<char>| x@),
            psv == spec_nonempty_segs(crate::archive::spec_split_slash(path@)),
            rsv == spec_nonempty_segs(crate::archive::spec_split_slash(root@)),
            (path@.len() > 0 && path@[0] == '/') == (root@.len() > 0 && root@[0] == '/'),
            forall|j: int| 0 <= j < i ==> psv[j] == rsv[j],
        decreases rs@.len() - i,
    {
        if !chars_eq(&rs[i], &ps[i]) {
            assert(rsv[i as int] != psv[i as int]);
            assert(!rsv.is_prefix_of(psv));
            return false;
        }
        i = i + 1;
    }
    assert(psv.take(rsv.len() as int) =~= rsv);
    true
}

/// The profile directory of a profile key: `root/profiles/<key>`.
pub open spec fn spec_profile_dir(root: Seq<char>, key: Seq<char>) -> Seq<char> {
    root + "/profiles/"@ + key
}

/// The user-data directory inside a profile.
pub open spec fn spec_user_data_dir(root: Seq<char>, key: Seq<char>) -> Seq<char> {
    spec_profile_dir(root, key) + "/User Data"@
}

/// The crash-report directory inside a profile.
pub open spec fn spec_crash_dir(root: Seq<char>, key: Seq<char>) -> Seq<char> {
    spec_profile_dir(root, key) + "/Crash Reports"@
}

/// The settings-file path inside a profile.
pub open spec fn spec_config_path(root: Seq<char>, key: Seq<char>) -> Seq<char> {
    spec_profile_dir(root, key) + "/settings.toml"@
}

/// The file and path rules of the container layout.
pub struct FileService;

impl FileService {
    /// A file service.
    pub fn new() -> (r: FileService) {
        FileService
    }

    /// The profile directory of a key: `root/profiles/<key>`.
    pub fn game_profile_dir(&self, container_root: &str, profile_key: &str) -> (r: String)
        ensures
            r@ == spec_profile_dir(container_root@, profile_key@),
    {
        let mut s = container_root.to_owned();
        s.append("/profiles/");
        s.append(profile_key);
        s
    }

    /// The user-data directory of a key.
    pub fn game_user_data_dir(&self, container_root: &str, profile_key: &str) -> (r: String)
        ensures
            r@ == spec_user_data_dir(container_root@, profile_key@),
    {
        let mut s = self.game_profile_dir(container_root, profile_key);
        s.append("/User Data");
        s
    }

    /// The crash-report directory of a key.
    pub fn game_crash_dir(&self, container_root: &str, profile_key: &str) -> (r: String)
        ensures
            r@ == spec_crash_dir(container_root@, profile_key@),
    {
        let mut s = self.game_profile_dir(container_root, profile_key);
        s.append("/Crash Reports");
        s
    }

    /// The settings-file path of a key.
    pub fn game_config_path(&self, container_root: &str, profile_key: &str) -> (r: String)
        ensures
            r@ == spec_config_path(container_root@, profile_key@),
    {
        let mut s = self.game_profile_dir(container_root, profile_key);
        s.append("/settings.toml");
        s
    }

    /// The directories a launch must ensure exist, in creation order:
    /// profile, user data, crash reports. Creating them again is harmless,
    /// so the caller may run this before every launch.
    pub fn ensure_game_dirs(&self, container_root: &str, profile_key: &str) -> (r: Vec<String>)
        ensures
            r@.len() == 3,
            r@[0]@ == spec_profile_dir(container_root@, profile_key@),
            r@[1]@ == spec_user_data_dir(container_root@, profile_key@),
            r@[2]@ == spec_crash_dir(container_root@, profile_key@),
    {
        let mut v: Vec<String> = Vec::new();
        v.push(self.game_profile_dir(container_root, profile_key));
        v.push(self.game_user_data_dir(container_root, profile_key));
        v.push(self.game_crash_dir(container_root, profile_key));
        v
    }

    /// The rename a profile-key migration performs, if any: from the old
    /// key's directory to the new key's, only when the keys differ, the old
    /// directory exists and the new one does not.
    pub fn migrate_profile_dir(
        &self,
        container_root: &str,
        old_key: &str,
        new_key: &str,
        old_dir_exists: bool,
        new_dir_exists: bool,
    ) -> (r: Option<(String, String)>)
        ensures
            match r {
                Some(p) => {
                    &&& old_key@ != new_key@
                    &&& old_dir_exists
                    &&& !new_dir_exists
                    &&& p.0@ == spec_profile_dir(container_root@, old_key@)
                    &&& p.1@ == spec_profile_dir(container_root@, new_key@)
                },
                None => old_key@ == new_key@ || !old_dir_exists || new_dir_exists,
            },
    {
        if str_eq(old_key, new_key) {
            return None;
        }
        if old_dir_exists && !new_dir_exists {
            Some(
                (
                    self.game_profile_dir(container_root, old_key),
                    self.game_profile_dir(container_root, new_key),
                ),
            )
        } else {
            None
        }
    }

    /// Reads a configuration from settings-file text.
    pub fn read_game_config(&self, content: &str) -> (r: Result<GameConfig, AppError>)
        ensures
            match r {
                Ok(c) => spec_parse_config(content@) == Some(
                    (
                        c.engine_type@,
                        c.entry_path@,
                        spec_opt_view(c.runtime_version),
                        c.sandbox_home,
                        spec_opt_view(c.cover_file),
                        spec_str_views(c.args@),
                    ),
                ),
                Err(e) => spec_parse_config(content@) is None && e is Parse,
            },
    {
        parse_game_config(content)
    }

    /// Writes a configuration as settings-file text.
    pub fn write_game_config(&self, config: &GameConfig) -> (r: String)
        ensures
            r@ == spec_encode_config(config),
    {
        encode_game_config(config)
    }

    /// Whether a path names an image file by extension.
    pub fn is_image_file(&self, path: &str) -> (r: bool)
        ensures
            r == spec_is_image_file(path@),
    {
        let v = str_chars(path);
        match ext_of_chars(&v) {
            Some(e) => {
                let le = lower_chars(&e);
                chars_eq(&le, &str_chars("png")) || chars_eq(&le, &str_chars("jpg")) || chars_eq(
                    &le,
                    &str_chars("jpeg"),
                ) || chars_eq(&le, &str_chars("webp")) || chars_eq(&le, &str_chars("bmp"))
                    || chars_eq(&le, &str_chars("ico"))
            },
            None => false,
        }
    }

    /// Finds the first image file directly inside any of the given
    /// directories, trying the directories in order.
    pub fn find_image_in_dirs(&self, snap: &DirSnapshot, dirs: &Vec<String>) -> (r: Option<String>)
        ensures
            match r {
                Some(p) => spec_find_image_in_dirs(snap, spec_str_views(dirs@), 0) == Some(p@),
                None => spec_find_image_in_dirs(snap, spec_str_views(dirs@), 0) is None,
            },
    {
        let ghost dviews = spec_str_views(dirs@);
        let mut di: usize = 0;
        while di < dirs.len()
            invariant
                0 <= di <= dirs@.len(),
                dviews == spec_str_views(dirs@),
                spec_find_image_in_dirs(snap, dviews, 0) == spec_find_image_in_dirs(
                    snap,
                    dviews,
                    di as int,
                ),
            decreases dirs@.len() - di,
        {
            if snap.has_dir(dirs[di].as_str()) {
                match self.first_image_in_dir(snap, dirs[di].as_str()) {
                    Some(p) => {
                        return Some(p);
                    },
                    None => {},
                }
            }
            di = di + 1;
        }
        None
    }

    /// Finds the first image file directly inside one directory of the
    /// snapshot.
    fn first_image_in_dir(&self, snap: &DirSnapshot, dir: &str) -> (r: Option<String>)
        ensures
            match r {
                Some(p) => spec_first_image_in_dir(snap, dir@, 0) == Some(p@),
                None => spec_first_image_in_dir(snap, dir@, 0) is None,
            },
    {
        let mut i: usize = 0;
        while i < snap.files.len()
            invariant
                0 <= i <= snap.files@.len(),
                spec_first_image_in_dir(snap, dir@, 0) == spec_first_image_in_dir(
                    snap,
                    dir@,
                    i as int,
                ),
            decreases snap.files@.len() - i,
        {
            let p = &snap.files[i].path;
            if self.path_is_image_in(p.as_str(), dir) {
                return Some(p.clone());
            }
            i = i + 1;
        }
        None
    }

    /// Whether `p` names an image file directly inside `dir`.
    fn path_is_image_in(&self, p: &str, dir: &str) -> (r: bool)
        ensures
            r == spec_is_image_in(p@, dir@),
    {
        let pv = str_chars(p);
        let mut prefix = str_chars(dir);
        prefix.push('/');
        if !crate::text::chars_start_with(&pv, &prefix) {
            return false;
        }
        let mut rest: Vec<char> = Vec::new();
        let mut j: usize = prefix.len();
        while j < pv.len()
            invariant
                prefix@.len() <= j <= pv@.len(),
                rest@ =~= pv@.subrange(prefix@.len() as int, j as int),
            decreases pv@.len() - j,
        {
            rest.push(pv[j]);
            j = j + 1;
        }
        assert(rest@ =~= pv@.skip(prefix@.len() as int));
        if crate::text::chars_contain_char(&rest, '/') {
            return false;
        }
        self.is_image_file(p)
    }

    /// Finds a cover image for a game directory: tries the fixed candidate
    /// paths first, then any image in the conventional icon directories.
    pub fn find_cover_image(&self, snap: &DirSnapshot) -> (r: Option<String>)
        ensures
            match r {
                Some(p) => spec_find_cover_image(snap) == Some(p@),
                None => spec_find_cover_image(snap) is None,
            },
    {
        let cands = cover_candidates();
        let ghost cviews = spec_str_views(cands@);
        let mut i: usize = 0;
        while i < cands.len()
            invariant
                0 <= i <= cands@.len(),
                cviews == spec_str_views(cands@),
                cviews == spec_cover_candidates(),
                spec_first_existing(snap, cviews, 0) == spec_first_existing(snap, cviews, i as int),
            decreases cands@.len() - i,
        {
            if snap.has_file(cands[i].as_str()) {
                return Some(cands[i].clone());
            }
            i = i + 1;
        }
        self.find_icon_dir_image(snap)
    }

    /// Finds any image in the conventional icon directories.
    pub fn find_icon_dir_image(&self, snap: &DirSnapshot) -> (r: Option<String>)
        ensures
            match r {
                Some(p) => spec_find_image_in_dirs(snap, spec_icon_dirs(), 0) == Some(p@),
                None => spec_find_image_in_dirs(snap, spec_icon_dirs(), 0) is None,
            },
    {
        let mut dirs: Vec<String> = Vec::new();
        dirs.push("icon".to_owned());
        dirs.push("icons".to_owned());
        dirs.push("www/icon".to_owned());
        dirs.push("www/icons".to_owned());
        assert(spec_str_views(dirs@) =~= spec_icon_dirs());
        self.find_image_in_dirs(snap, &dirs)
    }
}

/// Whether a path names an image file: its case-folded extension is one of
/// the recognised image extensions.
pub open spec fn spec_is_image_file(p: Seq<char>) -> bool {
    match spec_ext_of(p) {
        Some(e) => {
            let l = spec_lower_seq(e);
            l == "png"@ || l == "jpg"@ || l == "jpeg"@ || l == "webp"@ || l == "bmp"@ || l
                == "ico"@
        },
        None => false,
    }
}

/// Whether `p` is an image file directly inside `dir`.
pub open spec fn spec_is_image_in(p: Seq<char>, dir: Seq<char>) -> bool {
    let prefix = dir.push('/');
    prefix.is_prefix_of(p) && !p.skip(prefix.len() as int).contains('/') && spec_is_image_file(p)
}

/// The first file (by listing order, from index `i`) that is an image
/// directly inside `dir`.
pub open spec fn spec_first_image_in_dir(snap: &DirSnapshot, dir: Seq<char>, i: int) -> Option<
    Seq<char>,
>
    decreases snap.files@.len() - i,
        when 0 <= i <= snap.files@.len()
{
    if !(0 <= i < snap.files@.len()) {
        None
    } else if spec_is_image_in(snap.file_paths()[i], dir) {
        Some(snap.file_paths()[i])
    } else {
        spec_first_image_in_dir(snap, dir, i + 1)
    }
}

/// The first image found in the listed directories, trying them in order
/// from index `di`; a listed directory must exist in the snapshot to be
/// searched.
pub open spec fn spec_find_image_in_dirs(snap: &DirSnapshot, dirs: Seq<Seq<char>>, di: int) -> Option<
    Seq<char>,
>
    decreases dirs.len() - di,
        when 0 <= di <= dirs.len()
{
    if !(0 <= di < dirs.len()) {
        None
    } else if snap.spec_has_dir(dirs[di]) && spec_first_image_in_dir(snap, dirs[di], 0) is Some {
        spec_first_image_in_dir(snap, dirs[di], 0)
    } else {
        spec_find_image_in_dirs(snap, dirs, di + 1)
    }
}

/// The conventional icon directories, in search order.
pub open spec fn spec_icon_dirs() -> Seq<Seq<char>> {
    seq!["icon"@, "icons"@, "www/icon"@, "www/icons"@]
}

/// The fixed cover candidate paths, in search order.
pub open spec fn spec_cover_candidates() -> Seq<Seq<char>> {
    seq![
        "cover.png"@,
        "cover.jpg"@,
        "cover.jpeg"@,
        "cover.ico"@,
        "icon.png"@,
        "icon.jpg"@,
        "icon.jpeg"@,
        "icon.ico"@,
        "icon/cover.png"@,
        "icons/cover.png"@,
        "icon/cover.ico"@,
        "icons/cover.ico"@,
        "icon/icon.png"@,
        "icons/icon.png"@,
        "icon/icon.ico"@,
        "icons/icon.ico"@,
        "www/icon/cover.png"@,
        "www/icons/cover.png"@,
        "www/icon/cover.ico"@,
        "www/icons/cover.ico"@,
        "www/icon/icon.png"@,
        "www/icons/icon.png"@,
        "www/icon/icon.ico"@,
        "www/icons/icon.ico"@,
    ]
}

/// The fixed cover candidate paths as strings.
fn cover_candidates() -> (r: Vec<String>)
    ensures
        spec_str_views(r@) == spec_cover_candidates(),
{
    let mut v: Vec<String> = Vec::new();
    v.push("cover.png".to_owned());
    v.push("cover.jpg".to_owned());
    v.push("cover.jpeg".to_owned());
    v.push("cover.ico".to_owned());
    v.push("icon.png".to_owned());
    v.push("icon.jpg".to_owned());
    v.push("icon.jpeg".to_owned());
    v.push("icon.ico".to_owned());
    v.push("icon/cover.png".to_owned());
    v.push("icons/cover.png".to_owned());
    v.push("icon/cover.ico".to_owned());
    v.push("icons/cover.ico".to_owned());
    v.push("icon/icon.png".to_owned());
    v.push("icons/icon.png".to_owned());
    v.push("icon/icon.ico".to_owned());
    v.push("icons/icon.ico".to_owned());
    v.push("www/icon/cover.png".to_owned());
    v.push("www/icons/cover.png".to_owned());
    v.push("www/icon/cover.ico".to_owned());
    v.push("www/icons/cover.ico".to_owned());
    v.push("www/icon/icon.png".to_owned());
    v.push("www/icons/icon.png".to_owned());
    v.push("www/icon/icon.ico".to_owned());
    v.push("www/icons/icon.ico".to_owned());
    assert(spec_str_views(v@) =~= spec_cover_candidates());
    v
}

/// The first candidate path (from index `i`) that exists as a file.
pub open spec fn spec_first_existing(snap: &DirSnapshot, cands: Seq<Seq<char>>, i: int) -> Option<
    Seq<char>,
>
    decreases cands.len() - i,
        when 0 <= i <= cands.len()
{
    if !(0 <= i < cands.len()) {
        None
    } else if snap.spec_has_file(cands[i]) {
        Some(cands[i])
    } else {
        spec_first_existing(snap, cands, i + 1)
    }
}

/// The cover a game directory yields: the first fixed candidate that exists,
/// else the first image in an icon directory.
pub open spec fn spec_find_cover_image(snap: &DirSnapshot) -> Option<Seq<char>> {
    match spec_first_existing(snap, spec_cover_candidates(), 0) {
        Some(p) => Some(p),
        None => spec_find_image_in_dirs(snap, spec_icon_dirs(), 0),
    }
}

// === free path helpers of the container layout ===

/// The profile directory of a game id under the container root.
pub fn game_profile_dir(container_root: &str, game_id: &str) -> (r: String)
    ensures
        r@ == spec_profile_dir(container_root@, game_id@),
{
    FileService::new().game_profile_dir(container_root, game_id)
}

/// The user-data directory of a game id under the container root.
pub fn game_user_data_dir(container_root: &str, game_id: &str) -> (r: String)
    ensures
        r@ == spec_user_data_dir(container_root@, game_id@),
{
    FileService::new().game_user_data_dir(container_root, game_id)
}

/// The settings-file path of a game id under the container root.
pub fn game_toml_path(container_root: &str, game_id: &str) -> (r: String)
    ensures
        r@ == spec_config_path(container_root@, game_id@),
{
    FileService::new().game_config_path(container_root, game_id)
}

/// Whether an extension (already lower-case) is accepted for cover images.
pub open spec fn spec_is_supported_image_ext(e: Seq<char>) -> bool {
    e == "png"@ || e == "jpg"@ || e == "jpeg"@ || e == "webp"@
}

/// Whether a lower-case extension is accepted for cover images.
pub fn is_supported_image_ext(ext: &str) -> (r: bool)
    ensures
        r == spec_is_supported_image_ext(ext@),
{
    str_eq(ext, "png") || str_eq(ext, "jpg") || str_eq(ext, "jpeg") || str_eq(ext, "webp")
}

/// The stored cover of a profile: the configured cover file when the profile
/// holds it, else the first of the conventional `cover.<ext>` names present,
/// else none.
pub open spec fn spec_resolve_cover(
    profile_snap: &DirSnapshot,
    cover_file: Option<Seq<char>>,
) -> Option<Seq<char>> {
    if cover_file is Some && profile_snap.spec_has_file(cover_file->0) {
        Some(cover_file->0)
    } else if profile_snap.spec_has_file("cover.png"@) {
        Some("cover.png"@)
    } else if profile_snap.spec_has_file("cover.webp"@) {
        Some("cover.webp"@)
    } else if profile_snap.spec_has_file("cover.jpg"@) {
        Some("cover.jpg"@)
    } else if profile_snap.spec_has_file("cover.jpeg"@) {
        Some("cover.jpeg"@)
    } else {
        None
    }
}

/// Resolves the cover file of a profile directory: the configured file if it
/// exists there, else a conventional `cover.<ext>`, else none. The result is
/// relative to the profile directory.
pub fn resolve_cover_path(profile_snap: &DirSnapshot, cover_file: &Option<String>) -> (r: Option<
    String,
>)
    ensures
        match r {
            Some(p) => spec_resolve_cover(
                profile_snap,
                match cover_file {
                    Some(c) => Some(c@),
                    None => None,
                },
            ) == Some(p@),
            None => spec_resolve_cover(
                profile_snap,
                match cover_file {
                    Some(c) => Some(c@),
                    None => None,
                },
            ) is None,
        },
{
    match cover_file {
        Some(c) => {
            if profile_snap.has_file(c.as_str()) {
                return Some(c.clone());
            }
        },
        None => {},
    }
    if profile_snap.has_file("cover.png") {
        return Some("cover.png".to_owned());
    }
    if profile_snap.has_file("cover.webp") {
        return Some("cover.webp".to_owned());
    }
    if profile_snap.has_file("cover.jpg") {
        return Some("cover.jpg".to_owned());
    }
    if profile_snap.has_file("cover.jpeg") {
        return Some("cover.jpeg".to_owned());
    }
    None
}

// === executable icons ===

/// The icon a platform executable's resources carry, as one icon-container
/// file, or nothing when the bytes are not such an executable or carry no
/// icon. The result is a function of the bytes alone.
pub uninterp spec fn pe_icon_of(exe_bytes: Seq<u8>) -> Option<Seq<u8>>;

/// Relies on `pelite::pe64::PeFile::from_bytes` and
/// `pelite::pe32::PeFile::from_bytes`, their `resources`, and
/// `Resources::icons` with `IconGroup::write`: extracts the first icon group
/// of a platform executable held in memory. The result depends on the bytes
/// alone and is named `pe_icon_of`.
#[verifier::external_body]
fn extract_pe_icon(exe_bytes: &Vec<u8>) -> (r: Option<Vec<u8>>)
    ensures
        (match r {
            Some(b) => Some(b@),
            None => None,
        }) == pe_icon_of(exe_bytes@),
{
    let res = match pelite::pe64::PeFile::from_bytes(exe_bytes.as_slice()) {
        Ok(pe) => pelite::pe64::Pe::resources(pe).ok(),
        Err(_) => match pelite::pe32::PeFile::from_bytes(exe_bytes.as_slice()) {
            Ok(pe) => pelite::pe32::Pe::resources(pe).ok(),
            Err(_) => None,
        },
    };
    let (_name, group) = res?.icons().filter_map(Result::ok).next()?;
    let mut out: Vec<u8> = Vec::new();
    group.write(&mut out).ok()?;
    Some(out)
}

/// Extracts the icon of a game's executable as the profile's cover: when the
/// executable carries an icon, yields the bytes to store and the cover path
/// inside the profile directory.
pub fn save_exe_icon_to_profile(container_root: &str, profile_key: &str, exe_bytes: &Vec<u8>) -> (r:
    Option<(String, Vec<u8>)>)
    ensures
        match r {
            Some(p) => {
                &&& pe_icon_of(exe_bytes@) == Some(p.1@)
                &&& p.0@ == spec_profile_dir(container_root@, profile_key@) + "/cover.ico"@
            },
            None => pe_icon_of(exe_bytes@) is None,
        },
{
    match extract_pe_icon(exe_bytes) {
        Some(icon) => {
            let mut target = FileService::new().game_profile_dir(container_root, profile_key);
            target.append("/cover.ico");
            Some((target, icon))
        },
        None => None,
    }
}

// === cover scoring ===

/// Whether `p` lies directly inside `d`.
pub open spec fn spec_in_dir(p: Seq<char>, d: Seq<char>) -> bool {
    let prefix = d.push('/');
    prefix.is_prefix_of(p) && !p.skip(prefix.len() as int).contains('/')
}

/// The cover-likelihood score of a candidate file: name keywords first
/// (`cover` 300, `poster` 200, `banner` 180, `title` 120, `icon` 80), then
/// the extension (`png` 30, `webp` 25, `jpg`/`jpeg` 20), then one point per
/// kibibyte of size capped at 1024.
pub open spec fn spec_cover_score(p: Seq<char>, size: u64) -> int {
    let name = spec_lower_seq(crate::fsmodel::spec_file_name(p));
    (if crate::text::spec_contains_sub(name, "cover"@) {
        300int
    } else {
        0int
    }) + (if crate::text::spec_contains_sub(name, "poster"@) {
        200int
    } else {
        0int
    }) + (if crate::text::spec_contains_sub(name, "banner"@) {
        180int
    } else {
        0int
    }) + (if crate::text::spec_contains_sub(name, "title"@) {
        120int
    } else {
        0int
    }) + (if crate::text::spec_contains_sub(name, "icon"@) {
        80int
    } else {
        0int
    }) + (match spec_ext_of(p) {
        Some(e) => {
            let l = spec_lower_seq(e);
            if l == "png"@ {
                30int
            } else if l == "webp"@ {
                25int
            } else if l == "jpg"@ || l == "jpeg"@ {
                20int
            } else {
                0int
            }
        },
        None => 0int,
    }) + (if size / 1024 > 1024 {
        1024int
    } else {
        (size / 1024) as int
    })
}

/// Scores one cover candidate from its path and file size.
pub fn score_cover_candidate(path: &str, size: u64) -> (r: u64)
    ensures
        r as int == spec_cover_score(path@, size),
{
    let pv = str_chars(path);
    let name = lower_chars(&crate::fsmodel::file_name_chars(&pv));
    let mut score: u64 = 0;
    if crate::text::chars_contain(&name, &str_chars("cover")) {
        score = score + 300;
    }
    if crate::text::chars_contain(&name, &str_chars("poster")) {
        score = score + 200;
    }
    if crate::text::chars_contain(&name, &str_chars("banner")) {
        score = score + 180;
    }
    if crate::text::chars_contain(&name, &str_chars("title")) {
        score = score + 120;
    }
    if crate::text::chars_contain(&name, &str_chars("icon")) {
        score = score + 80;
    }
    match ext_of_chars(&pv) {
        Some(e) => {
            let le = lower_chars(&e);
            if chars_eq(&le, &str_chars("png")) {
                score = score + 30;
            } else if chars_eq(&le, &str_chars("webp")) {
                score = score + 25;
            } else if chars_eq(&le, &str_chars("jpg")) || chars_eq(&le, &str_chars("jpeg")) {
                score = score + 20;
            }
        },
        None => {},
    }
    let kib: u64 = size / 1024;
    if kib > 1024 {
        score = score + 1024;
    } else {
        score = score + kib;
    }
    score
}

/// The conventional fixed icon directories of a game root that exist in the
/// snapshot, in order.
pub open spec fn spec_pick_fixed_dirs(snap: &DirSnapshot) -> Seq<Seq<char>> {
    (if snap.spec_has_dir("icon"@) {
        seq!["icon"@]
    } else {
        Seq::empty()
    }) + (if snap.spec_has_dir("icons"@) {
        seq!["icons"@]
    } else {
        Seq::empty()
    }) + (if snap.spec_has_dir("www"@) {
        (if snap.spec_has_dir("www/icon"@) {
            seq!["www/icon"@]
        } else {
            Seq::empty()
        }) + (if snap.spec_has_dir("www/icons"@) {
            seq!["www/icons"@]
        } else {
            Seq::empty()
        })
    } else {
        Seq::empty()
    })
}

/// The icon-directory scan from index `i` with the accumulated list: a
/// top-level directory whose case-folded name is `icon` or `icons` and that
/// is not yet listed is appended.
pub open spec fn spec_pick_scan(snap: &DirSnapshot, i: int, acc: Seq<Seq<char>>) -> Seq<Seq<char>>
    decreases snap.dirs@.len() - i,
        when 0 <= i <= snap.dirs@.len()
{
    if i >= snap.dirs@.len() {
        acc
    } else {
        let d = snap.dir_paths()[i];
        let l = spec_lower_seq(d);
        if !d.contains('/') && (l == "icon"@ || l == "icons"@) && !acc.contains(d) {
            spec_pick_scan(snap, i + 1, acc.push(d))
        } else {
            spec_pick_scan(snap, i + 1, acc)
        }
    }
}

/// The icon directories of a game root, in search order.
pub open spec fn spec_pick_icon_dirs(snap: &DirSnapshot) -> Seq<Seq<char>> {
    spec_pick_scan(snap, 0, spec_pick_fixed_dirs(snap))
}

/// Collects the icon directories of a game root: the conventional fixed
/// locations that exist, then any other top-level directory whose
/// case-folded name is `icon` or `icons`, without duplicates.
pub fn pick_icon_dirs(snap: &DirSnapshot) -> (r: Vec<String>)
    ensures
        spec_str_views(r@) == spec_pick_icon_dirs(snap),
{
    let mut out: Vec<String> = Vec::new();
    if snap.has_dir("icon") {
        out.push("icon".to_owned());
    }
    if snap.has_dir("icons") {
        out.push("icons".to_owned());
    }
    if snap.has_dir("www") {
        if snap.has_dir("www/icon") {
            out.push("www/icon".to_owned());
        }
        if snap.has_dir("www/icons") {
            out.push("www/icons".to_owned());
        }
    }
    assert(spec_str_views(out@) =~= spec_pick_fixed_dirs(snap));
    let mut i: usize = 0;
    while i < snap.dirs.len()
        invariant
            0 <= i <= snap.dirs@.len(),
            spec_pick_icon_dirs(snap) == spec_pick_scan(snap, i as int, spec_str_views(out@)),
        decreases snap.dirs@.len() - i,
    {
        let d = &snap.dirs[i];
        let dv = str_chars(d.as_str());
        let dl = lower_chars(&dv);
        let top = !crate::text::chars_contain_char(&dv, '/');
        let named = chars_eq(&dl, &str_chars("icon")) || chars_eq(&dl, &str_chars("icons"));
        if top && named && !crate::records::strings_contain(&out, d.as_str()) {
            let ghost before = spec_str_views(out@);
            out.push(d.clone());
            assert(spec_str_views(out@) =~= before.push(snap.dir_paths()[i as int]));
        } else {
            assert(!(
                !snap.dir_paths()[i as int].contains('/')
                && (spec_lower_seq(snap.dir_paths()[i as int]) == "icon"@ || spec_lower_seq(
                    snap.dir_paths()[i as int],
                ) == "icons"@)
                && !spec_str_views(out@).contains(snap.dir_paths()[i as int])
            ));
        }
        i = i + 1;
    }
    out
}

/// The best cover candidate over one directory's files from index `fi`: a
/// strictly higher score replaces the current best.
pub open spec fn spec_best_in_dir(
    snap: &DirSnapshot,
    d: Seq<char>,
    fi: int,
    best: Option<(int, Seq<char>)>,
) -> Option<(int, Seq<char>)>
    decreases snap.files@.len() - fi,
        when 0 <= fi <= snap.files@.len()
{
    if fi >= snap.files@.len() {
        best
    } else {
        let p = snap.file_paths()[fi];
        let next = if spec_in_dir(p, d) && (match spec_ext_of(p) {
            Some(e) => spec_is_supported_image_ext(spec_lower_seq(e)),
            None => false,
        }) {
            let sc = spec_cover_score(p, snap.files@[fi].size);
            match best {
                None => Some((sc, p)),
                Some(b) => if sc > b.0 {
                    Some((sc, p))
                } else {
                    best
                },
            }
        } else {
            best
        };
        spec_best_in_dir(snap, d, fi + 1, next)
    }
}

/// The best cover candidate over the listed directories from index `di`.
pub open spec fn spec_best_in_dirs(
    snap: &DirSnapshot,
    dirs: Seq<Seq<char>>,
    di: int,
    best: Option<(int, Seq<char>)>,
) -> Option<(int, Seq<char>)>
    decreases dirs.len() - di,
        when 0 <= di <= dirs.len()
{
    if di >= dirs.len() {
        best
    } else {
        spec_best_in_dirs(snap, dirs, di + 1, spec_best_in_dir(snap, dirs[di], 0, best))
    }
}

/// The cover candidate the icon directories yield, if any.
pub open spec fn spec_find_cover_candidate(snap: &DirSnapshot) -> Option<Seq<char>> {
    match spec_best_in_dirs(snap, spec_pick_icon_dirs(snap), 0, None) {
        Some(b) => Some(b.1),
        None => None,
    }
}

/// Finds the best-scoring cover candidate among the images in the icon
/// directories: supported image files directly inside each icon directory
/// are scored and a strictly higher score wins.
pub fn find_cover_candidate_from_icons(snap: &DirSnapshot) -> (r: Option<String>)
    ensures
        (match r {
            Some(p) => Some(p@),
            None => None,
        }) == spec_find_cover_candidate(snap),
{
    let dirs = pick_icon_dirs(snap);
    let ghost dviews = spec_str_views(dirs@);
    let mut best_path: Option<String> = None;
    let mut best_score: u64 = 0;
    let mut di: usize = 0;
    while di < dirs.len()
        invariant
            0 <= di <= dirs@.len(),
            dviews == spec_str_views(dirs@),
            dviews == spec_pick_icon_dirs(snap),
            spec_best_in_dirs(snap, dviews, 0, None) == spec_best_in_dirs(
                snap,
                dviews,
                di as int,
                match best_path {
                    Some(p) => Some((best_score as int, p@)),
                    None => None,
                },
            ),
        decreases dirs@.len() - di,
    {
        let d = &dirs[di];
        let ghost entry_best: Option<(int, Seq<char>)> = match &best_path {
            Some(p) => Some((best_score as int, p@)),
            None => None,
        };
        let mut fi: usize = 0;
        while fi < snap.files.len()
            invariant
                0 <= fi <= snap.files@.len(),
                0 <= di < dirs@.len(),
                dviews == spec_str_views(dirs@),
                spec_best_in_dir(snap, dviews[di as int], 0, entry_best) == spec_best_in_dir(
                    snap,
                    dviews[di as int],
                    fi as int,
                    match best_path {
                        Some(p) => Some((best_score as int, p@)),
                        None => None,
                    },
                ),
                d == &dirs@[di as int],
            decreases snap.files@.len() - fi,
        {
            let p = &snap.files[fi].path;
            let pv = str_chars(p.as_str());
            let in_dir = self_in_dir_check(&pv, d);
            let ext_ok = match ext_of_chars(&pv) {
                Some(e) => {
                    let le = lower_chars(&e);
                    is_supported_image_ext(chars_string(&le).as_str())
                },
                None => false,
            };
            if in_dir && ext_ok {
                let sc = score_cover_candidate(p.as_str(), snap.files[fi].size);
                match &best_path {
                    None => {
                        best_path = Some(p.clone());
                        best_score = sc;
                    },
                    Some(_) => {
                        if sc > best_score {
                            best_path = Some(p.clone());
                            best_score = sc;
                        }
                    },
                }
            }
            fi = fi + 1;
        }
        di = di + 1;
    }
    match best_path {
        Some(p) => Some(p),
        None => None,
    }
}

/// Whether `p` lies directly inside `d`.
fn self_in_dir_check(pv: &Vec<char>, d: &String) -> (r: bool)
    ensures
        r == spec_in_dir(pv@, d@),
{
    let mut prefix = str_chars(d.as_str());
    prefix.push('/');
    if !crate::text::chars_start_with(pv, &prefix) {
        return false;
    }
    let mut rest: Vec<char> = Vec::new();
    let mut j: usize = prefix.len();
    while j < pv.len()
        invariant
            prefix@.len() <= j <= pv@.len(),
            rest@ =~= pv@.subrange(prefix@.len() as int, j as int),
        decreases pv@.len() - j,
    {
        rest.push(pv[j]);
        j = j + 1;
    }
    assert(rest@ =~= pv@.skip(prefix@.len() as int));
    !crate::text::chars_contain_char(&rest, '/')
}

} // verus!
