//! Launch orchestration: per-family executable resolution over directory
//! snapshots, sandbox environment construction, argument assembly, and the
//! final launch plan handed to the process spawner.

use vstd::prelude::*;
use vstd::string::StringExecFns;

use crate::config::spec_str_views;
use crate::config::GameConfig;
use crate::engine::spec_engine_from_str;
use crate::engine::EngineType;
use crate::errors::AppError;
use crate::fsmodel::spec_ext_of;
use crate::fsmodel::spec_join;
use crate::fsmodel::spec_stem_of;
use crate::fsmodel::DirSnapshot;
use crate::paths::spec_crash_dir;
use crate::paths::spec_profile_dir;
use crate::paths::spec_user_data_dir;
use crate::paths::FileService;
use crate::records::Game;
use crate::text::chars_eq;
use crate::text::chars_string;
use crate::text::lower_chars;
use crate::text::spec_lower_seq;
use crate::text::spec_trim;
use crate::text::str_chars;
use crate::text::trim_chars;

verus! {

/// The platform a launch runs on; resolution strategies differ by platform.
#[derive(Clone, Copy, PartialEq, Eq, Structural, Debug)]
pub enum Platform {
    Windows,
    MacOs,
    Linux,
    OtherOs,
}

/// The launch options a configuration yields.
pub struct LaunchOptions {
    /// Explicit entry override, trimmed; absent when empty.
    pub entry_path: Option<String>,
    /// Extra command-line arguments.
    pub args: Vec<String>,
    /// Whether to redirect the process's writable state into the container.
    pub sandbox_home: bool,
}

/// Copies a vector of strings.
pub fn clone_strings(v: &Vec<String>) -> (r: Vec<String>)
    ensures
        r@ == v@,
{
    let mut out: Vec<String> = Vec::new();
    let mut i: usize = 0;
    while i < v.len()
        invariant
            0 <= i <= v@.len(),
            out@ =~= v@.take(i as int),
        decreases v@.len() - i,
    {
        out.push(v[i].clone());
        i = i + 1;
    }
    assert(v@.take(v@.len() as int) =~= v@);
    out
}

/// The view of an optional trimmed entry override.
pub open spec fn spec_options_entry(config: Option<&GameConfig>) -> Option<Seq<char>> {
    match config {
        Some(c) => {
            let t = spec_trim(c.entry_path@);
            if t.len() == 0 {
                None
            } else {
                Some(t)
            }
        },
        None => None,
    }
}

/// The launch plan in the making: the program, its working directory, extra
/// environment entries, arguments in order, and the container directories to
/// create before the spawn.
#[derive(Debug)]
pub struct LaunchPlan {
    /// Path of the program to spawn.
    pub program: String,
    /// Working directory of the child.
    pub cwd: String,
    /// Extra environment entries.
    pub env: Vec<(String, String)>,
    /// Command-line arguments, in order.
    pub args: Vec<String>,
    /// Container directories to create before spawning, in order.
    pub dirs_to_create: Vec<String>,
}

/// The view of the environment entries.
pub open spec fn spec_env_views(s: Seq<(String, String)>) -> Seq<(Seq<char>, Seq<char>)> {
    s.map_values(|p: (String, String)| (p.0@, p.1@))
}

/// The game-launch rules.
pub struct LauncherService {
    /// The container path rules the launcher builds on.
    pub file_service: FileService,
}

impl LauncherService {
    /// A launcher service.
    pub fn new() -> (r: LauncherService) {
        LauncherService { file_service: FileService::new() }
    }

    /// Derives the launch options from an optional configuration: the entry
    /// override is trimmed and dropped when empty; without a configuration
    /// there is no override, no extra argument, and the sandbox is on.
    pub fn resolve_launch_options(&self, config: Option<&GameConfig>) -> (r: LaunchOptions)
        ensures
            (match r.entry_path {
                Some(e) => Some(e@),
                None => None,
            }) == spec_options_entry(config),
            r.args@ == (match config {
                Some(c) => c.args@,
                None => Seq::<String>::empty(),
            }),
            r.sandbox_home == (match config {
                Some(c) => c.sandbox_home,
                None => true,
            }),
    {
        match config {
            Some(c) => {
                let t = trim_chars(&str_chars(c.entry_path.as_str()));
                let entry_path: Option<String> = if t.len() == 0 {
                    None
                } else {
                    Some(chars_string(&t))
                };
                LaunchOptions {
                    entry_path,
                    args: clone_strings(&c.args),
                    sandbox_home: c.sandbox_home,
                }
            },
            None => LaunchOptions { entry_path: None, args: Vec::new(), sandbox_home: true },
        }
    }

    /// Resolves an explicit entry override: an absolute override stands by
    /// itself when it exists on disk; a relative one resolves under the game
    /// directory when the snapshot holds it; anything else yields none.
    pub fn resolve_entry_path(
        &self,
        game_path: &str,
        snap: &DirSnapshot,
        entry_path: Option<&str>,
        abs_entry_exists: bool,
    ) -> (r: Option<String>)
        ensures
            (match r {
                Some(p) => Some(p@),
                None => None,
            }) == spec_resolve_entry(
                game_path@,
                snap,
                match entry_path {
                    Some(e) => Some(e@),
                    None => None,
                },
                abs_entry_exists,
            ),
    {
        match entry_path {
            Some(e) => {
                let t = trim_chars(&str_chars(e));
                if t.len() == 0 {
                    return None;
                }
                let ts = chars_string(&t);
                if t[0] == '/' {
                    if abs_entry_exists {
                        Some(ts)
                    } else {
                        None
                    }
                } else {
                    if snap.has_entry(ts.as_str()) {
                        Some(crate::fsmodel::path_join(game_path, ts.as_str()))
                    } else {
                        None
                    }
                }
            },
            None => None,
        }
    }

    /// Resolves the legacy-family executable: the entry override first, then
    /// the first of the conventional executable names present at the game
    /// root.
    pub fn find_rpg_maker_executable(
        &self,
        game_path: &str,
        snap: &DirSnapshot,
        entry_path: Option<&str>,
        abs_entry_exists: bool,
    ) -> (r: Result<String, AppError>)
        ensures
            match r {
                Ok(p) => spec_find_rpg_maker_exe(
                    game_path@,
                    snap,
                    match entry_path {
                        Some(e) => Some(e@),
                        None => None,
                    },
                    abs_entry_exists,
                ) == Some(p@),
                Err(e) => spec_find_rpg_maker_exe(
                    game_path@,
                    snap,
                    match entry_path {
                        Some(x) => Some(x@),
                        None => None,
                    },
                    abs_entry_exists,
                ) is None && e is NotFound,
            },
    {
        match self.resolve_entry_path(game_path, snap, entry_path, abs_entry_exists) {
            Some(p) => {
                return Ok(p);
            },
            None => {},
        }
        if snap.has_entry("Game") {
            return Ok(crate::fsmodel::path_join(game_path, "Game"));
        }
        if snap.has_entry("Game.exe") {
            return Ok(crate::fsmodel::path_join(game_path, "Game.exe"));
        }
        if snap.has_entry("RPG_RT") {
            return Ok(crate::fsmodel::path_join(game_path, "RPG_RT"));
        }
        if snap.has_entry("RPG_RT.exe") {
            return Ok(crate::fsmodel::path_join(game_path, "RPG_RT.exe"));
        }
        Err(AppError::NotFound("no legacy-engine executable found".to_owned()))
    }

    /// Looks for the runtime executable inside one directory, by the
    /// conventional names and the bundled application layout.
    pub fn find_nwjs_in_dir(&self, dir_path: &str, snap: &DirSnapshot) -> (r: Option<String>)
        ensures
            (match r {
                Some(p) => Some(p@),
                None => None,
            }) == spec_find_nwjs_in_dir(dir_path@, snap),
    {
        if snap.has_entry("nw") {
            return Some(crate::fsmodel::path_join(dir_path, "nw"));
        }
        if snap.has_entry("nw.exe") {
            return Some(crate::fsmodel::path_join(dir_path, "nw.exe"));
        }
        if snap.has_entry("nwjs") {
            return Some(crate::fsmodel::path_join(dir_path, "nwjs"));
        }
        if snap.has_entry("nwjs.exe") {
            return Some(crate::fsmodel::path_join(dir_path, "nwjs.exe"));
        }
        if snap.has_entry("Game") {
            return Some(crate::fsmodel::path_join(dir_path, "Game"));
        }
        if snap.has_entry("Game.exe") {
            return Some(crate::fsmodel::path_join(dir_path, "Game.exe"));
        }
        if snap.has_entry("nwjs.app/Contents/MacOS/nwjs") {
            return Some(crate::fsmodel::path_join(dir_path, "nwjs.app/Contents/MacOS/nwjs"));
        }
        None
    }

    /// Resolves the runtime executable: the supplied runtime directory
    /// first, then the game directory itself, then the system-installed
    /// runtime located by the caller's path lookup.
    pub fn find_nwjs_executable(
        &self,
        game_path: &str,
        game_snap: &DirSnapshot,
        runtime_dir: &Option<String>,
        runtime_snap: &DirSnapshot,
        system_nw: &Option<String>,
    ) -> (r: Result<String, AppError>)
        ensures
            match r {
                Ok(p) => spec_find_nwjs_exe(
                    game_path@,
                    game_snap,
                    match runtime_dir {
                        Some(d) => Some(d@),
                        None => None,
                    },
                    runtime_snap,
                    match system_nw {
                        Some(s) => Some(s@),
                        None => None,
                    },
                ) == Some(p@),
                Err(e) => spec_find_nwjs_exe(
                    game_path@,
                    game_snap,
                    match runtime_dir {
                        Some(d) => Some(d@),
                        None => None,
                    },
                    runtime_snap,
                    match system_nw {
                        Some(s) => Some(s@),
                        None => None,
                    },
                ) is None && e is NotFound,
            },
    {
        match runtime_dir {
            Some(d) => {
                match self.find_nwjs_in_dir(d.as_str(), runtime_snap) {
                    Some(p) => {
                        return Ok(p);
                    },
                    None => {},
                }
            },
            None => {},
        }
        match self.find_nwjs_in_dir(game_path, game_snap) {
            Some(p) => {
                return Ok(p);
            },
            None => {},
        }
        match system_nw {
            Some(s) => Ok(s.clone()),
            None => Err(AppError::NotFound("no runtime executable found".to_owned())),
        }
    }

    /// Resolves the application root handed to the runtime: the entry
    /// override, else the game root when it carries a package manifest, else
    /// the `www/` subfolder when that does, else the game root itself.
    pub fn resolve_nwjs_app_path(
        &self,
        game_path: &str,
        snap: &DirSnapshot,
        entry_path: Option<&str>,
        abs_entry_exists: bool,
    ) -> (r: String)
        ensures
            r@ == spec_resolve_app_path(
                game_path@,
                snap,
                match entry_path {
                    Some(e) => Some(e@),
                    None => None,
                },
                abs_entry_exists,
            ),
    {
        match self.resolve_entry_path(game_path, snap, entry_path, abs_entry_exists) {
            Some(p) => {
                return p;
            },
            None => {},
        }
        if snap.has_entry("package.json") {
            return game_path.to_owned();
        }
        if snap.has_entry("www/package.json") {
            return crate::fsmodel::path_join(game_path, "www");
        }
        game_path.to_owned()
    }
}

/// The resolved entry override of a launch, if any.
pub open spec fn spec_resolve_entry(
    game_path: Seq<char>,
    snap: &DirSnapshot,
    entry: Option<Seq<char>>,
    abs_entry_exists: bool,
) -> Option<Seq<char>> {
    match entry {
        Some(e) => {
            let t = spec_trim(e);
            if t.len() == 0 {
                None
            } else if t[0] == '/' {
                if abs_entry_exists {
                    Some(t)
                } else {
                    None
                }
            } else if snap.spec_has_entry(t) {
                Some(spec_join(game_path, t))
            } else {
                None
            }
        },
        None => None,
    }
}

/// The legacy-family executable of a game directory.
pub open spec fn spec_find_rpg_maker_exe(
    game_path: Seq<char>,
    snap: &DirSnapshot,
    entry: Option<Seq<char>>,
    abs_entry_exists: bool,
) -> Option<Seq<char>> {
    match spec_resolve_entry(game_path, snap, entry, abs_entry_exists) {
        Some(p) => Some(p),
        None => if snap.spec_has_entry("Game"@) {
            Some(spec_join(game_path, "Game"@))
        } else if snap.spec_has_entry("Game.exe"@) {
            Some(spec_join(game_path, "Game.exe"@))
        } else if snap.spec_has_entry("RPG_RT"@) {
            Some(spec_join(game_path, "RPG_RT"@))
        } else if snap.spec_has_entry("RPG_RT.exe"@) {
            Some(spec_join(game_path, "RPG_RT.exe"@))
        } else {
            None
        },
    }
}

/// The runtime executable inside one directory, if any.
pub open spec fn spec_find_nwjs_in_dir(dir_path: Seq<char>, snap: &DirSnapshot) -> Option<
    Seq<char>,
> {
    if snap.spec_has_entry("nw"@) {
        Some(spec_join(dir_path, "nw"@))
    } else if snap.spec_has_entry("nw.exe"@) {
        Some(spec_join(dir_path, "nw.exe"@))
    } else if snap.spec_has_entry("nwjs"@) {
        Some(spec_join(dir_path, "nwjs"@))
    } else if snap.spec_has_entry("nwjs.exe"@) {
        Some(spec_join(dir_path, "nwjs.exe"@))
    } else if snap.spec_has_entry("Game"@) {
        Some(spec_join(dir_path, "Game"@))
    } else if snap.spec_has_entry("Game.exe"@) {
        Some(spec_join(dir_path, "Game.exe"@))
    } else if snap.spec_has_entry("nwjs.app/Contents/MacOS/nwjs"@) {
        Some(spec_join(dir_path, "nwjs.app/Contents/MacOS/nwjs"@))
    } else {
        None
    }
}

/// The runtime executable a launch uses: runtime directory first, then the
/// game directory, then the system lookup.
pub open spec fn spec_find_nwjs_exe(
    game_path: Seq<char>,
    game_snap: &DirSnapshot,
    runtime_dir: Option<Seq<char>>,
    runtime_snap: &DirSnapshot,
    system_nw: Option<Seq<char>>,
) -> Option<Seq<char>> {
    let from_runtime = match runtime_dir {
        Some(d) => spec_find_nwjs_in_dir(d, runtime_snap),
        None => None,
    };
    match from_runtime {
        Some(p) => Some(p),
        None => match spec_find_nwjs_in_dir(game_path, game_snap) {
            Some(p) => Some(p),
            None => system_nw,
        },
    }
}

// === generic executable search ===

/// Whether a path is a top-level file whose case-folded extension is in the
/// list.
pub open spec fn spec_ext_match(p: Seq<char>, exts: Seq<Seq<char>>) -> bool {
    !p.contains('/') && match spec_ext_of(p) {
        Some(e) => exts.contains(spec_lower_seq(e)),
        None => false,
    }
}

/// Whether a path's case-folded stem equals the (case-folded, non-empty)
/// directory name.
pub open spec fn spec_stem_match(p: Seq<char>, dlow: Seq<char>) -> bool {
    dlow.len() > 0 && spec_lower_seq(spec_stem_of(p)) == dlow
}

/// The first file (from index `i`) that matches the extensions and the
/// directory-name stem.
pub open spec fn spec_first_ext_pref(
    snap: &DirSnapshot,
    exts: Seq<Seq<char>>,
    dlow: Seq<char>,
    i: int,
) -> Option<Seq<char>>
    decreases snap.files@.len() - i,
        when 0 <= i <= snap.files@.len()
{
    if !(0 <= i < snap.files@.len()) {
        None
    } else if spec_ext_match(snap.file_paths()[i], exts) && spec_stem_match(
        snap.file_paths()[i],
        dlow,
    ) {
        Some(snap.file_paths()[i])
    } else {
        spec_first_ext_pref(snap, exts, dlow, i + 1)
    }
}

/// The first file (from index `i`) that matches the extensions.
pub open spec fn spec_first_ext_any(snap: &DirSnapshot, exts: Seq<Seq<char>>, i: int) -> Option<
    Seq<char>,
>
    decreases snap.files@.len() - i,
        when 0 <= i <= snap.files@.len()
{
    if !(0 <= i < snap.files@.len()) {
        None
    } else if spec_ext_match(snap.file_paths()[i], exts) {
        Some(snap.file_paths()[i])
    } else {
        spec_first_ext_any(snap, exts, i + 1)
    }
}

/// The extension-search result, relative to the game directory: a file with
/// a stem matching the directory's own name is preferred, else the first
/// match.
pub open spec fn spec_find_by_ext_rel(snap: &DirSnapshot, exts: Seq<Seq<char>>) -> Option<
    Seq<char>,
> {
    let dlow = spec_lower_seq(snap.dir_name@);
    match spec_first_ext_pref(snap, exts, dlow, 0) {
        Some(p) => Some(p),
        None => spec_first_ext_any(snap, exts, 0),
    }
}

/// Whether a path is a top-level file with an executable bit.
pub open spec fn spec_exec_match(snap: &DirSnapshot, p: Seq<char>) -> bool {
    !p.contains('/') && snap.spec_is_exec(p)
}

/// The first executable-bit file (from index `i`) matching the stem.
pub open spec fn spec_first_exec_pref(snap: &DirSnapshot, dlow: Seq<char>, i: int) -> Option<
    Seq<char>,
>
    decreases snap.files@.len() - i,
        when 0 <= i <= snap.files@.len()
{
    if !(0 <= i < snap.files@.len()) {
        None
    } else if spec_exec_match(snap, snap.file_paths()[i]) && spec_stem_match(
        snap.file_paths()[i],
        dlow,
    ) {
        Some(snap.file_paths()[i])
    } else {
        spec_first_exec_pref(snap, dlow, i + 1)
    }
}

/// The first executable-bit file from index `i`.
pub open spec fn spec_first_exec_any(snap: &DirSnapshot, i: int) -> Option<Seq<char>>
    decreases snap.files@.len() - i,
        when 0 <= i <= snap.files@.len()
{
    if !(0 <= i < snap.files@.len()) {
        None
    } else if spec_exec_match(snap, snap.file_paths()[i]) {
        Some(snap.file_paths()[i])
    } else {
        spec_first_exec_any(snap, i + 1)
    }
}

/// The executable-bit search result, relative to the game directory.
pub open spec fn spec_find_exec_bit_rel(snap: &DirSnapshot) -> Option<Seq<char>> {
    let dlow = spec_lower_seq(snap.dir_name@);
    match spec_first_exec_pref(snap, dlow, 0) {
        Some(p) => Some(p),
        None => spec_first_exec_any(snap, 0),
    }
}

/// Whether a path is the binary of a bundled application: exactly
/// `<name>.app/Contents/MacOS/<binary>`.
pub open spec fn spec_is_app_binary(p: Seq<char>) -> bool {
    let segs = crate::archive::spec_split_slash(p);
    segs.len() == 4 && crate::fsmodel::spec_ext_of_name(segs[0]) == Some("app"@) && segs[1]
        == "Contents"@ && segs[2] == "MacOS"@
}

/// The first bundled-application binary from index `i`.
pub open spec fn spec_first_app_binary(snap: &DirSnapshot, i: int) -> Option<Seq<char>>
    decreases snap.files@.len() - i,
        when 0 <= i <= snap.files@.len()
{
    if !(0 <= i < snap.files@.len()) {
        None
    } else if spec_is_app_binary(snap.file_paths()[i]) {
        Some(snap.file_paths()[i])
    } else {
        spec_first_app_binary(snap, i + 1)
    }
}

/// The generic platform search, relative to the game directory: by
/// extension with a stem preference on Windows; the first bundled
/// application binary on macOS; scripts and executable bits on other
/// POSIX systems; nothing elsewhere.
pub open spec fn spec_find_root_exe_rel(platform: Platform, snap: &DirSnapshot) -> Option<
    Seq<char>,
> {
    match platform {
        Platform::Windows => spec_find_by_ext_rel(snap, seq!["exe"@, "bat"@, "cmd"@]),
        Platform::MacOs => spec_first_app_binary(snap, 0),
        Platform::Linux => spec_find_unix_rel(snap),
        Platform::OtherOs => None,
    }
}

/// The POSIX search: an executable `.sh` script, else any file with an
/// executable bit, else an executable `.py` script.
pub open spec fn spec_find_unix_rel(snap: &DirSnapshot) -> Option<Seq<char>> {
    let sh = spec_find_by_ext_rel(snap, seq!["sh"@]);
    if sh is Some && snap.spec_is_exec(sh->0) {
        sh
    } else {
        match spec_find_exec_bit_rel(snap) {
            Some(p) => Some(p),
            None => {
                let py = spec_find_by_ext_rel(snap, seq!["py"@]);
                if py is Some && snap.spec_is_exec(py->0) {
                    py
                } else {
                    None
                }
            },
        }
    }
}

/// The visual-novel family executable: the entry override, else the
/// platform search.
pub open spec fn spec_find_renpy_exe(
    game_path: Seq<char>,
    snap: &DirSnapshot,
    entry: Option<Seq<char>>,
    abs_entry_exists: bool,
    platform: Platform,
) -> Option<Seq<char>> {
    match spec_resolve_entry(game_path, snap, entry, abs_entry_exists) {
        Some(p) => Some(p),
        None => match spec_find_root_exe_rel(platform, snap) {
            Some(p) => Some(spec_join(game_path, p)),
            None => None,
        },
    }
}

impl LauncherService {
    /// Whether the snapshot holds this file with an executable bit.
    pub fn is_executable(&self, snap: &DirSnapshot, path: &str) -> (r: bool)
        ensures
            r == snap.spec_is_exec(path@),
    {
        snap.is_exec_file(path)
    }

    /// Searches the top-level files for one of the given (lower-case)
    /// extensions, preferring a file named after the game directory itself.
    /// The result is relative to the game directory.
    pub fn find_executable_by_extension(&self, snap: &DirSnapshot, exts: &Vec<String>) -> (r:
        Option<String>)
        ensures
            (match r {
                Some(p) => Some(p@),
                None => None,
            }) == spec_find_by_ext_rel(snap, spec_str_views(exts@)),
    {
        let dlow = lower_chars(&str_chars(snap.dir_name.as_str()));
        let ghost eviews = spec_str_views(exts@);
        let mut fallback: Option<String> = None;
        let mut i: usize = 0;
        while i < snap.files.len()
            invariant
                0 <= i <= snap.files@.len(),
                dlow@ == spec_lower_seq(snap.dir_name@),
                eviews == spec_str_views(exts@),
                spec_first_ext_pref(snap, eviews, dlow@, 0) == spec_first_ext_pref(
                    snap,
                    eviews,
                    dlow@,
                    i as int,
                ),
                fallback is None ==> spec_first_ext_any(snap, eviews, 0) == spec_first_ext_any(
                    snap,
                    eviews,
                    i as int,
                ),
                fallback is Some ==> spec_first_ext_any(snap, eviews, 0) == Some(
                    fallback->0@,
                ),
            decreases snap.files@.len() - i,
        {
            let p = &snap.files[i].path;
            let matches_ext = self.path_ext_in(p, exts);
            if matches_ext {
                let stem = crate::fsmodel::stem_of_chars(&str_chars(p.as_str()));
                let slow = lower_chars(&stem);
                if dlow.len() > 0 && chars_eq(&slow, &dlow) {
                    assert(spec_stem_match(snap.file_paths()[i as int], dlow@));
                    return Some(p.clone());
                }
                assert(!spec_stem_match(snap.file_paths()[i as int], dlow@));
                if fallback.is_none() {
                    fallback = Some(p.clone());
                }
            } else {
                assert(!spec_ext_match(snap.file_paths()[i as int], eviews));
            }
            i = i + 1;
        }
        fallback
    }

    /// Whether the path is a top-level file with one of the (lower-case)
    /// extensions.
    fn path_ext_in(&self, p: &String, exts: &Vec<String>) -> (r: bool)
        ensures
            r == spec_ext_match(p@, spec_str_views(exts@)),
    {
        let pv = str_chars(p.as_str());
        if crate::text::chars_contain_char(&pv, '/') {
            return false;
        }
        match crate::fsmodel::ext_of_chars(&pv) {
            Some(e) => {
                let le = lower_chars(&e);
                let mut k: usize = 0;
                while k < exts.len()
                    invariant
                        0 <= k <= exts@.len(),
                        le@ == spec_lower_seq(e@),
                        spec_ext_of(p@) == Some(e@),
                        !p@.contains('/'),
                        forall|j: int| 0 <= j < k ==> spec_str_views(exts@)[j] != le@,
                    decreases exts@.len() - k,
                {
                    if chars_eq(&le, &str_chars(exts[k].as_str())) {
                        assert(spec_str_views(exts@)[k as int] == le@);
                        assert(spec_str_views(exts@).contains(spec_lower_seq(e@)));
                        return true;
                    }
                    k = k + 1;
                }
                assert(forall|j: int|
                    0 <= j < spec_str_views(exts@).len() ==> spec_str_views(exts@)[j] != le@);
                false
            },
            None => false,
        }
    }

    /// Searches the top-level files for one with an executable bit,
    /// preferring a file named after the game directory itself. The result
    /// is relative to the game directory.
    pub fn find_executable_with_exec_bit(&self, snap: &DirSnapshot) -> (r: Option<String>)
        ensures
            (match r {
                Some(p) => Some(p@),
                None => None,
            }) == spec_find_exec_bit_rel(snap),
    {
        let dlow = lower_chars(&str_chars(snap.dir_name.as_str()));
        let mut fallback: Option<String> = None;
        let mut i: usize = 0;
        while i < snap.files.len()
            invariant
                0 <= i <= snap.files@.len(),
                dlow@ == spec_lower_seq(snap.dir_name@),
                spec_first_exec_pref(snap, dlow@, 0) == spec_first_exec_pref(
                    snap,
                    dlow@,
                    i as int,
                ),
                fallback is None ==> spec_first_exec_any(snap, 0) == spec_first_exec_any(
                    snap,
                    i as int,
                ),
                fallback is Some ==> spec_first_exec_any(snap, 0) == Some(fallback->0@),
            decreases snap.files@.len() - i,
        {
            let p = &snap.files[i].path;
            let pv = str_chars(p.as_str());
            let top_level = !crate::text::chars_contain_char(&pv, '/');
            let has_bit = snap.is_exec_file(p.as_str());
            if top_level && has_bit {
                assert(spec_exec_match(snap, snap.file_paths()[i as int]));
                let stem = crate::fsmodel::stem_of_chars(&pv);
                let slow = lower_chars(&stem);
                if dlow.len() > 0 && chars_eq(&slow, &dlow) {
                    assert(spec_stem_match(snap.file_paths()[i as int], dlow@));
                    return Some(p.clone());
                }
                assert(!spec_stem_match(snap.file_paths()[i as int], dlow@));
                if fallback.is_none() {
                    fallback = Some(p.clone());
                }
            } else {
                assert(!spec_exec_match(snap, snap.file_paths()[i as int]));
            }
            i = i + 1;
        }
        fallback
    }

    /// The Windows search: by `exe`, `bat` and `cmd` extensions.
    pub fn find_windows_executable(&self, snap: &DirSnapshot) -> (r: Option<String>)
        ensures
            (match r {
                Some(p) => Some(p@),
                None => None,
            }) == spec_find_by_ext_rel(snap, seq!["exe"@, "bat"@, "cmd"@]),
    {
        let mut exts: Vec<String> = Vec::new();
        exts.push("exe".to_owned());
        exts.push("bat".to_owned());
        exts.push("cmd".to_owned());
        assert(spec_str_views(exts@) =~= seq!["exe"@, "bat"@, "cmd"@]);
        self.find_executable_by_extension(snap, &exts)
    }

    /// The macOS search: the first binary inside any bundled
    /// `<name>.app/Contents/MacOS/` directory.
    pub fn find_macos_executable(&self, snap: &DirSnapshot) -> (r: Option<String>)
        ensures
            (match r {
                Some(p) => Some(p@),
                None => None,
            }) == spec_first_app_binary(snap, 0),
    {
        let mut i: usize = 0;
        while i < snap.files.len()
            invariant
                0 <= i <= snap.files@.len(),
                spec_first_app_binary(snap, 0) == spec_first_app_binary(snap, i as int),
            decreases snap.files@.len() - i,
        {
            let p = &snap.files[i].path;
            if self.path_is_app_binary(p) {
                return Some(p.clone());
            }
            i = i + 1;
        }
        None
    }

    /// Whether the path is a bundled-application binary.
    fn path_is_app_binary(&self, p: &String) -> (r: bool)
        ensures
            r == spec_is_app_binary(p@),
    {
        let pv = str_chars(p.as_str());
        let segs = crate::archive::split_slash(&pv);
        let ghost sviews = segs@.map_values(|x: Vec<char>| x@);
        if segs.len() != 4 {
            return false;
        }
        proof {
            lemma_seg_no_slash(pv@, 0);
            lemma_rlast_none(sviews[0], '/');
        }
        assert(crate::fsmodel::spec_file_name(sviews[0]) == sviews[0]);
        let app_ok: bool = match crate::fsmodel::ext_of_chars(&segs[0]) {
            Some(e) => chars_eq(&e, &str_chars("app")),
            None => false,
        };
        assert(app_ok == (crate::fsmodel::spec_ext_of_name(sviews[0]) == Some("app"@)));
        if !app_ok {
            return false;
        }
        let c_ok = chars_eq(&segs[1], &str_chars("Contents"));
        let m_ok = chars_eq(&segs[2], &str_chars("MacOS"));
        c_ok && m_ok
    }

    /// The POSIX search: an executable `.sh` script, else any executable
    /// bit, else an executable `.py` script.
    pub fn find_unix_executable(&self, snap: &DirSnapshot) -> (r: Option<String>)
        ensures
            (match r {
                Some(p) => Some(p@),
                None => None,
            }) == spec_find_unix_rel(snap),
    {
        let mut sh_exts: Vec<String> = Vec::new();
        sh_exts.push("sh".to_owned());
        assert(spec_str_views(sh_exts@) =~= seq!["sh"@]);
        match self.find_executable_by_extension(snap, &sh_exts) {
            Some(p) => {
                if self.is_executable(snap, p.as_str()) {
                    return Some(p);
                }
            },
            None => {},
        }
        match self.find_executable_with_exec_bit(snap) {
            Some(p) => {
                return Some(p);
            },
            None => {},
        }
        let mut py_exts: Vec<String> = Vec::new();
        py_exts.push("py".to_owned());
        assert(spec_str_views(py_exts@) =~= seq!["py"@]);
        match self.find_executable_by_extension(snap, &py_exts) {
            Some(p) => {
                if self.is_executable(snap, p.as_str()) {
                    return Some(p);
                }
            },
            None => {},
        }
        None
    }

    /// The generic platform search, relative to the game directory.
    pub fn find_root_executable(&self, platform: Platform, snap: &DirSnapshot) -> (r: Option<
        String,
    >)
        ensures
            (match r {
                Some(p) => Some(p@),
                None => None,
            }) == spec_find_root_exe_rel(platform, snap),
    {
        match platform {
            Platform::Windows => self.find_windows_executable(snap),
            Platform::MacOs => self.find_macos_executable(snap),
            Platform::Linux => self.find_unix_executable(snap),
            Platform::OtherOs => None,
        }
    }

    /// Resolves the visual-novel family executable: the entry override,
    /// else the platform search under the game directory.
    pub fn find_renpy_executable(
        &self,
        game_path: &str,
        snap: &DirSnapshot,
        entry_path: Option<&str>,
        abs_entry_exists: bool,
        platform: Platform,
    ) -> (r: Result<String, AppError>)
        ensures
            match r {
                Ok(p) => spec_find_renpy_exe(
                    game_path@,
                    snap,
                    match entry_path {
                        Some(e) => Some(e@),
                        None => None,
                    },
                    abs_entry_exists,
                    platform,
                ) == Some(p@),
                Err(e) => spec_find_renpy_exe(
                    game_path@,
                    snap,
                    match entry_path {
                        Some(x) => Some(x@),
                        None => None,
                    },
                    abs_entry_exists,
                    platform,
                ) is None && e is NotFound,
            },
    {
        match self.resolve_entry_path(game_path, snap, entry_path, abs_entry_exists) {
            Some(p) => {
                return Ok(p);
            },
            None => {},
        }
        match self.find_root_executable(platform, snap) {
            Some(p) => Ok(crate::fsmodel::path_join(game_path, p.as_str())),
            None => Err(AppError::NotFound("no visual-novel executable found".to_owned())),
        }
    }
}

/// A segment of a slash-split path contains no slash.
proof fn lemma_seg_no_slash(p: Seq<char>, i: int)
    requires
        0 <= i < crate::archive::spec_split_slash(p).len(),
    ensures
        !crate::archive::spec_split_slash(p)[i].contains('/'),
{
    lemma_split_acc_no_sep(p, Seq::empty(), i);
}

/// Every segment a separator split yields is free of the separator, given a
/// separator-free accumulator.
proof fn lemma_split_acc_no_sep(s: Seq<char>, cur: Seq<char>, i: int)
    requires
        !cur.contains('/'),
        0 <= i < crate::archive::spec_split_sep_acc(s, '/', cur).len(),
    ensures
        !crate::archive::spec_split_sep_acc(s, '/', cur)[i].contains('/'),
    decreases s.len(),
{
    let r = crate::archive::spec_split_sep_acc(s, '/', cur);
    if s.len() == 0 {
        assert(r[i] == cur);
    } else if s[0] == '/' {
        if i == 0 {
            assert(r[0] == cur);
        } else {
            lemma_split_acc_no_sep(s.skip(1), Seq::empty(), i - 1);
        }
    } else {
        if cur.push(s[0]).contains('/') {
            let j = choose|j: int|
                0 <= j < cur.push(s[0]).len() && cur.push(s[0])[j] == '/';
            if j < cur.len() {
                assert(cur[j] == '/');
            }
        }
        lemma_split_acc_no_sep(s.skip(1), cur.push(s[0]), i);
    }
}

/// `dst` with every string of `src` appended.
fn append_strings(dst: Vec<String>, src: &Vec<String>) -> (r: Vec<String>)
    ensures
        r@ == dst@ + src@,
{
    let ghost base = dst@;
    let mut out = dst;
    let mut i: usize = 0;
    assert(out@ =~= base + src@.take(0));
    while i < src.len()
        invariant
            0 <= i <= src@.len(),
            out@ == base + src@.take(i as int),
        decreases src@.len() - i,
    {
        out.push(src[i].clone());
        assert(base + src@.take(i as int) + seq![src@[i as int]] =~= base + src@.take(i + 1));
        i = i + 1;
    }
    assert(src@.take(src@.len() as int) =~= src@);
    out
}

impl LauncherService {
    /// Applies the home sandbox: with the sandbox on, the child's `HOME` is
    /// redirected to the game's user-data container directory; otherwise the
    /// environment stays untouched.
    pub fn apply_home_sandbox(
        &self,
        plan: LaunchPlan,
        container_root: &str,
        profile_key: &str,
        options: &LaunchOptions,
    ) -> (r: LaunchPlan)
        ensures
            r.program == plan.program,
            r.cwd == plan.cwd,
            r.args == plan.args,
            r.dirs_to_create == plan.dirs_to_create,
            options.sandbox_home ==> spec_env_views(r.env@) == spec_env_views(plan.env@).push(
                ("HOME"@, spec_user_data_dir(container_root@, profile_key@)),
            ),
            !options.sandbox_home ==> r.env == plan.env,
    {
        if !options.sandbox_home {
            return plan;
        }
        let udd = self.file_service.game_user_data_dir(container_root, profile_key);
        let ghost before = spec_env_views(plan.env@);
        let ghost uddv = udd@;
        let mut p = plan;
        p.env.push(("HOME".to_owned(), udd));
        assert(spec_env_views(p.env@) =~= before.push(("HOME"@, uddv)));
        p
    }

    /// Applies the runtime sandbox: with the sandbox on, the user-data and
    /// crash-dump flags point into the container and the crash-reporter
    /// environment variable is set to the crash directory.
    pub fn apply_nwjs_sandbox(
        &self,
        plan: LaunchPlan,
        container_root: &str,
        profile_key: &str,
        options: &LaunchOptions,
    ) -> (r: LaunchPlan)
        ensures
            r.program == plan.program,
            r.cwd == plan.cwd,
            r.dirs_to_create == plan.dirs_to_create,
            options.sandbox_home ==> {
                &&& spec_str_views(r.args@) == spec_str_views(plan.args@) + seq![
                    "--user-data-dir="@ + spec_user_data_dir(container_root@, profile_key@),
                    "--crash-dumps-dir="@ + spec_crash_dir(container_root@, profile_key@),
                ]
                &&& spec_env_views(r.env@) == spec_env_views(plan.env@).push(
                    (
                        "BREAKPAD_DUMP_LOCATION"@,
                        spec_crash_dir(container_root@, profile_key@),
                    ),
                )
            },
            !options.sandbox_home ==> r.args == plan.args && r.env == plan.env,
    {
        if !options.sandbox_home {
            return plan;
        }
        let udd = self.file_service.game_user_data_dir(container_root, profile_key);
        let crash = self.file_service.game_crash_dir(container_root, profile_key);
        let ghost before_args = spec_str_views(plan.args@);
        let ghost before_env = spec_env_views(plan.env@);
        let ghost uddv = udd@;
        let ghost crashv = crash@;
        let mut p = plan;
        let mut udd_flag: String = "--user-data-dir=".to_owned();
        udd_flag.append(udd.as_str());
        let mut crash_flag: String = "--crash-dumps-dir=".to_owned();
        crash_flag.append(crash.as_str());
        p.args.push(udd_flag);
        p.args.push(crash_flag);
        p.env.push(("BREAKPAD_DUMP_LOCATION".to_owned(), crash));
        assert(spec_str_views(p.args@) =~= before_args + seq![
            "--user-data-dir="@ + uddv,
            "--crash-dumps-dir="@ + crashv,
        ]);
        assert(spec_env_views(p.env@) =~= before_env.push(("BREAKPAD_DUMP_LOCATION"@, crashv)));
        p
    }

    /// Appends the user-declared extra arguments in order.
    pub fn apply_args(&self, plan: LaunchPlan, options: &LaunchOptions) -> (r: LaunchPlan)
        ensures
            r.program == plan.program,
            r.cwd == plan.cwd,
            r.env == plan.env,
            r.dirs_to_create == plan.dirs_to_create,
            r.args@ == plan.args@ + options.args@,
    {
        let mut p = plan;
        let args = append_strings(p.args, &options.args);
        LaunchPlan {
            program: p.program,
            cwd: p.cwd,
            env: p.env,
            args,
            dirs_to_create: p.dirs_to_create,
        }
    }
}

/// Everything a correct launch plan must satisfy for one game: the working
/// directory is the game directory; the container directories are created
/// first; and per engine family the plan names exactly the resolved program,
/// the sandbox redirections of that family, and the configured arguments in
/// order (with the application root last for the runtime-based families).
pub open spec fn spec_launch_plan_ok(
    plan: &LaunchPlan,
    game: &Game,
    container_root: Seq<char>,
    game_snap: &DirSnapshot,
    runtime_dir: Option<Seq<char>>,
    runtime_snap: &DirSnapshot,
    system_nw: Option<Seq<char>>,
    config: Option<&GameConfig>,
    abs_entry_exists: bool,
    platform: Platform,
) -> bool {
    let entry = spec_options_entry(config);
    let cargs = match config {
        Some(c) => spec_str_views(c.args@),
        None => Seq::empty(),
    };
    let sandbox = match config {
        Some(c) => c.sandbox_home,
        None => true,
    };
    let udd = spec_user_data_dir(container_root, game.profile_key@);
    let crash = spec_crash_dir(container_root, game.profile_key@);
    let gp = game.path@;
    &&& plan.cwd@ == gp
    &&& plan.dirs_to_create@.len() == 3
    &&& plan.dirs_to_create@[0]@ == spec_profile_dir(container_root, game.profile_key@)
    &&& plan.dirs_to_create@[1]@ == udd
    &&& plan.dirs_to_create@[2]@ == crash
    &&& match spec_engine_from_str(game.engine_type@) {
        EngineType::RpgMakerVX | EngineType::RpgMakerVXAce => {
            &&& spec_find_rpg_maker_exe(gp, game_snap, entry, abs_entry_exists) == Some(
                plan.program@,
            )
            &&& spec_env_views(plan.env@) == (if sandbox {
                seq![("HOME"@, udd)]
            } else {
                Seq::empty()
            })
            &&& spec_str_views(plan.args@) == cargs
        },
        EngineType::RpgMakerMV | EngineType::RpgMakerMZ | EngineType::NWjs => {
            &&& spec_find_nwjs_exe(gp, game_snap, runtime_dir, runtime_snap, system_nw) == Some(
                plan.program@,
            )
            &&& spec_env_views(plan.env@) == (if sandbox {
                seq![("BREAKPAD_DUMP_LOCATION"@, crash)]
            } else {
                Seq::empty()
            })
            &&& spec_str_views(plan.args@) == (if sandbox {
                seq!["--user-data-dir="@ + udd, "--crash-dumps-dir="@ + crash] + cargs
            } else {
                cargs
            }) + seq![spec_resolve_app_path(gp, game_snap, entry, abs_entry_exists)]
        },
        EngineType::RenPy => {
            &&& spec_find_renpy_exe(gp, game_snap, entry, abs_entry_exists, platform) == Some(
                plan.program@,
            )
            &&& spec_env_views(plan.env@) == (if sandbox {
                seq![("HOME"@, udd)]
            } else {
                Seq::empty()
            })
            &&& spec_str_views(plan.args@) == cargs
        },
        EngineType::Other => {
            &&& spec_resolve_entry(gp, game_snap, entry, abs_entry_exists) == Some(plan.program@)
            &&& spec_env_views(plan.env@) == (if sandbox {
                seq![("HOME"@, udd)]
            } else {
                Seq::empty()
            })
            &&& spec_str_views(plan.args@) == cargs
        },
    }
}

impl LauncherService {
    /// Plans the launch of one game: the game path must exist; the
    /// container directories are (re-)ensured; dispatch is by engine family
    /// with the family's resolution strategy and sandbox; the caller spawns
    /// the planned process and takes its id.
    pub fn launch_game(
        &self,
        game: &Game,
        container_root: &str,
        game_snap: &DirSnapshot,
        game_path_exists: bool,
        nwjs_runtime_dir: &Option<String>,
        runtime_snap: &DirSnapshot,
        system_nw: &Option<String>,
        config: Option<&GameConfig>,
        abs_entry_exists: bool,
        platform: Platform,
    ) -> (r: Result<LaunchPlan, AppError>)
        ensures
            !game_path_exists ==> r is Err && (r matches Err(e) ==> e is NotFound),
            r matches Ok(plan) ==> game_path_exists && spec_launch_plan_ok(
                &plan,
                game,
                container_root@,
                game_snap,
                match nwjs_runtime_dir {
                    Some(d) => Some(d@),
                    None => None,
                },
                runtime_snap,
                match system_nw {
                    Some(s) => Some(s@),
                    None => None,
                },
                config,
                abs_entry_exists,
                platform,
            ),
            game_path_exists && spec_engine_from_str(game.engine_type@) == EngineType::Other
                && spec_resolve_entry(
                game.path@,
                game_snap,
                spec_options_entry(config),
                abs_entry_exists,
            ) is None ==> r is Err && (r matches Err(e) ==> e is Validation),
            game_path_exists ==> (r is Ok <==> match spec_engine_from_str(game.engine_type@) {
                EngineType::RpgMakerVX | EngineType::RpgMakerVXAce => spec_find_rpg_maker_exe(
                    game.path@,
                    game_snap,
                    spec_options_entry(config),
                    abs_entry_exists,
                ) is Some,
                EngineType::RpgMakerMV | EngineType::RpgMakerMZ | EngineType::NWjs => spec_find_nwjs_exe(
                    game.path@,
                    game_snap,
                    match nwjs_runtime_dir {
                        Some(d) => Some(d@),
                        None => None,
                    },
                    runtime_snap,
                    match system_nw {
                        Some(s) => Some(s@),
                        None => None,
                    },
                ) is Some,
                EngineType::RenPy => spec_find_renpy_exe(
                    game.path@,
                    game_snap,
                    spec_options_entry(config),
                    abs_entry_exists,
                    platform,
                ) is Some,
                EngineType::Other => spec_resolve_entry(
                    game.path@,
                    game_snap,
                    spec_options_entry(config),
                    abs_entry_exists,
                ) is Some,
            }),
            game_path_exists && spec_engine_from_str(game.engine_type@) != EngineType::Other
                ==> (r matches Err(e) ==> e is NotFound),
    {
        if !game_path_exists {
            return Err(AppError::NotFound("the game path does not exist".to_owned()));
        }
        let options = self.resolve_launch_options(config);
        let dirs = self.file_service.ensure_game_dirs(container_root, game.profile_key.as_str());
        let engine = game.get_engine_type();
        let entry_ref: Option<&str> = match &options.entry_path {
            Some(s) => Some(s.as_str()),
            None => None,
        };
        match engine {
            EngineType::RpgMakerVX | EngineType::RpgMakerVXAce => {
                assert(spec_engine_from_str(game.engine_type@) == EngineType::RpgMakerVX
                    || spec_engine_from_str(game.engine_type@) == EngineType::RpgMakerVXAce);
                let program = match self.find_rpg_maker_executable(
                    game.path.as_str(),
                    game_snap,
                    entry_ref,
                    abs_entry_exists,
                ) {
                    Ok(p) => p,
                    Err(e) => {
                        return Err(e);
                    },
                };
                let plan = LaunchPlan {
                    program,
                    cwd: game.path.clone(),
                    env: Vec::new(),
                    args: Vec::new(),
                    dirs_to_create: dirs,
                };
                assert(spec_env_views(plan.env@) =~= Seq::<(Seq<char>, Seq<char>)>::empty());
                let plan = self.apply_home_sandbox(
                    plan,
                    container_root,
                    game.profile_key.as_str(),
                    &options,
                );
                let plan = self.apply_args(plan, &options);
                assert(spec_str_views(plan.args@) =~= (match config {
                    Some(c) => spec_str_views(c.args@),
                    None => Seq::<Seq<char>>::empty(),
                }));
                proof {
                    if options.sandbox_home {
                        assert(spec_env_views(plan.env@) =~= seq![
                            (
                                "HOME"@,
                                spec_user_data_dir(container_root@, game.profile_key@),
                            ),
                        ]);
                    }
                }
                Ok(plan)
            },
            EngineType::RpgMakerMV | EngineType::RpgMakerMZ | EngineType::NWjs => {
                assert(spec_engine_from_str(game.engine_type@) == EngineType::RpgMakerMV
                    || spec_engine_from_str(game.engine_type@) == EngineType::RpgMakerMZ
                    || spec_engine_from_str(game.engine_type@) == EngineType::NWjs);
                let program = match self.find_nwjs_executable(
                    game.path.as_str(),
                    game_snap,
                    nwjs_runtime_dir,
                    runtime_snap,
                    system_nw,
                ) {
                    Ok(p) => p,
                    Err(e) => {
                        return Err(e);
                    },
                };
                let plan = LaunchPlan {
                    program,
                    cwd: game.path.clone(),
                    env: Vec::new(),
                    args: Vec::new(),
                    dirs_to_create: dirs,
                };
                assert(spec_env_views(plan.env@) =~= Seq::<(Seq<char>, Seq<char>)>::empty());
                assert(spec_str_views(plan.args@) =~= Seq::<Seq<char>>::empty());
                let plan = self.apply_nwjs_sandbox(
                    plan,
                    container_root,
                    game.profile_key.as_str(),
                    &options,
                );
                let mut plan = self.apply_args(plan, &options);
                let app_path = self.resolve_nwjs_app_path(
                    game.path.as_str(),
                    game_snap,
                    entry_ref,
                    abs_entry_exists,
                );
                let ghost before = spec_str_views(plan.args@);
                let ghost appv = app_path@;
                plan.args.push(app_path);
                assert(spec_str_views(plan.args@) =~= before.push(appv));
                proof {
                    let udd = spec_user_data_dir(container_root@, game.profile_key@);
                    let crash = spec_crash_dir(container_root@, game.profile_key@);
                    let cargs = match config {
                        Some(c) => spec_str_views(c.args@),
                        None => Seq::<Seq<char>>::empty(),
                    };
                    if options.sandbox_home {
                        assert(before =~= (seq![
                            "--user-data-dir="@ + udd,
                            "--crash-dumps-dir="@ + crash,
                        ] + cargs));
                        assert(before.push(appv) =~= (seq![
                            "--user-data-dir="@ + udd,
                            "--crash-dumps-dir="@ + crash,
                        ] + cargs) + seq![appv]);
                        assert(spec_env_views(plan.env@) =~= seq![
                            ("BREAKPAD_DUMP_LOCATION"@, crash),
                        ]);
                    } else {
                        assert(before =~= cargs);
                        assert(before.push(appv) =~= cargs + seq![appv]);
                    }
                }
                Ok(plan)
            },
            EngineType::RenPy => {
                assert(spec_engine_from_str(game.engine_type@) == EngineType::RenPy);
                let program = match self.find_renpy_executable(
                    game.path.as_str(),
                    game_snap,
                    entry_ref,
                    abs_entry_exists,
                    platform,
                ) {
                    Ok(p) => p,
                    Err(e) => {
                        return Err(e);
                    },
                };
                let plan = LaunchPlan {
                    program,
                    cwd: game.path.clone(),
                    env: Vec::new(),
                    args: Vec::new(),
                    dirs_to_create: dirs,
                };
                assert(spec_env_views(plan.env@) =~= Seq::<(Seq<char>, Seq<char>)>::empty());
                let plan = self.apply_home_sandbox(
                    plan,
                    container_root,
                    game.profile_key.as_str(),
                    &options,
                );
                let plan = self.apply_args(plan, &options);
                assert(spec_str_views(plan.args@) =~= (match config {
                    Some(c) => spec_str_views(c.args@),
                    None => Seq::<Seq<char>>::empty(),
                }));
                proof {
                    if options.sandbox_home {
                        assert(spec_env_views(plan.env@) =~= seq![
                            (
                                "HOME"@,
                                spec_user_data_dir(container_root@, game.profile_key@),
                            ),
                        ]);
                    }
                }
                Ok(plan)
            },
            EngineType::Other => {
                assert(spec_engine_from_str(game.engine_type@) == EngineType::Other);
                let program = match self.resolve_entry_path(
                    game.path.as_str(),
                    game_snap,
                    entry_ref,
                    abs_entry_exists,
                ) {
                    Some(p) => p,
                    None => {
                        return Err(
                            AppError::Validation("no entry path is configured".to_owned()),
                        );
                    },
                };
                let plan = LaunchPlan {
                    program,
                    cwd: game.path.clone(),
                    env: Vec::new(),
                    args: Vec::new(),
                    dirs_to_create: dirs,
                };
                assert(spec_env_views(plan.env@) =~= Seq::<(Seq<char>, Seq<char>)>::empty());
                let plan = self.apply_home_sandbox(
                    plan,
                    container_root,
                    game.profile_key.as_str(),
                    &options,
                );
                let plan = self.apply_args(plan, &options);
                assert(spec_str_views(plan.args@) =~= (match config {
                    Some(c) => spec_str_views(c.args@),
                    None => Seq::<Seq<char>>::empty(),
                }));
                proof {
                    if options.sandbox_home {
                        assert(spec_env_views(plan.env@) =~= seq![
                            (
                                "HOME"@,
                                spec_user_data_dir(container_root@, game.profile_key@),
                            ),
                        ]);
                    }
                }
                assert(spec_launch_plan_ok(
                    &plan,
                    game,
                    container_root@,
                    game_snap,
                    match nwjs_runtime_dir {
                        Some(d) => Some(d@),
                        None => None,
                    },
                    runtime_snap,
                    match system_nw {
                        Some(s) => Some(s@),
                        None => None,
                    },
                    config,
                    abs_entry_exists,
                    platform,
                ));
                Ok(plan)
            },
        }
    }
}

/// A sequence without `c` has no last occurrence of `c`.
proof fn lemma_rlast_none(s: Seq<char>, c: char)
    requires
        !s.contains(c),
    ensures
        crate::fsmodel::spec_rlast(s, c) is None,
    decreases s.len(),
{
    if s.len() > 0 {
        assert(s.last() != c) by {
            if s.last() == c {
                assert(s.contains(c));
            }
        }
        assert(!s.drop_last().contains(c)) by {
            if s.drop_last().contains(c) {
                let j = choose|j: int| 0 <= j < s.drop_last().len() && s.drop_last()[j] == c;
                assert(s[j] == c);
                assert(s.contains(c));
            }
        }
        lemma_rlast_none(s.drop_last(), c);
    }
}

/// The application root handed to the runtime.
pub open spec fn spec_resolve_app_path(
    game_path: Seq<char>,
    snap: &DirSnapshot,
    entry: Option<Seq<char>>,
    abs_entry_exists: bool,
) -> Seq<char> {
    match spec_resolve_entry(game_path, snap, entry, abs_entry_exists) {
        Some(p) => p,
        None => if snap.spec_has_entry("package.json"@) {
            game_path
        } else if snap.spec_has_entry("www/package.json"@) {
            spec_join(game_path, "www"@)
        } else {
            game_path
        },
    }
}

} // verus!
