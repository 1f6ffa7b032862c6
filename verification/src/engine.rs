//! Engine-family detection: a directory snapshot is scored independently for
//! each of the five concrete engine families with weighted marker signals;
//! a family below its minimum score is no candidate; among the candidates the
//! strictly highest score wins and exact ties fall back to a fixed priority
//! order.

use vstd::prelude::*;

use crate::fsmodel::spec_ext_of;
use crate::fsmodel::spec_join;
use crate::fsmodel::DirSnapshot;
use crate::fsmodel::ext_of_chars;
use crate::fsmodel::path_join;
use crate::text::chars_contain;
use crate::text::chars_contain_char;
use crate::text::chars_eq;
use crate::text::chars_start_with;
use crate::text::lower_chars;
use crate::text::spec_contains_sub;
use crate::text::spec_lower_seq;
use crate::text::str_chars;

verus! {

/// The closed set of engine families a game record can carry.
#[derive(Clone, Copy, PartialEq, Eq, Structural, Debug)]
pub enum EngineType {
    RpgMakerVX,
    RpgMakerVXAce,
    RpgMakerMV,
    RpgMakerMZ,
    NWjs,
    RenPy,
    Other,
}

/// The engine family a (case-folded) tag string names; unknown tags map to
/// `Other`.
pub open spec fn spec_engine_from_str(s: Seq<char>) -> EngineType {
    let l = spec_lower_seq(s);
    if l == "rpgmakervx"@ || l == "rpg_maker_vx"@ {
        EngineType::RpgMakerVX
    } else if l == "rpgmakervxace"@ || l == "rpg_maker_vx_ace"@ {
        EngineType::RpgMakerVXAce
    } else if l == "rpgmakermv"@ || l == "rpg_maker_mv"@ {
        EngineType::RpgMakerMV
    } else if l == "rpgmakermz"@ || l == "rpg_maker_mz"@ {
        EngineType::RpgMakerMZ
    } else if l == "nwjs"@ {
        EngineType::NWjs
    } else if l == "renpy"@ {
        EngineType::RenPy
    } else {
        EngineType::Other
    }
}

/// The canonical tag string of an engine family.
pub open spec fn spec_engine_as_str(e: EngineType) -> Seq<char> {
    match e {
        EngineType::RpgMakerVX => "rpgmakervx"@,
        EngineType::RpgMakerVXAce => "rpgmakervxace"@,
        EngineType::RpgMakerMV => "rpgmakermv"@,
        EngineType::RpgMakerMZ => "rpgmakermz"@,
        EngineType::NWjs => "nwjs"@,
        EngineType::RenPy => "renpy"@,
        EngineType::Other => "other"@,
    }
}

impl EngineType {
    /// Parses an engine tag, case-insensitively, accepting both the compact
    /// and the underscored spellings.
    pub fn from_str(s: &str) -> (r: EngineType)
        ensures
            r == spec_engine_from_str(s@),
    {
        let l = lower_chars(&str_chars(s));
        if chars_eq(&l, &str_chars("rpgmakervx")) || chars_eq(&l, &str_chars("rpg_maker_vx")) {
            EngineType::RpgMakerVX
        } else if chars_eq(&l, &str_chars("rpgmakervxace")) || chars_eq(
            &l,
            &str_chars("rpg_maker_vx_ace"),
        ) {
            EngineType::RpgMakerVXAce
        } else if chars_eq(&l, &str_chars("rpgmakermv")) || chars_eq(
            &l,
            &str_chars("rpg_maker_mv"),
        ) {
            EngineType::RpgMakerMV
        } else if chars_eq(&l, &str_chars("rpgmakermz")) || chars_eq(
            &l,
            &str_chars("rpg_maker_mz"),
        ) {
            EngineType::RpgMakerMZ
        } else if chars_eq(&l, &str_chars("nwjs")) {
            EngineType::NWjs
        } else if chars_eq(&l, &str_chars("renpy")) {
            EngineType::RenPy
        } else {
            EngineType::Other
        }
    }

    /// The canonical tag string of this engine family.
    pub fn as_str(&self) -> (r: &'static str)
        ensures
            r@ == spec_engine_as_str(*self),
    {
        match self {
            EngineType::RpgMakerVX => "rpgmakervx",
            EngineType::RpgMakerVXAce => "rpgmakervxace",
            EngineType::RpgMakerMV => "rpgmakermv",
            EngineType::RpgMakerMZ => "rpgmakermz",
            EngineType::NWjs => "nwjs",
            EngineType::RenPy => "renpy",
            EngineType::Other => "other",
        }
    }
}

/// The minimum score a family must reach to be a detection candidate.
pub open spec fn spec_min_score(e: EngineType) -> int {
    match e {
        EngineType::RpgMakerMZ => 4,
        EngineType::RpgMakerMV => 4,
        EngineType::RenPy => 4,
        EngineType::RpgMakerVXAce => 5,
        EngineType::RpgMakerVX => 5,
        _ => 0,
    }
}

/// The minimum detection score of an engine family.
pub fn min_engine_score(e: &EngineType) -> (r: i32)
    ensures
        r as int == spec_min_score(*e),
{
    match e {
        EngineType::RpgMakerMZ => 4,
        EngineType::RpgMakerMV => 4,
        EngineType::RenPy => 4,
        EngineType::RpgMakerVXAce => 5,
        EngineType::RpgMakerVX => 5,
        _ => 0,
    }
}

// === marker signals ===

/// Whether an MZ core script lies under `js/` below the given base prefix.
pub open spec fn spec_has_mz_core(snap: &DirSnapshot, base: Seq<char>) -> bool {
    snap.spec_has_entry(spec_join(base, "js/rmmz_core.js"@)) || snap.spec_has_entry(
        spec_join(base, "js/rmmz_managers.js"@),
    )
}

/// Whether an MZ core script exists under `base/js/`.
pub fn has_mz_core(snap: &DirSnapshot, base: &str) -> (r: bool)
    ensures
        r == spec_has_mz_core(snap, base@),
{
    snap.has_entry(path_join(base, "js/rmmz_core.js").as_str()) || snap.has_entry(
        path_join(base, "js/rmmz_managers.js").as_str(),
    )
}

/// Whether an MV core script lies under `js/` below the given base prefix.
pub open spec fn spec_has_mv_core(snap: &DirSnapshot, base: Seq<char>) -> bool {
    snap.spec_has_entry(spec_join(base, "js/rpg_core.js"@)) || snap.spec_has_entry(
        spec_join(base, "js/rpg_managers.js"@),
    )
}

/// Whether an MV core script exists under `base/js/`.
pub fn has_mv_core(snap: &DirSnapshot, base: &str) -> (r: bool)
    ensures
        r == spec_has_mv_core(snap, base@),
{
    snap.has_entry(path_join(base, "js/rpg_core.js").as_str()) || snap.has_entry(
        path_join(base, "js/rpg_managers.js").as_str(),
    )
}

/// Whether the structured game-data manifest lies under the base prefix.
pub open spec fn spec_has_rpg_data(snap: &DirSnapshot, base: Seq<char>) -> bool {
    snap.spec_has_entry(spec_join(base, "data/System.json"@))
}

/// Whether `base/data/System.json` exists.
pub fn has_rpg_data(snap: &DirSnapshot, base: &str) -> (r: bool)
    ensures
        r == spec_has_rpg_data(snap, base@),
{
    snap.has_entry(path_join(base, "data/System.json").as_str())
}

/// Whether a package manifest lies under the base prefix.
pub open spec fn spec_has_package_json(snap: &DirSnapshot, base: Seq<char>) -> bool {
    snap.spec_has_entry(spec_join(base, "package.json"@))
}

/// Whether `base/package.json` exists.
pub fn has_package_json(snap: &DirSnapshot, base: &str) -> (r: bool)
    ensures
        r == spec_has_package_json(snap, base@),
{
    snap.has_entry(path_join(base, "package.json").as_str())
}

/// Whether one of the conventional legacy-engine executables sits at the
/// directory root.
pub open spec fn spec_has_vx_executable(snap: &DirSnapshot) -> bool {
    snap.spec_has_entry("Game.exe"@) || snap.spec_has_entry("Game"@) || snap.spec_has_entry(
        "RPG_RT.exe"@,
    ) || snap.spec_has_entry("RPG_RT"@)
}

/// Whether a recognized legacy platform executable exists at the root.
pub fn has_vx_executable(snap: &DirSnapshot) -> (r: bool)
    ensures
        r == spec_has_vx_executable(snap),
{
    snap.has_entry("Game.exe") || snap.has_entry("Game") || snap.has_entry("RPG_RT.exe")
        || snap.has_entry("RPG_RT")
}

/// Whether a top-level entry name is a versioned native library of the given
/// (lower-case) prefix: no `/`, case-folded name starting with the prefix and
/// ending in `.dll`.
pub open spec fn spec_is_rgss_name(p: Seq<char>, prefix: Seq<char>) -> bool {
    !p.contains('/') && prefix.is_prefix_of(spec_lower_seq(p)) && ".dll"@.is_suffix_of(
        spec_lower_seq(p),
    )
}

/// Whether any top-level entry is a versioned native library with the prefix.
pub open spec fn spec_has_rgss_dll(snap: &DirSnapshot, prefix: Seq<char>) -> bool {
    (exists|i: int|
        0 <= i < snap.file_paths().len() && spec_is_rgss_name(
            #[trigger] snap.file_paths()[i],
            prefix,
        )) || (exists|i: int|
        0 <= i < snap.dir_paths().len() && spec_is_rgss_name(#[trigger] snap.dir_paths()[i], prefix))
}

/// Scans the top-level entries for a native library whose case-folded name
/// starts with `prefix` (already lower-case) and ends in `.dll`.
pub fn has_rgss_dll(snap: &DirSnapshot, prefix: &str) -> (r: bool)
    ensures
        r == spec_has_rgss_dll(snap, prefix@),
{
    let pv = str_chars(prefix);
    let dll = str_chars(".dll");
    let mut i: usize = 0;
    while i < snap.files.len()
        invariant
            0 <= i <= snap.files@.len(),
            pv@ == prefix@,
            dll@ == ".dll"@,
            forall|j: int| 0 <= j < i ==> !spec_is_rgss_name(#[trigger] snap.file_paths()[j], prefix@),
        decreases snap.files@.len() - i,
    {
        let name = str_chars(snap.files[i].path.as_str());
        let low = lower_chars(&name);
        if !chars_contain_char(&name, '/') && chars_start_with(&low, &pv) && crate::text::chars_end_with(
            &low,
            &dll,
        ) {
            assert(spec_is_rgss_name(snap.file_paths()[i as int], prefix@));
            return true;
        }
        assert(!spec_is_rgss_name(snap.file_paths()[i as int], prefix@));
        i = i + 1;
    }
    let mut k: usize = 0;
    while k < snap.dirs.len()
        invariant
            0 <= k <= snap.dirs@.len(),
            pv@ == prefix@,
            dll@ == ".dll"@,
            forall|j: int| 0 <= j < k ==> !spec_is_rgss_name(#[trigger] snap.dir_paths()[j], prefix@),
            forall|j: int|
                0 <= j < snap.file_paths().len() ==> !spec_is_rgss_name(
                    #[trigger] snap.file_paths()[j],
                    prefix@,
                ),
        decreases snap.dirs@.len() - k,
    {
        let name = str_chars(snap.dirs[k].as_str());
        let low = lower_chars(&name);
        if !chars_contain_char(&name, '/') && chars_start_with(&low, &pv) && crate::text::chars_end_with(
            &low,
            &dll,
        ) {
            assert(spec_is_rgss_name(snap.dir_paths()[k as int], prefix@));
            return true;
        }
        assert(!spec_is_rgss_name(snap.dir_paths()[k as int], prefix@));
        k = k + 1;
    }
    false
}

/// Whether a path is a script file directly inside `game/`: prefix `game/`,
/// no further `/`, and a case-folded extension of `rpy` or `rpyc`.
pub open spec fn spec_is_renpy_script(p: Seq<char>) -> bool {
    "game/"@.is_prefix_of(p) && !p.skip("game/"@.len() as int).contains('/') && match spec_ext_of(
        p,
    ) {
        Some(e) => spec_lower_seq(e) == "rpy"@ || spec_lower_seq(e) == "rpyc"@,
        None => false,
    }
}

/// Whether any file is a script directly inside `game/`.
pub open spec fn spec_has_renpy_scripts(snap: &DirSnapshot) -> bool {
    exists|i: int| 0 <= i < snap.file_paths().len() && spec_is_renpy_script(#[trigger] snap.file_paths()[i])
}

/// Scans for script files of the visual-novel family directly inside `game/`.
pub fn has_renpy_scripts(snap: &DirSnapshot) -> (r: bool)
    ensures
        r == spec_has_renpy_scripts(snap),
{
    let prefix = str_chars("game/");
    let rpy = str_chars("rpy");
    let rpyc = str_chars("rpyc");
    let mut i: usize = 0;
    while i < snap.files.len()
        invariant
            0 <= i <= snap.files@.len(),
            prefix@ == "game/"@,
            rpy@ == "rpy"@,
            rpyc@ == "rpyc"@,
            forall|j: int| 0 <= j < i ==> !spec_is_renpy_script(#[trigger] snap.file_paths()[j]),
        decreases snap.files@.len() - i,
    {
        let v = str_chars(snap.files[i].path.as_str());
        if chars_start_with(&v, &prefix) {
            let mut rest: Vec<char> = Vec::new();
            let mut j: usize = prefix.len();
            while j < v.len()
                invariant
                    prefix@.len() <= j <= v@.len(),
                    rest@ =~= v@.subrange(prefix@.len() as int, j as int),
                decreases v@.len() - j,
            {
                rest.push(v[j]);
                j = j + 1;
            }
            assert(rest@ =~= v@.skip(prefix@.len() as int));
            if !chars_contain_char(&rest, '/') {
                match ext_of_chars(&v) {
                    Some(e) => {
                        let le = lower_chars(&e);
                        if chars_eq(&le, &rpy) || chars_eq(&le, &rpyc) {
                            assert(spec_is_renpy_script(snap.file_paths()[i as int]));
                            return true;
                        }
                    },
                    None => {},
                }
            }
        }
        assert(!spec_is_renpy_script(snap.file_paths()[i as int]));
        i = i + 1;
    }
    false
}

/// Whether one of the named marker scripts lies directly inside `game/`.
pub open spec fn spec_has_renpy_marker_files(snap: &DirSnapshot) -> bool {
    snap.spec_has_entry("game/script.rpy"@) || snap.spec_has_entry("game/options.rpy"@)
        || snap.spec_has_entry("game/gui.rpy"@) || snap.spec_has_entry("game/screens.rpy"@)
}

/// Whether one of the conventional named marker scripts exists under `game/`.
pub fn has_renpy_marker_files(snap: &DirSnapshot) -> (r: bool)
    ensures
        r == spec_has_renpy_marker_files(snap),
{
    snap.has_entry("game/script.rpy") || snap.has_entry("game/options.rpy") || snap.has_entry(
        "game/gui.rpy",
    ) || snap.has_entry("game/screens.rpy")
}

/// Whether a path is an entry directly inside `lib/` whose case-folded name
/// starts with `py` or contains `python`.
pub open spec fn spec_is_renpy_lib_entry(p: Seq<char>) -> bool {
    "lib/"@.is_prefix_of(p) && !p.skip("lib/"@.len() as int).contains('/') && ("py"@.is_prefix_of(
        spec_lower_seq(p.skip("lib/"@.len() as int)),
    ) || spec_contains_sub(spec_lower_seq(p.skip("lib/"@.len() as int)), "python"@))
}

/// Whether an embedded-interpreter library folder is present: a `lib/`
/// directory with an entry named after the interpreter.
pub open spec fn spec_has_renpy_lib(snap: &DirSnapshot) -> bool {
    snap.spec_has_dir("lib"@) && ((exists|i: int|
        0 <= i < snap.file_paths().len() && spec_is_renpy_lib_entry(
            #[trigger] snap.file_paths()[i],
        )) || (exists|i: int|
        0 <= i < snap.dir_paths().len() && spec_is_renpy_lib_entry(#[trigger] snap.dir_paths()[i])))
}

/// Scans `lib/` for an entry named after an embedded interpreter.
pub fn has_renpy_lib(snap: &DirSnapshot) -> (r: bool)
    ensures
        r == spec_has_renpy_lib(snap),
{
    if !snap.has_dir("lib") {
        return false;
    }
    let prefix = str_chars("lib/");
    let py = str_chars("py");
    let python = str_chars("python");
    let mut i: usize = 0;
    while i < snap.files.len()
        invariant
            0 <= i <= snap.files@.len(),
            prefix@ == "lib/"@,
            py@ == "py"@,
            python@ == "python"@,
            snap.spec_has_dir("lib"@),
            forall|j: int| 0 <= j < i ==> !spec_is_renpy_lib_entry(#[trigger] snap.file_paths()[j]),
        decreases snap.files@.len() - i,
    {
        let v = str_chars(snap.files[i].path.as_str());
        if renpy_lib_entry_check(&v, &prefix, &py, &python) {
            assert(spec_is_renpy_lib_entry(snap.file_paths()[i as int]));
            return true;
        }
        assert(!spec_is_renpy_lib_entry(snap.file_paths()[i as int]));
        i = i + 1;
    }
    let mut k: usize = 0;
    while k < snap.dirs.len()
        invariant
            0 <= k <= snap.dirs@.len(),
            prefix@ == "lib/"@,
            py@ == "py"@,
            python@ == "python"@,
            snap.spec_has_dir("lib"@),
            forall|j: int| 0 <= j < k ==> !spec_is_renpy_lib_entry(#[trigger] snap.dir_paths()[j]),
            forall|j: int|
                0 <= j < snap.file_paths().len() ==> !spec_is_renpy_lib_entry(
                    #[trigger] snap.file_paths()[j],
                ),
        decreases snap.dirs@.len() - k,
    {
        let v = str_chars(snap.dirs[k].as_str());
        if renpy_lib_entry_check(&v, &prefix, &py, &python) {
            assert(spec_is_renpy_lib_entry(snap.dir_paths()[k as int]));
            return true;
        }
        assert(!spec_is_renpy_lib_entry(snap.dir_paths()[k as int]));
        k = k + 1;
    }
    false
}

/// Whether one path is an interpreter-named entry directly inside `lib/`.
fn renpy_lib_entry_check(v: &Vec<char>, prefix: &Vec<char>, py: &Vec<char>, python: &Vec<char>) -> (r:
    bool)
    requires
        prefix@ == "lib/"@,
        py@ == "py"@,
        python@ == "python"@,
    ensures
        r == spec_is_renpy_lib_entry(v@),
{
    if !chars_start_with(v, prefix) {
        return false;
    }
    let mut rest: Vec<char> = Vec::new();
    let mut j: usize = prefix.len();
    while j < v.len()
        invariant
            prefix@.len() <= j <= v@.len(),
            rest@ =~= v@.subrange(prefix@.len() as int, j as int),
        decreases v@.len() - j,
    {
        rest.push(v[j]);
        j = j + 1;
    }
    assert(rest@ =~= v@.skip(prefix@.len() as int));
    if chars_contain_char(&rest, '/') {
        return false;
    }
    let low = lower_chars(&rest);
    chars_start_with(&low, py) || chars_contain(&low, python)
}

// === family scores ===

/// The MZ family score of a snapshot.
pub open spec fn spec_score_mz(snap: &DirSnapshot) -> int {
    (if spec_has_mz_core(snap, ""@) || spec_has_mz_core(snap, "www"@) {
        3int
    } else {
        0int
    }) + (if spec_has_rpg_data(snap, ""@) || spec_has_rpg_data(snap, "www"@) {
        2int
    } else {
        0int
    }) + (if spec_has_package_json(snap, ""@) || spec_has_package_json(snap, "www"@) {
        1int
    } else {
        0int
    })
}

/// Scores the MZ family: +3 core script, +2 data manifest, +1 package
/// manifest, each checked at the root and under `www/`.
pub fn score_rpg_maker_mz(snap: &DirSnapshot) -> (r: i32)
    ensures
        r as int == spec_score_mz(snap),
        0 <= r <= 6,
{
    let mut score: i32 = 0;
    if has_mz_core(snap, "") || has_mz_core(snap, "www") {
        score = score + 3;
    }
    if has_rpg_data(snap, "") || has_rpg_data(snap, "www") {
        score = score + 2;
    }
    if has_package_json(snap, "") || has_package_json(snap, "www") {
        score = score + 1;
    }
    score
}

/// The MV family score of a snapshot.
pub open spec fn spec_score_mv(snap: &DirSnapshot) -> int {
    (if spec_has_mv_core(snap, ""@) || spec_has_mv_core(snap, "www"@) {
        3int
    } else {
        0int
    }) + (if spec_has_rpg_data(snap, ""@) || spec_has_rpg_data(snap, "www"@) {
        2int
    } else {
        0int
    }) + (if spec_has_package_json(snap, ""@) || spec_has_package_json(snap, "www"@) {
        1int
    } else {
        0int
    })
}

/// Scores the MV family: +3 core script, +2 data manifest, +1 package
/// manifest, each checked at the root and under `www/`.
pub fn score_rpg_maker_mv(snap: &DirSnapshot) -> (r: i32)
    ensures
        r as int == spec_score_mv(snap),
        0 <= r <= 6,
{
    let mut score: i32 = 0;
    if has_mv_core(snap, "") || has_mv_core(snap, "www") {
        score = score + 3;
    }
    if has_rpg_data(snap, "") || has_rpg_data(snap, "www") {
        score = score + 2;
    }
    if has_package_json(snap, "") || has_package_json(snap, "www") {
        score = score + 1;
    }
    score
}

/// The visual-novel family score of a snapshot.
pub open spec fn spec_score_renpy(snap: &DirSnapshot) -> int {
    (if snap.spec_has_dir("renpy"@) || snap.spec_has_entry("renpy.sh"@) || snap.spec_has_entry(
        "renpy.exe"@,
    ) {
        3int
    } else {
        0int
    }) + (if snap.spec_has_dir("game"@) {
        1int + (if spec_has_renpy_scripts(snap) {
            3int
        } else {
            0int
        }) + (if spec_has_renpy_marker_files(snap) {
            1int
        } else {
            0int
        })
    } else {
        0int
    }) + (if spec_has_renpy_lib(snap) {
        1int
    } else {
        0int
    })
}

/// Scores the visual-novel family: +3 runtime marker at the root, +1 script
/// folder, +3 script files inside it, +1 named marker script, +1 interpreter
/// library folder.
pub fn score_renpy(snap: &DirSnapshot) -> (r: i32)
    ensures
        r as int == spec_score_renpy(snap),
        0 <= r <= 9,
{
    let mut score: i32 = 0;
    if snap.has_dir("renpy") || snap.has_entry("renpy.sh") || snap.has_entry("renpy.exe") {
        score = score + 3;
    }
    if snap.has_dir("game") {
        score = score + 1;
        if has_renpy_scripts(snap) {
            score = score + 3;
        }
        if has_renpy_marker_files(snap) {
            score = score + 1;
        }
    }
    if has_renpy_lib(snap) {
        score = score + 1;
    }
    score
}

/// The VX Ace family score of a snapshot.
pub open spec fn spec_score_vxace(snap: &DirSnapshot) -> int {
    (if spec_has_vx_executable(snap) {
        2int
    } else {
        0int
    }) + (if spec_has_rgss_dll(snap, "rgss3"@) {
        3int
    } else {
        0int
    }) + (if snap.spec_has_entry("Game.ini"@) {
        1int
    } else {
        0int
    })
}

/// Scores the VX Ace family: +2 platform executable, +3 versioned native
/// library, +1 companion INI file.
pub fn score_rpg_maker_vxace(snap: &DirSnapshot) -> (r: i32)
    ensures
        r as int == spec_score_vxace(snap),
        0 <= r <= 6,
{
    let mut score: i32 = 0;
    if has_vx_executable(snap) {
        score = score + 2;
    }
    if has_rgss_dll(snap, "rgss3") {
        score = score + 3;
    }
    if snap.has_entry("Game.ini") {
        score = score + 1;
    }
    score
}

/// The VX family score of a snapshot.
pub open spec fn spec_score_vx(snap: &DirSnapshot) -> int {
    (if spec_has_vx_executable(snap) {
        2int
    } else {
        0int
    }) + (if spec_has_rgss_dll(snap, "rgss2"@) || spec_has_rgss_dll(snap, "rgss1"@) {
        3int
    } else {
        0int
    }) + (if snap.spec_has_entry("Game.ini"@) {
        1int
    } else {
        0int
    })
}

/// Scores the VX family: +2 platform executable, +3 versioned native library
/// of either older generation, +1 companion INI file.
pub fn score_rpg_maker_vx(snap: &DirSnapshot) -> (r: i32)
    ensures
        r as int == spec_score_vx(snap),
        0 <= r <= 6,
{
    let mut score: i32 = 0;
    if has_vx_executable(snap) {
        score = score + 2;
    }
    if has_rgss_dll(snap, "rgss2") || has_rgss_dll(snap, "rgss1") {
        score = score + 3;
    }
    if snap.has_entry("Game.ini") {
        score = score + 1;
    }
    score
}

// === winner selection ===

/// Folds the candidate list from the left: a candidate below its family's
/// minimum score is skipped; otherwise it replaces the current best when its
/// score is strictly higher, or equal with a smaller priority number.
pub open spec fn spec_pick(cands: Seq<(EngineType, int, int)>) -> Option<(EngineType, int, int)>
    decreases cands.len(),
{
    if cands.len() == 0 {
        None
    } else {
        let prev = spec_pick(cands.drop_last());
        let cur = cands.last();
        if cur.1 < spec_min_score(cur.0) {
            prev
        } else {
            match prev {
                None => Some(cur),
                Some(b) => if cur.1 > b.1 || (cur.1 == b.1 && cur.2 < b.2) {
                    Some(cur)
                } else {
                    Some(b)
                },
            }
        }
    }
}

/// The candidate list of a snapshot, in evaluation order, with
/// the fixed tie-break priorities (smaller wins ties).
pub open spec fn spec_candidates(snap: &DirSnapshot) -> Seq<(EngineType, int, int)> {
    seq![
        (EngineType::RpgMakerMZ, spec_score_mz(snap), 1int),
        (EngineType::RpgMakerMV, spec_score_mv(snap), 2int),
        (EngineType::RenPy, spec_score_renpy(snap), 0int),
        (EngineType::RpgMakerVXAce, spec_score_vxace(snap), 3int),
        (EngineType::RpgMakerVX, spec_score_vx(snap), 4int),
    ]
}

/// The detected engine family of a snapshot, if any family clears its
/// threshold.
pub open spec fn spec_detect(snap: &DirSnapshot) -> Option<EngineType> {
    match spec_pick(spec_candidates(snap)) {
        Some(b) => Some(b.0),
        None => None,
    }
}

/// Classifies a directory snapshot into an engine family, or none: each
/// family is scored independently; families below their minimum score drop
/// out; the strictly highest score wins and exact ties go to the fixed
/// priority order (visual novel first, then MZ, MV, VX Ace, VX).
pub fn detect_engine_type(snap: &DirSnapshot) -> (r: Option<EngineType>)
    ensures
        r == spec_detect(snap),
{
    let mz = score_rpg_maker_mz(snap);
    let mv = score_rpg_maker_mv(snap);
    let renpy = score_renpy(snap);
    let vxace = score_rpg_maker_vxace(snap);
    let vx = score_rpg_maker_vx(snap);

    let mut cands: Vec<(EngineType, i32, i32)> = Vec::new();
    cands.push((EngineType::RpgMakerMZ, mz, 1));
    cands.push((EngineType::RpgMakerMV, mv, 2));
    cands.push((EngineType::RenPy, renpy, 0));
    cands.push((EngineType::RpgMakerVXAce, vxace, 3));
    cands.push((EngineType::RpgMakerVX, vx, 4));
    let ghost spec_cands = spec_candidates(snap);
    assert(cands@.map_values(|c: (EngineType, i32, i32)| (c.0, c.1 as int, c.2 as int))
        =~= spec_cands);

    let mut best: Option<(EngineType, i32, i32)> = None;
    let mut i: usize = 0;
    assert(spec_cands.take(0) =~= Seq::<(EngineType, int, int)>::empty());
    while i < cands.len()
        invariant
            0 <= i <= cands@.len(),
            cands@.map_values(|c: (EngineType, i32, i32)| (c.0, c.1 as int, c.2 as int))
                =~= spec_cands,
            match best {
                None => spec_pick(spec_cands.take(i as int)) is None,
                Some(b) => spec_pick(spec_cands.take(i as int)) == Some(
                    (b.0, b.1 as int, b.2 as int),
                ),
            },
        decreases cands@.len() - i,
    {
        assert(spec_cands.take(i + 1).drop_last() =~= spec_cands.take(i as int));
        assert(spec_cands.take(i + 1).last() == spec_cands[i as int]);
        let (e, sc, pr) = cands[i];
        assert(spec_cands[i as int] == (e, sc as int, pr as int));
        if sc >= min_engine_score(&e) {
            match best {
                None => {
                    best = Some((e, sc, pr));
                },
                Some(b) => {
                    if sc > b.1 || (sc == b.1 && pr < b.2) {
                        best = Some((e, sc, pr));
                    }
                },
            }
        }
        i = i + 1;
    }
    assert(spec_cands.take(cands@.len() as int) =~= spec_cands);
    match best {
        Some(b) => Some(b.0),
        None => None,
    }
}

// === laws ===

/// Whether a snapshot holds none of the recognized marker signals of any
/// family.
pub open spec fn spec_no_markers(snap: &DirSnapshot) -> bool {
    &&& !spec_has_mz_core(snap, ""@)
    &&& !spec_has_mz_core(snap, "www"@)
    &&& !spec_has_mv_core(snap, ""@)
    &&& !spec_has_mv_core(snap, "www"@)
    &&& !spec_has_rpg_data(snap, ""@)
    &&& !spec_has_rpg_data(snap, "www"@)
    &&& !spec_has_package_json(snap, ""@)
    &&& !spec_has_package_json(snap, "www"@)
    &&& !snap.spec_has_dir("renpy"@)
    &&& !snap.spec_has_entry("renpy.sh"@)
    &&& !snap.spec_has_entry("renpy.exe"@)
    &&& !snap.spec_has_dir("game"@)
    &&& !spec_has_renpy_lib(snap)
    &&& !spec_has_vx_executable(snap)
    &&& !spec_has_rgss_dll(snap, "rgss3"@)
    &&& !spec_has_rgss_dll(snap, "rgss2"@)
    &&& !spec_has_rgss_dll(snap, "rgss1"@)
    &&& !snap.spec_has_entry("Game.ini"@)
}

/// A directory with none of the recognized marker files detects as no engine
/// family at all.
pub proof fn lemma_detect_none_without_markers(snap: &DirSnapshot)
    requires
        spec_no_markers(snap),
    ensures
        spec_detect(snap) is None,
{
    let cs = spec_candidates(snap);
    assert(spec_score_mz(snap) == 0);
    assert(spec_score_mv(snap) == 0);
    assert(spec_score_renpy(snap) == 0);
    assert(spec_score_vxace(snap) == 0);
    assert(spec_score_vx(snap) == 0);
    assert(cs.take(0) =~= Seq::<(EngineType, int, int)>::empty());
    assert(cs.take(1).drop_last() =~= cs.take(0) && cs.take(1).last() == cs[0]);
    assert(cs.take(2).drop_last() =~= cs.take(1) && cs.take(2).last() == cs[1]);
    assert(cs.take(3).drop_last() =~= cs.take(2) && cs.take(3).last() == cs[2]);
    assert(cs.take(4).drop_last() =~= cs.take(3) && cs.take(4).last() == cs[3]);
    assert(cs.take(5) =~= cs && cs.drop_last() =~= cs.take(4) && cs.last() == cs[4]);
    assert(spec_pick(cs.take(0)) is None);
    assert(spec_pick(cs.take(1)) is None);
    assert(spec_pick(cs.take(2)) is None);
    assert(spec_pick(cs.take(3)) is None);
    assert(spec_pick(cs.take(4)) is None);
    assert(spec_pick(cs) is None);
}

/// Whether the snapshot holds exactly the marker set of the worked example:
/// a family core script under `js/` at the root and the structured data
/// manifest, no package manifest, and no marker of any other family.
pub open spec fn spec_only_mz_script_and_manifest(snap: &DirSnapshot) -> bool {
    &&& spec_has_mz_core(snap, ""@)
    &&& spec_has_rpg_data(snap, ""@) || spec_has_rpg_data(snap, "www"@)
    &&& !spec_has_package_json(snap, ""@)
    &&& !spec_has_package_json(snap, "www"@)
    &&& !spec_has_mv_core(snap, ""@)
    &&& !spec_has_mv_core(snap, "www"@)
    &&& !snap.spec_has_dir("renpy"@)
    &&& !snap.spec_has_entry("renpy.sh"@)
    &&& !snap.spec_has_entry("renpy.exe"@)
    &&& !snap.spec_has_dir("game"@)
    &&& !spec_has_renpy_lib(snap)
    &&& !spec_has_vx_executable(snap)
    &&& !spec_has_rgss_dll(snap, "rgss3"@)
    &&& !spec_has_rgss_dll(snap, "rgss2"@)
    &&& !spec_has_rgss_dll(snap, "rgss1"@)
    &&& !snap.spec_has_entry("Game.ini"@)
}

/// A directory with the family core script under `js/` and the structured
/// data manifest, and no other family's markers, classifies as that family,
/// with a score of five, at or above the family threshold of four.
pub proof fn lemma_script_and_manifest_classifies(snap: &DirSnapshot)
    requires
        spec_only_mz_script_and_manifest(snap),
    ensures
        spec_detect(snap) == Some(EngineType::RpgMakerMZ),
        spec_score_mz(snap) == 5,
        spec_score_mz(snap) >= spec_min_score(EngineType::RpgMakerMZ),
{
    let cs = spec_candidates(snap);
    assert(spec_score_mz(snap) == 5);
    assert(spec_score_mv(snap) == 2);
    assert(spec_score_renpy(snap) == 0);
    assert(spec_score_vxace(snap) == 0);
    assert(spec_score_vx(snap) == 0);
    assert(cs.take(0) =~= Seq::<(EngineType, int, int)>::empty());
    assert(cs.take(1).drop_last() =~= cs.take(0) && cs.take(1).last() == cs[0]);
    assert(cs.take(2).drop_last() =~= cs.take(1) && cs.take(2).last() == cs[1]);
    assert(cs.take(3).drop_last() =~= cs.take(2) && cs.take(3).last() == cs[2]);
    assert(cs.take(4).drop_last() =~= cs.take(3) && cs.take(4).last() == cs[3]);
    assert(cs.take(5) =~= cs && cs.drop_last() =~= cs.take(4) && cs.last() == cs[4]);
    assert(spec_pick(cs.take(0)) is None);
    assert(spec_pick(cs.take(1)) == Some((EngineType::RpgMakerMZ, 5int, 1int)));
    assert(spec_pick(cs.take(2)) == Some((EngineType::RpgMakerMZ, 5int, 1int)));
    assert(spec_pick(cs.take(3)) == Some((EngineType::RpgMakerMZ, 5int, 1int)));
    assert(spec_pick(cs.take(4)) == Some((EngineType::RpgMakerMZ, 5int, 1int)));
    assert(spec_pick(cs) == Some((EngineType::RpgMakerMZ, 5int, 1int)));
}

// === runtime install recognition ===

/// Whether a snapshot looks like an installed runtime payload rather than a
/// game: either its directory name carries the runtime naming convention, or
/// it has the structural signature (platform executable, pak data, ICU data
/// file, and a locale directory).
pub open spec fn spec_is_nwjs_runtime_dir(snap: &DirSnapshot) -> bool {
    "nwjs-"@.is_prefix_of(snap.dir_name@) || "nwjs-sdk-"@.is_prefix_of(snap.dir_name@) || (
    (snap.spec_has_entry("nw"@) || snap.spec_has_entry("nwjs"@)) && (snap.spec_has_entry("nw.pak"@)
        || snap.spec_has_entry("nw_100_percent.pak"@)) && snap.spec_has_entry("icudtl.dat"@)
        && snap.spec_has_dir("locales"@))
}

/// Recognises a runtime install directory, by naming convention or by its
/// structural signature, so scans never classify runtime payloads as games.
pub fn is_nwjs_runtime_dir(snap: &DirSnapshot) -> (r: bool)
    ensures
        r == spec_is_nwjs_runtime_dir(snap),
{
    let name = str_chars(snap.dir_name.as_str());
    if chars_start_with(&name, &str_chars("nwjs-")) || chars_start_with(
        &name,
        &str_chars("nwjs-sdk-"),
    ) {
        return true;
    }
    let has_exe = snap.has_entry("nw") || snap.has_entry("nwjs");
    let has_pak = snap.has_entry("nw.pak") || snap.has_entry("nw_100_percent.pak");
    let has_icu = snap.has_entry("icudtl.dat");
    let has_locales = snap.has_dir("locales");
    has_exe && has_pak && has_icu && has_locales
}

/// The fine-grained JavaScript-engine tag of a conventional `www/` layout:
/// `rmmz` or `rmmv` by core script, `unknown` for a valid layout without a
/// recognisable core, none when the layout itself is missing.
pub open spec fn spec_detect_rpg_maker_engine(snap: &DirSnapshot) -> Option<Seq<char>> {
    if !(snap.spec_has_entry("www/index.html"@) && snap.spec_has_entry("package.json"@)) {
        None
    } else if snap.spec_has_entry("www/js/rmmz_core.js"@) {
        Some("rmmz"@)
    } else if snap.spec_has_entry("www/js/rpg_core.js"@) {
        Some("rmmv"@)
    } else {
        Some("unknown"@)
    }
}

/// Detects the conventional JavaScript-engine layout (`www/index.html` plus
/// `package.json`) and names its core generation.
pub fn detect_rpg_maker_engine(snap: &DirSnapshot) -> (r: Option<String>)
    ensures
        match r {
            Some(s) => spec_detect_rpg_maker_engine(snap) == Some(s@),
            None => spec_detect_rpg_maker_engine(snap) is None,
        },
{
    if !(snap.has_entry("www/index.html") && snap.has_entry("package.json")) {
        return None;
    }
    if snap.has_entry("www/js/rmmz_core.js") {
        return Some("rmmz".to_owned());
    }
    if snap.has_entry("www/js/rpg_core.js") {
        return Some("rmmv".to_owned());
    }
    Some("unknown".to_owned())
}

} // verus!
