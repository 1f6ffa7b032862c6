use gamebox::engine::detect_engine_type;
use gamebox::engine::detect_rpg_maker_engine;
use gamebox::engine::has_rgss_dll;
use gamebox::engine::has_renpy_scripts;
use gamebox::engine::is_nwjs_runtime_dir;
use gamebox::engine::min_engine_score;
use gamebox::engine::score_renpy;
use gamebox::engine::score_rpg_maker_mv;
use gamebox::engine::score_rpg_maker_mz;
use gamebox::engine::score_rpg_maker_vx;
use gamebox::engine::score_rpg_maker_vxace;
use gamebox::engine::EngineType;
use gamebox::fsmodel::DirSnapshot;
use gamebox::fsmodel::FileMeta;

fn snapshot(name: &str, files: &[&str], dirs: &[&str]) -> DirSnapshot {
    DirSnapshot {
        dir_name: name.to_string(),
        files: files
            .iter()
            .map(|p| FileMeta {
                path: p.to_string(),
                size: 0,
                executable: false,
            })
            .collect(),
        dirs: dirs.iter().map(|d| d.to_string()).collect(),
    }
}

#[test]
fn empty_directory_detects_as_none() {
    let snap = snapshot("plain", &[], &[]);
    assert_eq!(detect_engine_type(&snap), None);
}

#[test]
fn unrelated_files_detect_as_none() {
    let snap = snapshot(
        "stuff",
        &["readme.txt", "notes/todo.md", "music.ogg"],
        &["notes"],
    );
    assert_eq!(detect_engine_type(&snap), None);
}

#[test]
fn core_script_and_manifest_classify_as_mz_with_score_five() {
    let snap = snapshot(
        "game",
        &["js/rmmz_core.js", "data/System.json"],
        &["js", "data"],
    );
    assert_eq!(score_rpg_maker_mz(&snap), 5);
    assert!(score_rpg_maker_mz(&snap) >= min_engine_score(&EngineType::RpgMakerMZ));
    assert_eq!(detect_engine_type(&snap), Some(EngineType::RpgMakerMZ));
}

#[test]
fn mv_core_under_www_counts_too() {
    let snap = snapshot(
        "game",
        &[
            "www/js/rpg_core.js",
            "www/data/System.json",
            "www/package.json",
        ],
        &["www"],
    );
    assert_eq!(score_rpg_maker_mv(&snap), 6);
    assert_eq!(detect_engine_type(&snap), Some(EngineType::RpgMakerMV));
}

#[test]
fn score_below_threshold_is_no_candidate() {
    // Only the data manifest and package manifest: 2 + 1 = 3 < 4.
    let snap = snapshot("game", &["data/System.json", "package.json"], &["data"]);
    assert_eq!(score_rpg_maker_mz(&snap), 3);
    assert_eq!(detect_engine_type(&snap), None);
}

#[test]
fn renpy_markers_classify_as_renpy() {
    let snap = snapshot(
        "vn",
        &["renpy.sh", "game/script.rpy", "lib/python3.9"],
        &["game", "lib"],
    );
    // 3 (runtime marker) + 1 (game dir) + 3 (scripts) + 1 (named marker) + 1 (lib)
    assert_eq!(score_renpy(&snap), 9);
    assert_eq!(detect_engine_type(&snap), Some(EngineType::RenPy));
}

#[test]
fn exact_tie_goes_to_the_visual_novel_family() {
    // MZ: core script + data manifest = 5. RenPy: runtime dir + script
    // folder + interpreter library = 5. Equal scores, and the visual-novel
    // family has the higher tie-break priority.
    let snap = snapshot(
        "both",
        &["js/rmmz_core.js", "data/System.json", "lib/python3.9"],
        &["js", "data", "renpy", "game", "lib"],
    );
    assert_eq!(score_rpg_maker_mz(&snap), 5);
    assert_eq!(score_renpy(&snap), 5);
    assert_eq!(detect_engine_type(&snap), Some(EngineType::RenPy));
}

#[test]
fn rgss_generation_separates_the_legacy_families() {
    let ace = snapshot("ace", &["Game.exe", "RGSS300.dll", "Game.ini"], &[]);
    assert_eq!(score_rpg_maker_vxace(&ace), 6);
    assert_eq!(detect_engine_type(&ace), Some(EngineType::RpgMakerVXAce));

    let vx = snapshot("vx", &["Game.exe", "RGSS202E.dll", "Game.ini"], &[]);
    assert_eq!(score_rpg_maker_vx(&vx), 6);
    assert_eq!(detect_engine_type(&vx), Some(EngineType::RpgMakerVX));
}

#[test]
fn legacy_family_needs_five_points() {
    // Executable and INI alone: 2 + 1 = 3 < 5.
    let snap = snapshot("old", &["Game.exe", "Game.ini"], &[]);
    assert_eq!(score_rpg_maker_vxace(&snap), 3);
    assert_eq!(detect_engine_type(&snap), None);
}

#[test]
fn rgss_dll_match_is_case_insensitive_and_top_level_only() {
    let snap = snapshot("x", &["rgss300.DLL"], &[]);
    assert!(has_rgss_dll(&snap, "rgss3"));
    let nested = snapshot("x", &["sub/RGSS300.dll"], &["sub"]);
    assert!(!has_rgss_dll(&nested, "rgss3"));
}

#[test]
fn renpy_scripts_must_sit_directly_inside_game() {
    let direct = snapshot("vn", &["game/intro.rpyc"], &["game"]);
    assert!(has_renpy_scripts(&direct));
    let nested = snapshot("vn", &["game/sub/intro.rpy"], &["game", "game/sub"]);
    assert!(!has_renpy_scripts(&nested));
}

#[test]
fn runtime_install_recognised_by_name_and_by_signature() {
    let by_name = snapshot("nwjs-v0.80.0-linux-x64", &[], &[]);
    assert!(is_nwjs_runtime_dir(&by_name));

    let by_signature = snapshot(
        "runtime",
        &["nw", "nw.pak", "icudtl.dat"],
        &["locales"],
    );
    assert!(is_nwjs_runtime_dir(&by_signature));

    let partial = snapshot("almost", &["nw", "icudtl.dat"], &["locales"]);
    assert!(!is_nwjs_runtime_dir(&partial));
}

#[test]
fn engine_tags_parse_and_print() {
    assert_eq!(EngineType::from_str("rpgmakermz"), EngineType::RpgMakerMZ);
    assert_eq!(EngineType::from_str("RPG_MAKER_MV"), EngineType::RpgMakerMV);
    assert_eq!(EngineType::from_str("renpy"), EngineType::RenPy);
    assert_eq!(EngineType::from_str("nwjs"), EngineType::NWjs);
    assert_eq!(EngineType::from_str("anything else"), EngineType::Other);
    assert_eq!(EngineType::RpgMakerVXAce.as_str(), "rpgmakervxace");
    assert_eq!(EngineType::Other.as_str(), "other");
}

#[test]
fn rpg_maker_layout_detection_names_the_core() {
    let mz = snapshot(
        "g",
        &["www/index.html", "package.json", "www/js/rmmz_core.js"],
        &["www"],
    );
    assert_eq!(detect_rpg_maker_engine(&mz), Some("rmmz".to_string()));
    let mv = snapshot(
        "g",
        &["www/index.html", "package.json", "www/js/rpg_core.js"],
        &["www"],
    );
    assert_eq!(detect_rpg_maker_engine(&mv), Some("rmmv".to_string()));
    let unknown = snapshot("g", &["www/index.html", "package.json"], &["www"]);
    assert_eq!(detect_rpg_maker_engine(&unknown), Some("unknown".to_string()));
    let missing = snapshot("g", &["package.json"], &[]);
    assert_eq!(detect_rpg_maker_engine(&missing), None);
}
