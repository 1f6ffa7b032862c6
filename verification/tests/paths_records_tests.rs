use gamebox::bottles::build_bottles_status;
use gamebox::bottles::BottlesCli;
use gamebox::bottles::BottlesService;
use gamebox::config::GameConfig;
use gamebox::engine::EngineType;
use gamebox::errors::AppError;
use gamebox::fsmodel::file_name_of;
use gamebox::fsmodel::path_join;
use gamebox::fsmodel::DirSnapshot;
use gamebox::fsmodel::FileMeta;
use gamebox::paths::find_cover_candidate_from_icons;
use gamebox::paths::game_profile_dir;
use gamebox::paths::game_toml_path;
use gamebox::paths::game_user_data_dir;
use gamebox::paths::is_supported_image_ext;
use gamebox::paths::is_within_dir;
use gamebox::paths::pick_icon_dirs;
use gamebox::paths::resolve_cover_path;
use gamebox::paths::score_cover_candidate;
use gamebox::paths::FileService;
use gamebox::records::apply_game_update;
use gamebox::records::game_to_dto;
use gamebox::records::new_game_record;
use gamebox::records::plan_container_cleanup;
use gamebox::records::strings_contain;
use gamebox::records::AddGameInput;
use gamebox::records::Game;
use gamebox::records::UpdateGameInput;

fn snapshot(name: &str, files: &[(&str, u64)], dirs: &[&str]) -> DirSnapshot {
    DirSnapshot {
        dir_name: name.to_string(),
        files: files
            .iter()
            .map(|(p, s)| FileMeta {
                path: p.to_string(),
                size: *s,
                executable: false,
            })
            .collect(),
        dirs: dirs.iter().map(|d| d.to_string()).collect(),
    }
}

#[test]
fn container_layout_is_derived_from_root_and_key() {
    let fs = FileService::new();
    assert_eq!(fs.game_profile_dir("/c", "k"), "/c/profiles/k");
    assert_eq!(fs.game_user_data_dir("/c", "k"), "/c/profiles/k/User Data");
    assert_eq!(fs.game_crash_dir("/c", "k"), "/c/profiles/k/Crash Reports");
    assert_eq!(fs.game_config_path("/c", "k"), "/c/profiles/k/settings.toml");
    assert_eq!(game_profile_dir("/c", "id"), "/c/profiles/id");
    assert_eq!(game_user_data_dir("/c", "id"), "/c/profiles/id/User Data");
    assert_eq!(game_toml_path("/c", "id"), "/c/profiles/id/settings.toml");
    let dirs = fs.ensure_game_dirs("/c", "k");
    assert_eq!(dirs.len(), 3);
    assert_eq!(dirs[0], "/c/profiles/k");
}

#[test]
fn settings_file_round_trips_through_the_file_service() {
    let fs = FileService::new();
    let config = GameConfig {
        engine_type: "renpy".to_string(),
        entry_path: "vn.sh".to_string(),
        runtime_version: None,
        args: vec!["--a".to_string()],
        sandbox_home: true,
        cover_file: None,
    };
    let text = fs.write_game_config(&config);
    let back = fs.read_game_config(&text).expect("parse");
    assert_eq!(back.engine_type, "renpy");
    assert_eq!(back.entry_path, "vn.sh");
    assert_eq!(back.args, vec!["--a"]);
}

#[test]
fn migrate_profile_dir_moves_only_when_safe() {
    let fs = FileService::new();
    assert_eq!(fs.migrate_profile_dir("/c", "same", "same", true, false), None);
    assert_eq!(fs.migrate_profile_dir("/c", "old", "new", false, false), None);
    assert_eq!(fs.migrate_profile_dir("/c", "old", "new", true, true), None);
    assert_eq!(
        fs.migrate_profile_dir("/c", "old", "new", true, false),
        Some((
            "/c/profiles/old".to_string(),
            "/c/profiles/new".to_string()
        ))
    );
}

#[test]
fn path_containment_is_component_wise() {
    assert!(is_within_dir("/data/app/engines/x", "/data/app"));
    assert!(is_within_dir("/data/app", "/data/app"));
    assert!(!is_within_dir("/data/application", "/data/app"));
    assert!(!is_within_dir("/elsewhere", "/data/app"));
}

#[test]
fn path_containment_handles_the_root_and_trailing_slashes() {
    assert!(is_within_dir("/data/app", "/"));
    assert!(is_within_dir("/", "/"));
    assert!(is_within_dir("/data/app/x", "/data/app/"));
    assert!(is_within_dir("/data/app", "/data/app/"));
    assert!(is_within_dir("/data/app/", "/data/app"));
    assert!(!is_within_dir("relative/app", "/"));
}

#[test]
fn cover_candidates_are_tried_in_the_fixed_order() {
    let fs = FileService::new();
    let snap = snapshot("g", &[("icon.png", 1), ("cover.jpg", 1)], &[]);
    assert_eq!(fs.find_cover_image(&snap), Some("cover.jpg".to_string()));
    let icons = snapshot("g", &[("icon/art.webp", 1)], &["icon"]);
    assert_eq!(fs.find_cover_image(&icons), Some("icon/art.webp".to_string()));
    let nothing = snapshot("g", &[("readme.txt", 1)], &[]);
    assert_eq!(fs.find_cover_image(&nothing), None);
}

#[test]
fn icon_dir_images_must_be_images() {
    let fs = FileService::new();
    let snap = snapshot("g", &[("icon/readme.txt", 1), ("icon/pic.bmp", 1)], &["icon"]);
    assert_eq!(fs.find_icon_dir_image(&snap), Some("icon/pic.bmp".to_string()));
    assert!(fs.is_image_file("a/b.PNG"));
    assert!(!fs.is_image_file("a/b.txt"));
    assert!(!fs.is_image_file("noext"));
}

#[test]
fn resolve_cover_prefers_the_configured_file() {
    let profile = snapshot("p", &[("custom.webp", 1), ("cover.png", 1)], &[]);
    assert_eq!(
        resolve_cover_path(&profile, &Some("custom.webp".to_string())),
        Some("custom.webp".to_string())
    );
    assert_eq!(
        resolve_cover_path(&profile, &Some("gone.webp".to_string())),
        Some("cover.png".to_string())
    );
    let empty = snapshot("p", &[], &[]);
    assert_eq!(resolve_cover_path(&empty, &None), None);
}

#[test]
fn cover_scoring_weighs_keywords_extension_and_size() {
    // "cover" keyword (300) + png (30) + 2 KiB (2).
    assert_eq!(score_cover_candidate("icon/cover.png", 2048), 332);
    // "icon" keyword (80) + jpg (20), tiny file.
    assert_eq!(score_cover_candidate("icon.jpg", 100), 100);
    // The size bonus caps at 1024.
    assert_eq!(score_cover_candidate("x.bmp", 10 * 1024 * 1024), 1024);
    assert!(is_supported_image_ext("png"));
    assert!(!is_supported_image_ext("bmp"));
}

#[test]
fn icon_dirs_are_collected_with_case_folding_and_without_duplicates() {
    let snap = snapshot(
        "g",
        &[],
        &["icon", "www", "www/icons", "ICONS", "unrelated"],
    );
    assert_eq!(
        pick_icon_dirs(&snap),
        vec![
            "icon".to_string(),
            "www/icons".to_string(),
            "ICONS".to_string()
        ]
    );
}

#[test]
fn best_cover_candidate_wins_by_score() {
    let snap = snapshot(
        "g",
        &[
            ("icon/small.jpg", 1024),
            ("icon/cover.png", 1024),
            ("icon/huge.txt", 99999999),
        ],
        &["icon"],
    );
    assert_eq!(
        find_cover_candidate_from_icons(&snap),
        Some("icon/cover.png".to_string())
    );
    let none = snapshot("g", &[], &[]);
    assert_eq!(find_cover_candidate_from_icons(&none), None);
}

#[test]
fn new_game_records_take_title_key_and_id_shape() {
    let input = AddGameInput {
        title: None,
        engine_type: "rpgmakermz".to_string(),
        path: "/games/Great Game".to_string(),
        runtime_version: Some("0.80.0".to_string()),
    };
    let record = new_game_record(input, &vec![]);
    assert_eq!(record.title, "Great Game");
    assert_eq!(record.profile_key, "Great_Game-001");
    assert_eq!(record.engine_type, "rpgmakermz");
    assert_eq!(record.id.chars().count(), 36);
    assert_eq!(record.runtime_version, Some("0.80.0".to_string()));
    assert!(record.cover_path.is_none());
    assert_eq!(record.get_engine_type(), EngineType::RpgMakerMZ);
}

#[test]
fn game_updates_merge_present_fields_only() {
    let mut g = Game::new(
        "id".to_string(),
        "Key-001".to_string(),
        "Old".to_string(),
        EngineType::RenPy,
        "/old".to_string(),
        None,
    );
    apply_game_update(
        &mut g,
        UpdateGameInput {
            title: Some("New".to_string()),
            engine_type: None,
            path: None,
            runtime_version: Some("1.0".to_string()),
        },
    );
    assert_eq!(g.title, "New");
    assert_eq!(g.engine_type, "renpy");
    assert_eq!(g.path, "/old");
    assert_eq!(g.runtime_version, Some("1.0".to_string()));
}

#[test]
fn dto_conversion_copies_fields_and_takes_validity() {
    let g = Game::new(
        "id".to_string(),
        "Key-001".to_string(),
        "T".to_string(),
        EngineType::Other,
        "/p".to_string(),
        None,
    );
    let dto = game_to_dto(g, false);
    assert_eq!(dto.id, "id");
    assert!(!dto.path_valid);
    assert_eq!(dto.engine_type, "other");
}

#[test]
fn cleanup_deletes_only_orphaned_containers() {
    let names = vec![
        "Key-001".to_string(),
        "stale".to_string(),
        "Key-002".to_string(),
    ];
    let live = vec!["Key-001".to_string(), "Key-002".to_string()];
    assert_eq!(plan_container_cleanup(&names, &live), vec!["stale".to_string()]);
    assert!(strings_contain(&live, "Key-001"));
    assert!(!strings_contain(&live, "stale"));
}

#[test]
fn path_helpers_join_and_split() {
    assert_eq!(path_join("", "b"), "b");
    assert_eq!(path_join("a", "b/c"), "a/b/c");
    assert_eq!(file_name_of("/games/Great Game"), "Great Game");
    assert_eq!(file_name_of("plain"), "plain");
}

#[test]
fn bottles_cli_detection_prefers_the_desktop_install() {
    let flatpak = BottlesService::detect_cli_sync(true, true).unwrap();
    assert_eq!(flatpak.program, "flatpak");
    assert_eq!(
        flatpak.args_prefix,
        vec![
            "run".to_string(),
            "--command=bottles-cli".to_string(),
            "com.usebottles.bottles".to_string()
        ]
    );
    let bare = BottlesService::detect_cli_sync(false, true).unwrap();
    assert_eq!(bare.program, "bottles-cli");
    assert!(bare.args_prefix.is_empty());
    assert!(BottlesService::detect_cli_sync(false, false).is_none());
}

#[test]
fn bottles_text_listing_reads_marked_lines() {
    let raw = "INFO something\n- First Bottle \n* Second\nplain line\n\n-- Dashed --\n";
    assert_eq!(
        BottlesService::parse_bottles_text(raw),
        vec![
            "First Bottle".to_string(),
            "Second".to_string(),
            "Dashed --".to_string()
        ]
    );
}

#[test]
fn bottles_invocation_picks_the_path_switch() {
    let cli = BottlesCli::new("flatpak".to_string(), vec!["run".to_string()]);
    let (program, argv) = BottlesService::build_run_invocation(
        &cli,
        "MyBottle",
        "/abs/game.exe",
        &vec!["-w".to_string()],
    );
    assert_eq!(program, "flatpak");
    assert_eq!(
        argv,
        vec![
            "run".to_string(),
            "run".to_string(),
            "-e".to_string(),
            "/abs/game.exe".to_string(),
            "-b".to_string(),
            "MyBottle".to_string(),
            "--".to_string(),
            "-w".to_string()
        ]
    );
    let (_, argv2) =
        BottlesService::build_run_invocation(&cli, "B", "game.exe", &Vec::new());
    assert_eq!(
        argv2,
        vec![
            "run".to_string(),
            "run".to_string(),
            "-p".to_string(),
            "game.exe".to_string(),
            "-b".to_string(),
            "B".to_string()
        ]
    );
}

#[test]
fn bottles_status_is_enabled_only_when_installed() {
    let status = build_bottles_status(
        true,
        false,
        true,
        vec!["b1".to_string()],
        Some("b1".to_string()),
    );
    assert_eq!(status.key, "bottles");
    assert!(status.available);
    assert!(!status.enabled);
    let options = status.options.unwrap();
    assert_eq!(options.installed, Some(false));
    assert_eq!(options.bottles, Some(vec!["b1".to_string()]));
    assert_eq!(options.default_bottle, Some("b1".to_string()));
}

#[test]
fn error_messages_are_carried_verbatim() {
    let e = AppError::UnsafePath("bad entry".to_string());
    assert_eq!(e.message(), "bad entry");
}

#[test]
fn clock_reads_after_the_epoch() {
    assert!(gamebox::records::now_unix_ms() > 1_600_000_000_000);
}

#[test]
fn junk_bytes_carry_no_executable_icon() {
    let junk = vec![0u8, 1, 2, 3, 4, 5];
    assert!(gamebox::paths::save_exe_icon_to_profile("/c", "k", &junk).is_none());
}

#[test]
fn read_game_title_uses_the_directory_name() {
    assert_eq!(gamebox::records::read_game_title("/games/Great Game"), "Great Game");
    assert_eq!(gamebox::records::read_game_title(""), "Untitled");
}
