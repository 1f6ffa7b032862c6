use gamebox::config::GameConfig;
use gamebox::engine::EngineType;
use gamebox::errors::AppError;
use gamebox::fsmodel::DirSnapshot;
use gamebox::fsmodel::FileMeta;
use gamebox::launch::LauncherService;
use gamebox::launch::Platform;
use gamebox::records::Game;

fn snapshot(name: &str, files: &[(&str, bool)], dirs: &[&str]) -> DirSnapshot {
    DirSnapshot {
        dir_name: name.to_string(),
        files: files
            .iter()
            .map(|(p, x)| FileMeta {
                path: p.to_string(),
                size: 0,
                executable: *x,
            })
            .collect(),
        dirs: dirs.iter().map(|d| d.to_string()).collect(),
    }
}

fn game(engine: EngineType, path: &str) -> Game {
    Game::new(
        "id-1".to_string(),
        "My_Game-001".to_string(),
        "My Game".to_string(),
        engine,
        path.to_string(),
        None,
    )
}

#[test]
fn legacy_launch_redirects_home_into_the_container() {
    let service = LauncherService::new();
    let g = game(EngineType::RpgMakerVX, "/games/vx");
    let snap = snapshot("vx", &[("Game.exe", false)], &[]);
    let plan = service
        .launch_game(
            &g,
            "/root",
            &snap,
            true,
            &None,
            &snapshot("empty", &[], &[]),
            &None,
            None,
            false,
            Platform::Linux,
        )
        .expect("plan");
    assert_eq!(plan.program, "/games/vx/Game.exe");
    assert_eq!(plan.cwd, "/games/vx");
    assert_eq!(
        plan.env,
        vec![(
            "HOME".to_string(),
            "/root/profiles/My_Game-001/User Data".to_string()
        )]
    );
    assert!(plan.args.is_empty());
    assert_eq!(
        plan.dirs_to_create,
        vec![
            "/root/profiles/My_Game-001".to_string(),
            "/root/profiles/My_Game-001/User Data".to_string(),
            "/root/profiles/My_Game-001/Crash Reports".to_string(),
        ]
    );
}

#[test]
fn legacy_candidates_are_tried_in_order() {
    let service = LauncherService::new();
    let snap = snapshot("vx", &[("RPG_RT.exe", false), ("Game", false)], &[]);
    let p = service
        .find_rpg_maker_executable("/g", &snap, None, false)
        .unwrap();
    assert_eq!(p, "/g/Game");
    let none = snapshot("vx", &[("readme.txt", false)], &[]);
    assert!(matches!(
        service
            .find_rpg_maker_executable("/g", &none, None, false)
            .unwrap_err(),
        AppError::NotFound(_)
    ));
}

#[test]
fn runtime_launch_appends_flags_arguments_and_app_root() {
    let service = LauncherService::new();
    let g = game(EngineType::RpgMakerMV, "/games/mv");
    let game_snap = snapshot("mv", &[("package.json", false)], &[]);
    let runtime_snap = snapshot("rt", &[("nw", true)], &[]);
    let config = GameConfig {
        engine_type: "rpgmakermv".to_string(),
        entry_path: String::new(),
        runtime_version: None,
        args: vec!["--lang=en".to_string()],
        sandbox_home: true,
        cover_file: None,
    };
    let plan = service
        .launch_game(
            &g,
            "/root",
            &game_snap,
            true,
            &Some("/rt".to_string()),
            &runtime_snap,
            &None,
            Some(&config),
            false,
            Platform::Linux,
        )
        .expect("plan");
    assert_eq!(plan.program, "/rt/nw");
    assert_eq!(
        plan.args,
        vec![
            "--user-data-dir=/root/profiles/My_Game-001/User Data".to_string(),
            "--crash-dumps-dir=/root/profiles/My_Game-001/Crash Reports".to_string(),
            "--lang=en".to_string(),
            "/games/mv".to_string(),
        ]
    );
    assert_eq!(
        plan.env,
        vec![(
            "BREAKPAD_DUMP_LOCATION".to_string(),
            "/root/profiles/My_Game-001/Crash Reports".to_string()
        )]
    );
}

#[test]
fn runtime_launch_without_sandbox_keeps_only_the_arguments() {
    let service = LauncherService::new();
    let g = game(EngineType::RpgMakerMZ, "/games/mz");
    let game_snap = snapshot("mz", &[("nw", false), ("www/package.json", false)], &["www"]);
    let config = GameConfig {
        engine_type: "rpgmakermz".to_string(),
        entry_path: String::new(),
        runtime_version: None,
        args: vec!["--x".to_string()],
        sandbox_home: false,
        cover_file: None,
    };
    let plan = service
        .launch_game(
            &g,
            "/root",
            &game_snap,
            true,
            &None,
            &snapshot("empty", &[], &[]),
            &None,
            Some(&config),
            false,
            Platform::Linux,
        )
        .expect("plan");
    // The runtime executable is found inside the game directory itself, and
    // the application root falls back to the www/ manifest location.
    assert_eq!(plan.program, "/games/mz/nw");
    assert_eq!(
        plan.args,
        vec!["--x".to_string(), "/games/mz/www".to_string()]
    );
    assert!(plan.env.is_empty());
}

#[test]
fn runtime_lookup_falls_back_to_the_system_path() {
    let service = LauncherService::new();
    let empty = snapshot("empty", &[], &[]);
    let p = service
        .find_nwjs_executable("/g", &empty, &None, &empty, &Some("/usr/bin/nw".to_string()))
        .unwrap();
    assert_eq!(p, "/usr/bin/nw");
    assert!(matches!(
        service
            .find_nwjs_executable("/g", &empty, &None, &empty, &None)
            .unwrap_err(),
        AppError::NotFound(_)
    ));
}

#[test]
fn missing_game_path_is_not_found() {
    let service = LauncherService::new();
    let g = game(EngineType::RpgMakerVX, "/gone");
    let snap = snapshot("vx", &[("Game.exe", false)], &[]);
    let err = service
        .launch_game(
            &g,
            "/root",
            &snap,
            false,
            &None,
            &snapshot("empty", &[], &[]),
            &None,
            None,
            false,
            Platform::Linux,
        )
        .unwrap_err();
    assert!(matches!(err, AppError::NotFound(_)));
}

#[test]
fn the_other_family_requires_an_entry_path() {
    let service = LauncherService::new();
    let g = game(EngineType::Other, "/games/x");
    let snap = snapshot("x", &[("run.sh", true)], &[]);
    let err = service
        .launch_game(
            &g,
            "/root",
            &snap,
            true,
            &None,
            &snapshot("empty", &[], &[]),
            &None,
            None,
            false,
            Platform::Linux,
        )
        .unwrap_err();
    assert!(matches!(err, AppError::Validation(_)));

    let config = GameConfig {
        engine_type: "other".to_string(),
        entry_path: " run.sh ".to_string(),
        runtime_version: None,
        args: Vec::new(),
        sandbox_home: true,
        cover_file: None,
    };
    let plan = service
        .launch_game(
            &g,
            "/root",
            &snap,
            true,
            &None,
            &snapshot("empty", &[], &[]),
            &None,
            Some(&config),
            false,
            Platform::Linux,
        )
        .expect("plan");
    assert_eq!(plan.program, "/games/x/run.sh");
}

#[test]
fn entry_override_resolution_rules() {
    let service = LauncherService::new();
    let snap = snapshot("g", &[("www/index.html", false)], &["www"]);
    assert_eq!(
        service.resolve_entry_path("/g", &snap, Some("www/index.html"), false),
        Some("/g/www/index.html".to_string())
    );
    assert_eq!(service.resolve_entry_path("/g", &snap, Some("missing"), false), None);
    assert_eq!(
        service.resolve_entry_path("/g", &snap, Some("/abs/bin"), true),
        Some("/abs/bin".to_string())
    );
    assert_eq!(service.resolve_entry_path("/g", &snap, Some("/abs/bin"), false), None);
    assert_eq!(service.resolve_entry_path("/g", &snap, Some("   "), true), None);
}

#[test]
fn extension_search_prefers_the_directory_name() {
    let service = LauncherService::new();
    let snap = snapshot(
        "MyGame",
        &[("setup.exe", false), ("mygame.exe", false)],
        &[],
    );
    let exts = vec!["exe".to_string(), "bat".to_string(), "cmd".to_string()];
    assert_eq!(
        service.find_executable_by_extension(&snap, &exts),
        Some("mygame.exe".to_string())
    );
    let no_match = snapshot("MyGame", &[("setup.exe", false)], &[]);
    assert_eq!(
        service.find_executable_by_extension(&no_match, &exts),
        Some("setup.exe".to_string())
    );
}

#[test]
fn unix_search_wants_an_executable_bit() {
    let service = LauncherService::new();
    let sh = snapshot("g", &[("start.sh", true), ("other.bin", true)], &[]);
    assert_eq!(
        service.find_unix_executable(&sh),
        Some("start.sh".to_string())
    );
    let plain = snapshot("g", &[("start.sh", false), ("other.bin", true)], &[]);
    assert_eq!(
        service.find_unix_executable(&plain),
        Some("other.bin".to_string())
    );
    let none = snapshot("g", &[("readme.txt", false)], &[]);
    assert_eq!(service.find_unix_executable(&none), None);
}

#[test]
fn macos_search_finds_the_bundled_binary() {
    let service = LauncherService::new();
    let snap = snapshot(
        "g",
        &[("Game.app/Contents/MacOS/Game", false)],
        &["Game.app", "Game.app/Contents", "Game.app/Contents/MacOS"],
    );
    assert_eq!(
        service.find_root_executable(Platform::MacOs, &snap),
        Some("Game.app/Contents/MacOS/Game".to_string())
    );
    assert_eq!(service.find_root_executable(Platform::OtherOs, &snap), None);
}

#[test]
fn renpy_launch_uses_the_platform_search() {
    let service = LauncherService::new();
    let g = game(EngineType::RenPy, "/games/vn");
    let snap = snapshot("vn", &[("vn.sh", true), ("game/script.rpy", false)], &["game"]);
    let plan = service
        .launch_game(
            &g,
            "/root",
            &snap,
            true,
            &None,
            &snapshot("empty", &[], &[]),
            &None,
            None,
            false,
            Platform::Linux,
        )
        .expect("plan");
    assert_eq!(plan.program, "/games/vn/vn.sh");
    assert_eq!(
        plan.env,
        vec![(
            "HOME".to_string(),
            "/root/profiles/My_Game-001/User Data".to_string()
        )]
    );
}
