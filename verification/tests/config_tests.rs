use gamebox::config::default_true;
use gamebox::config::encode_game_config;
use gamebox::config::ensure_user_data_arg;
use gamebox::config::has_user_data_arg;
use gamebox::config::parse_game_config;
use gamebox::config::validate_game_settings;
use gamebox::config::GameConfig;
use gamebox::errors::AppError;

fn sample() -> GameConfig {
    GameConfig {
        engine_type: "rpgmakermv".to_string(),
        entry_path: "www/index.html".to_string(),
        runtime_version: Some("0.80.0".to_string()),
        args: vec!["--force-cpu".to_string(), "--lang=en".to_string()],
        sandbox_home: false,
        cover_file: Some("cover.png".to_string()),
    }
}

fn assert_same(a: &GameConfig, b: &GameConfig) {
    assert_eq!(a.engine_type, b.engine_type);
    assert_eq!(a.entry_path, b.entry_path);
    assert_eq!(a.runtime_version, b.runtime_version);
    assert_eq!(a.args, b.args);
    assert_eq!(a.sandbox_home, b.sandbox_home);
    assert_eq!(a.cover_file, b.cover_file);
}

#[test]
fn settings_round_trip_preserves_every_field() {
    let c = sample();
    let text = encode_game_config(&c);
    let back = parse_game_config(&text).expect("the generated settings text must parse");
    assert_same(&c, &back);
}

#[test]
fn settings_round_trip_without_optional_fields() {
    let c = GameConfig {
        engine_type: "other".to_string(),
        entry_path: "run.sh".to_string(),
        runtime_version: None,
        args: Vec::new(),
        sandbox_home: true,
        cover_file: None,
    };
    let text = encode_game_config(&c);
    let back = parse_game_config(&text).expect("parse");
    assert_same(&c, &back);
}

#[test]
fn settings_round_trip_escapes_awkward_characters() {
    let c = GameConfig {
        engine_type: "renpy".to_string(),
        entry_path: "dir with \"quotes\"\\and\\backslashes".to_string(),
        runtime_version: Some("v\n1".to_string()),
        args: vec!["line\r\nbreak".to_string(), "".to_string(), "plain".to_string()],
        sandbox_home: true,
        cover_file: Some("we\"ird.png".to_string()),
    };
    let text = encode_game_config(&c);
    let back = parse_game_config(&text).expect("parse");
    assert_same(&c, &back);
}

#[test]
fn argument_order_survives_the_settings_file() {
    let c = GameConfig {
        engine_type: "nwjs".to_string(),
        entry_path: String::new(),
        runtime_version: None,
        args: vec!["one".to_string(), "two".to_string(), "three".to_string()],
        sandbox_home: false,
        cover_file: None,
    };
    let back = parse_game_config(&encode_game_config(&c)).expect("parse");
    assert_eq!(back.args, vec!["one", "two", "three"]);
}

#[test]
fn unreadable_settings_text_is_a_parse_error() {
    let e = parse_game_config("not a settings file").unwrap_err();
    assert!(matches!(e, AppError::Parse(_)));
    let e2 = parse_game_config("").unwrap_err();
    assert!(matches!(e2, AppError::Parse(_)));
}

#[test]
fn missing_sandbox_line_defaults_to_on() {
    // A settings file that only names the two mandatory fields parses, and
    // the absent fields take their defaults.
    let text = "engine_type = \"renpy\"\nentry_path = \"vn.sh\"\n";
    let c = parse_game_config(text).expect("parse");
    assert_eq!(c.engine_type, "renpy");
    assert_eq!(c.entry_path, "vn.sh");
    assert!(c.sandbox_home);
    assert!(c.args.is_empty());
    assert!(c.runtime_version.is_none());
    assert!(c.cover_file.is_none());
}

#[test]
fn missing_sandbox_line_keeps_later_fields() {
    let text = "engine_type = \"other\"\nentry_path = \"run\"\ncover_file = \"c.png\"\narg = \"--x\"\n";
    let c = parse_game_config(text).expect("parse");
    assert!(c.sandbox_home);
    assert_eq!(c.cover_file, Some("c.png".to_string()));
    assert_eq!(c.args, vec!["--x"]);
}

#[test]
fn default_config_has_the_sandbox_on() {
    let c = GameConfig::default();
    assert!(c.sandbox_home);
    assert!(c.args.is_empty());
    assert!(c.runtime_version.is_none());
    assert!(c.cover_file.is_none());
    assert!(default_true());
}

#[test]
fn ensure_user_data_arg_appends_once() {
    let mut args = vec!["--lang=en".to_string()];
    ensure_user_data_arg(&mut args, "/tmp/ud");
    assert_eq!(
        args,
        vec!["--lang=en".to_string(), "--user-data-dir=/tmp/ud".to_string()]
    );
    // A second application leaves the list unchanged.
    ensure_user_data_arg(&mut args, "/tmp/other");
    assert_eq!(args.len(), 2);
    assert!(has_user_data_arg(&args));
}

#[test]
fn ensure_user_data_arg_respects_the_bare_flag() {
    let mut args = vec!["--user-data-dir".to_string(), "/x".to_string()];
    ensure_user_data_arg(&mut args, "/tmp/ud");
    assert_eq!(args.len(), 2);
}

#[test]
fn settings_for_the_other_family_need_an_entry_path() {
    let e = validate_game_settings("other", "   ").unwrap_err();
    assert!(matches!(e, AppError::Validation(_)));
    assert!(validate_game_settings("other", "run.sh").is_ok());
    assert!(validate_game_settings("rpgmakermz", "").is_ok());
}
