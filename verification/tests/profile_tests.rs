use gamebox::profile::format_profile_key;
use gamebox::profile::generate_profile_key;
use gamebox::profile::generate_profile_key_from_used;
use gamebox::profile::needs_profile_key_migration;
use gamebox::profile::parse_profile_suffix;
use gamebox::profile::plan_profile_key_migrations;
use gamebox::profile::sanitize_profile_base;
use gamebox::profile::ProfileEntry;
use gamebox::records::new_game_record;
use gamebox::records::AddGameInput;

#[test]
fn generate_profile_key_twice_from_empty_registry() {
    let mut registry: Vec<String> = Vec::new();
    let first = generate_profile_key("My Game", &registry);
    assert_eq!(first, "My_Game-001");
    registry.push(first);
    let second = generate_profile_key("My Game", &registry);
    assert_eq!(second, "My_Game-002");
}

#[test]
fn generate_profile_key_takes_successor_of_maximum() {
    let registry = vec![
        "My_Game-001".to_string(),
        "My_Game-007".to_string(),
        "Other-003".to_string(),
    ];
    assert_eq!(generate_profile_key("My Game", &registry), "My_Game-008");
}

#[test]
fn uuid_shaped_key_needs_migration_and_readable_key_does_not() {
    assert!(needs_profile_key_migration(
        "123e4567-e89b-12d3-a456-426614174000"
    ));
    assert!(!needs_profile_key_migration("My_Game-001"));
}

#[test]
fn empty_and_blank_keys_need_migration() {
    assert!(needs_profile_key_migration(""));
    assert!(needs_profile_key_migration("   "));
}

#[test]
fn fresh_record_ids_are_uuid_shaped() {
    let record = new_game_record(
        AddGameInput {
            title: Some("T".to_string()),
            engine_type: "other".to_string(),
            path: "/t".to_string(),
            runtime_version: None,
        },
        &Vec::new(),
    );
    assert_eq!(record.id.chars().count(), 36);
    assert_eq!(record.id.chars().filter(|c| *c == '-').count(), 4);
    // A record id used as a profile key would be flagged as legacy.
    assert!(needs_profile_key_migration(&record.id));
}

#[test]
fn thirty_six_chars_without_four_hyphens_is_not_uuid_shaped() {
    assert!(!needs_profile_key_migration(
        "abcdefghijklmnopqrstuvwxyz0123456789"
    ));
}

#[test]
fn sanitize_strips_separators_and_collapses_whitespace() {
    assert_eq!(sanitize_profile_base("My Game"), "My_Game");
    assert_eq!(sanitize_profile_base("a  b"), "a_b");
    assert_eq!(sanitize_profile_base("a/b\\c:d"), "abcd");
    assert_eq!(sanitize_profile_base("  spaced  "), "spaced");
}

#[test]
fn sanitize_falls_back_to_game_and_truncates() {
    assert_eq!(sanitize_profile_base(""), "game");
    assert_eq!(sanitize_profile_base("///:::"), "game");
    let long = "x".repeat(60);
    assert_eq!(sanitize_profile_base(&long).chars().count(), 40);
}

#[test]
fn parse_profile_suffix_reads_only_matching_keys() {
    assert_eq!(parse_profile_suffix("My_Game-001", "My_Game"), Some(1));
    assert_eq!(parse_profile_suffix("My_Game-123", "My_Game"), Some(123));
    assert_eq!(parse_profile_suffix("My_Game-abc", "My_Game"), None);
    assert_eq!(parse_profile_suffix("Other-001", "My_Game"), None);
    assert_eq!(parse_profile_suffix("My_Game", "My_Game"), None);
}

#[test]
fn format_profile_key_zero_pads_to_three_digits() {
    assert_eq!(format_profile_key("base", 1), "base-001");
    assert_eq!(format_profile_key("base", 42), "base-042");
    assert_eq!(format_profile_key("base", 1234), "base-1234");
}

#[test]
fn migration_plan_renames_legacy_keys_only() {
    let entries = vec![
        ProfileEntry {
            id: "a".to_string(),
            title: "Kept Game".to_string(),
            profile_key: "Kept_Game-001".to_string(),
        },
        ProfileEntry {
            id: "b".to_string(),
            title: "Old Game".to_string(),
            profile_key: "123e4567-e89b-12d3-a456-426614174000".to_string(),
        },
    ];
    let plan = plan_profile_key_migrations(entries);
    assert_eq!(plan.len(), 1);
    assert_eq!(plan[0].id, "b");
    assert_eq!(plan[0].old_key, "123e4567-e89b-12d3-a456-426614174000");
    assert_eq!(plan[0].new_key, "Old_Game-001");
}

#[test]
fn migration_plan_numbers_duplicate_titles_apart() {
    let entries = vec![
        ProfileEntry {
            id: "a".to_string(),
            title: "Game".to_string(),
            profile_key: "123e4567-e89b-12d3-a456-426614174000".to_string(),
        },
        ProfileEntry {
            id: "b".to_string(),
            title: "Game".to_string(),
            profile_key: "223e4567-e89b-12d3-a456-426614174000".to_string(),
        },
    ];
    let plan = plan_profile_key_migrations(entries);
    assert_eq!(plan.len(), 2);
    assert_eq!(plan[0].new_key, "Game-001");
    assert_eq!(plan[1].new_key, "Game-002");
}

#[test]
fn generate_from_used_matches_generate() {
    let used = vec!["T-001".to_string()];
    assert_eq!(generate_profile_key_from_used("T", &used), "T-002");
}
