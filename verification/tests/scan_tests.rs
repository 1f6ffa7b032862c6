use gamebox::engine::EngineType;
use gamebox::fsmodel::DirSnapshot;
use gamebox::fsmodel::FileMeta;
use gamebox::scan::count_dirs;
use gamebox::scan::percent_of;
use gamebox::scan::plan_scan_imports;
use gamebox::scan::scan_games_tree;
use gamebox::scan::FsTree;
use gamebox::scan::ScanNode;

fn snapshot(name: &str, files: &[&str], dirs: &[&str]) -> DirSnapshot {
    DirSnapshot {
        dir_name: name.to_string(),
        files: files
            .iter()
            .map(|p| FileMeta {
                path: p.to_string(),
                size: 0,
                executable: false,
            })
            .collect(),
        dirs: dirs.iter().map(|d| d.to_string()).collect(),
    }
}

fn node(name: &str, files: &[&str], dirs: &[&str], children: &[usize]) -> ScanNode {
    ScanNode {
        snapshot: snapshot(name, files, dirs),
        children: children.to_vec(),
    }
}

fn mz_markers() -> Vec<&'static str> {
    vec!["js/rmmz_core.js", "data/System.json"]
}

#[test]
fn scan_finds_games_at_different_depths() {
    // 0: root -> [1: plain dir -> [3: deep game], 2: shallow game]
    let tree = FsTree {
        nodes: vec![
            node("root", &[], &["a", "b"], &[1, 2]),
            node("a", &[], &["deep"], &[3]),
            node("b", &mz_markers(), &["js", "data"], &[]),
            node("deep", &mz_markers(), &["js", "data"], &[]),
        ],
    };
    let outcome = scan_games_tree(&tree, 5);
    assert_eq!(outcome.visited.len(), 4);
    assert_eq!(outcome.visited[0], (0, 0));
    let found: Vec<usize> = outcome.found.iter().map(|f| f.0).collect();
    assert!(found.contains(&2));
    assert!(found.contains(&3));
    assert!(outcome
        .found
        .iter()
        .all(|f| f.1 == EngineType::RpgMakerMZ));
}

#[test]
fn scan_with_depth_zero_inspects_only_the_root() {
    let tree = FsTree {
        nodes: vec![
            node("root", &[], &["a"], &[1]),
            node("a", &mz_markers(), &["js", "data"], &[]),
        ],
    };
    let outcome = scan_games_tree(&tree, 0);
    assert_eq!(outcome.visited, vec![(0, 0)]);
    assert!(outcome.found.is_empty());
}

#[test]
fn scan_does_not_descend_below_a_classified_directory() {
    // The game at node 1 contains another game at node 2.
    let tree = FsTree {
        nodes: vec![
            node("root", &[], &["g"], &[1]),
            node("g", &mz_markers(), &["js", "data", "inner"], &[2]),
            node("inner", &mz_markers(), &["js", "data"], &[]),
        ],
    };
    let outcome = scan_games_tree(&tree, 5);
    assert_eq!(outcome.visited, vec![(0, 0), (1, 1)]);
    assert_eq!(outcome.found.len(), 1);
    assert_eq!(outcome.found[0].0, 1);
}

#[test]
fn scan_skips_hidden_directories_and_runtime_installs() {
    let tree = FsTree {
        nodes: vec![
            node("root", &[], &[".cache", "rt"], &[1, 2]),
            node(".cache", &mz_markers(), &["js", "data"], &[]),
            node(
                "rt",
                &["nw", "nw.pak", "icudtl.dat", "js/rmmz_core.js", "data/System.json"],
                &["locales", "js", "data"],
                &[],
            ),
        ],
    };
    let outcome = scan_games_tree(&tree, 5);
    // The hidden directory is never visited; the runtime install is visited
    // but never classified.
    assert!(outcome.visited.iter().all(|e| e.0 != 1));
    assert!(outcome.visited.iter().any(|e| e.0 == 2));
    assert!(outcome.found.is_empty());
}

#[test]
fn scan_respects_the_depth_limit() {
    let tree = FsTree {
        nodes: vec![
            node("root", &[], &["a"], &[1]),
            node("a", &[], &["b"], &[2]),
            node("b", &mz_markers(), &["js", "data"], &[]),
        ],
    };
    let shallow = scan_games_tree(&tree, 1);
    assert_eq!(shallow.visited, vec![(0, 0), (1, 1)]);
    assert!(shallow.found.is_empty());
    let deep = scan_games_tree(&tree, 2);
    assert_eq!(deep.visited, vec![(0, 0), (1, 1), (2, 2)]);
    assert_eq!(deep.found.len(), 1);
}

#[test]
fn count_dirs_counts_reachable_directories_with_a_floor_of_one() {
    let tree = FsTree {
        nodes: vec![
            node("root", &[], &["a"], &[1]),
            node("a", &[], &["b"], &[2]),
            node("b", &[], &[], &[]),
        ],
    };
    assert_eq!(count_dirs(&tree, 5), 3);
    assert_eq!(count_dirs(&tree, 0), 1);
    let lone = FsTree {
        nodes: vec![node("root", &[], &[], &[])],
    };
    assert_eq!(count_dirs(&lone, 5), 1);
}

#[test]
fn scan_progress_stays_within_bounds() {
    let mut nodes = vec![node("root", &[], &[], &[])];
    let children: Vec<usize> = (1..=40).collect();
    nodes[0].children = children.clone();
    for i in children {
        nodes.push(node(&format!("d{}", i), &[], &[], &[]));
    }
    let tree = FsTree { nodes };
    let outcome = scan_games_tree(&tree, 3);
    assert_eq!(outcome.total_dirs, 41);
    assert!(!outcome.progress.is_empty());
    assert!(outcome.progress.iter().all(|p| *p <= 100));
    assert!(outcome.progress.windows(2).all(|w| w[0] <= w[1]));
    // Events fall at the 20th and 40th visits and on completion.
    assert_eq!(outcome.progress.len(), 3);
    assert_eq!(*outcome.progress.last().unwrap(), 100);
}

#[test]
fn percent_of_floors_and_caps() {
    assert_eq!(percent_of(1, 3), 33);
    assert_eq!(percent_of(3, 3), 100);
    assert_eq!(percent_of(9, 3), 100);
    assert_eq!(percent_of(0, 7), 0);
    assert_eq!(percent_of(5, 0), 0);
}

#[test]
fn import_plan_skips_known_paths_and_in_run_duplicates() {
    let found = vec![
        "/g/one".to_string(),
        "/g/two".to_string(),
        "/g/one".to_string(),
        "/g/three".to_string(),
    ];
    let existing = vec!["/g/two".to_string()];
    let (to_import, skipped) = plan_scan_imports(found, existing);
    assert_eq!(to_import, vec!["/g/one".to_string(), "/g/three".to_string()]);
    assert_eq!(skipped, 2);
}
