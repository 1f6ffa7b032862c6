use gamebox::errors::AppError;
use gamebox::records::Engine;
use gamebox::runtime::archive_download_path;
use gamebox::runtime::app_runtime_root;
use gamebox::runtime::build_download_url;
use gamebox::runtime::choose_stable_version;
use gamebox::runtime::current_target;
use gamebox::runtime::download_percent;
use gamebox::runtime::engine_update_info;
use gamebox::runtime::get_stable_info;
use gamebox::runtime::is_newer_version;
use gamebox::runtime::nwjs_archive_ext;
use gamebox::runtime::nwjs_executable_path;
use gamebox::runtime::resolve_stable_version;
use gamebox::runtime::runtime_install_dir;
use gamebox::runtime::NwjsFlavor;

#[test]
fn platform_targets_use_the_fixed_vocabulary() {
    assert_eq!(current_target("linux", "x86_64").unwrap(), "linux-x64");
    assert_eq!(current_target("windows", "x86_64").unwrap(), "win-x64");
    assert_eq!(current_target("windows", "aarch64").unwrap(), "win-arm64");
    assert_eq!(current_target("macos", "aarch64").unwrap(), "osx-arm64");
    assert!(matches!(
        current_target("freebsd", "x86_64").unwrap_err(),
        AppError::Unsupported(_)
    ));
    assert!(matches!(
        current_target("linux", "riscv64").unwrap_err(),
        AppError::Unsupported(_)
    ));
}

#[test]
fn archive_extension_follows_the_target() {
    assert_eq!(nwjs_archive_ext("linux-x64"), "tar.gz");
    assert_eq!(nwjs_archive_ext("linux-ia32"), "tar.gz");
    assert_eq!(nwjs_archive_ext("win-x64"), "zip");
    assert_eq!(nwjs_archive_ext("osx-arm64"), "zip");
}

#[test]
fn download_urls_follow_the_template() {
    assert_eq!(
        build_download_url("0.80.0", NwjsFlavor::Normal, "linux-x64"),
        "https://dl.nwjs.io/v0.80.0/nwjs-v0.80.0-linux-x64.tar.gz"
    );
    assert_eq!(
        build_download_url("0.80.0", NwjsFlavor::Sdk, "win-x64"),
        "https://dl.nwjs.io/v0.80.0/nwjs-sdk-v0.80.0-win-x64.zip"
    );
}

#[test]
fn version_discovery_prefers_stable_and_strips_the_v() {
    let v = resolve_stable_version("{\"stable\": \"v0.80.0\", \"latest\": \"v0.81.0\"}").unwrap();
    assert_eq!(v, "0.80.0");
    let v = resolve_stable_version("{\"latest\": \" V0.81.0 \"}").unwrap();
    assert_eq!(v, "0.81.0");
    assert!(matches!(
        resolve_stable_version("{}").unwrap_err(),
        AppError::Parse(_)
    ));
    assert!(matches!(
        resolve_stable_version("{\"stable\": \"vvv\"}").unwrap_err(),
        AppError::Parse(_)
    ));
    assert!(matches!(
        resolve_stable_version("not json at all").unwrap_err(),
        AppError::Parse(_)
    ));
}

#[test]
fn choose_stable_version_falls_back_to_latest() {
    assert_eq!(
        choose_stable_version(None, Some("v1.2.3".to_string())).unwrap(),
        "1.2.3"
    );
    assert_eq!(
        choose_stable_version(Some("2.0.0".to_string()), Some("9.9.9".to_string())).unwrap(),
        "2.0.0"
    );
    assert!(choose_stable_version(None, None).is_err());
}

#[test]
fn stable_info_carries_both_flavor_urls() {
    let info = get_stable_info("{\"stable\": \"0.80.0\"}", "linux", "x86_64").unwrap();
    assert_eq!(info.version, "0.80.0");
    assert_eq!(info.target, "linux-x64");
    assert_eq!(
        info.normal_url,
        "https://dl.nwjs.io/v0.80.0/nwjs-v0.80.0-linux-x64.tar.gz"
    );
    assert_eq!(
        info.sdk_url,
        "https://dl.nwjs.io/v0.80.0/nwjs-sdk-v0.80.0-linux-x64.tar.gz"
    );
}

#[test]
fn install_layout_is_root_version_flavor_target() {
    assert_eq!(app_runtime_root("/data"), "/data/runtimes/nwjs");
    assert_eq!(
        runtime_install_dir("/data/runtimes/nwjs", "0.80.0", NwjsFlavor::Normal, "linux-x64"),
        "/data/runtimes/nwjs/0.80.0/normal/linux-x64"
    );
    assert_eq!(
        runtime_install_dir("/r", "1.0", NwjsFlavor::Sdk, "win-x64"),
        "/r/1.0/sdk/win-x64"
    );
    assert_eq!(
        archive_download_path("/dl", "task1", "0.80.0", "linux-x64"),
        "/dl/task1-0.80.0-linux-x64.tar.gz"
    );
}

#[test]
fn runtime_executable_depends_on_the_os() {
    assert_eq!(nwjs_executable_path("/i", "linux").unwrap(), "/i/nw");
    assert_eq!(nwjs_executable_path("/i", "windows").unwrap(), "/i/nw.exe");
    assert_eq!(
        nwjs_executable_path("/i", "macos").unwrap(),
        "/i/nwjs.app/Contents/MacOS/nwjs"
    );
    assert!(matches!(
        nwjs_executable_path("/i", "plan9").unwrap_err(),
        AppError::Unsupported(_)
    ));
}

#[test]
fn download_percent_floors_and_caps() {
    assert_eq!(download_percent(0, Some(200)), Some(0));
    assert_eq!(download_percent(50, Some(200)), Some(25));
    assert_eq!(download_percent(199, Some(200)), Some(99));
    assert_eq!(download_percent(200, Some(200)), Some(100));
    assert_eq!(download_percent(400, Some(200)), Some(100));
    assert_eq!(download_percent(10, Some(0)), None);
    assert_eq!(download_percent(10, None), None);
}

#[test]
fn version_comparison_is_componentwise_with_zero_extension() {
    assert!(is_newer_version("0.77.0", "0.80.0"));
    assert!(!is_newer_version("0.80.0", "0.80.0"));
    assert!(!is_newer_version("0.80.1", "0.80.0"));
    assert!(!is_newer_version("1.2", "1.2.0"));
    assert!(is_newer_version("1.2", "1.2.1"));
    assert!(is_newer_version("1.9", "1.10"));
    assert!(is_newer_version("weird", "0.1"));
}

#[test]
fn update_info_reports_only_newer_stable_runtimes() {
    let engine = Engine::new(
        "e1".to_string(),
        "Runtime".to_string(),
        "0.77.0".to_string(),
        "nwjs".to_string(),
        "/install".to_string(),
    );
    let info = engine_update_info(&engine, &Some("0.80.0".to_string()));
    assert!(info.update_available);
    assert_eq!(info.current_version, "0.77.0");
    assert_eq!(info.latest_version, "0.80.0");

    let same = engine_update_info(&engine, &Some("0.77.0".to_string()));
    assert!(!same.update_available);

    let other = Engine::new(
        "e2".to_string(),
        "Else".to_string(),
        "1.0".to_string(),
        "custom".to_string(),
        "/x".to_string(),
    );
    let info = engine_update_info(&other, &Some("9.9".to_string()));
    assert!(!info.update_available);
    assert_eq!(info.latest_version, "1.0");
}
