//! Runtime provisioning decisions: version discovery from the release
//! manifest, platform target naming, download URL construction, install-path
//! layout, download progress arithmetic, and version comparison.

use vstd::prelude::*;
use vstd::string::StringExecFns;

use crate::errors::AppError;
use crate::records::Engine;
use crate::records::EngineUpdateInfo;
use crate::text::chars_start_with;
use crate::text::chars_string;
use crate::text::parse_u32_digits;
use crate::text::spec_all_digits;
use crate::text::spec_dec_value;
use crate::text::spec_trim;
use crate::text::str_chars;
use crate::text::str_eq;
use crate::text::trim_chars;

verus! {

/// The build variant of the external runtime.
#[derive(Clone, Copy, PartialEq, Eq, Structural, Debug)]
pub enum NwjsFlavor {
    /// The normal end-user build.
    Normal,
    /// The SDK build with developer tooling.
    Sdk,
}

/// The token of a flavor in paths and URLs.
pub open spec fn spec_flavor_str(f: NwjsFlavor) -> Seq<char> {
    match f {
        NwjsFlavor::Normal => "normal"@,
        NwjsFlavor::Sdk => "sdk"@,
    }
}

impl NwjsFlavor {
    /// The token of this flavor in paths.
    pub fn as_str(&self) -> (r: &'static str)
        ensures
            r@ == spec_flavor_str(*self),
    {
        match self {
            NwjsFlavor::Normal => "normal",
            NwjsFlavor::Sdk => "sdk",
        }
    }
}

/// The discovered stable release: version, platform target, and the
/// download URLs of both flavors.
pub struct NwjsStableInfo {
    pub version: String,
    pub target: String,
    pub normal_url: String,
    pub sdk_url: String,
}

/// The outcome of one runtime install.
pub struct NwjsInstallResult {
    pub task_id: String,
    pub version: String,
    pub flavor: NwjsFlavor,
    pub target: String,
    pub install_dir: String,
}

/// One download progress notification.
pub struct NwjsDownloadProgress {
    pub task_id: String,
    pub version: String,
    pub flavor: NwjsFlavor,
    pub target: String,
    pub downloaded: u64,
    pub total: Option<u64>,
    pub percent: Option<u8>,
}

// === platform targets ===

/// The platform token of an (OS, architecture) pair, if the official
/// downloads cover it.
pub open spec fn spec_target_of(os: Seq<char>, arch: Seq<char>) -> Option<Seq<char>> {
    if os == "windows"@ && arch == "x86_64"@ {
        Some("win-x64"@)
    } else if os == "windows"@ && arch == "x86"@ {
        Some("win-ia32"@)
    } else if os == "windows"@ && arch == "aarch64"@ {
        Some("win-arm64"@)
    } else if os == "linux"@ && arch == "x86_64"@ {
        Some("linux-x64"@)
    } else if os == "linux"@ && arch == "x86"@ {
        Some("linux-ia32"@)
    } else if os == "macos"@ && arch == "x86_64"@ {
        Some("osx-x64"@)
    } else if os == "macos"@ && arch == "aarch64"@ {
        Some("osx-arm64"@)
    } else {
        None
    }
}

/// Maps an (OS, architecture) pair to the fixed vocabulary of platform
/// tokens; unsupported combinations are a hard error.
pub fn current_target(os: &str, arch: &str) -> (r: Result<String, AppError>)
    ensures
        match r {
            Ok(t) => spec_target_of(os@, arch@) == Some(t@),
            Err(e) => spec_target_of(os@, arch@) is None && e is Unsupported,
        },
{
    let is_win = str_eq(os, "windows");
    let is_linux = str_eq(os, "linux");
    let is_mac = str_eq(os, "macos");
    let is_x64 = str_eq(arch, "x86_64");
    let is_x86 = str_eq(arch, "x86");
    let is_arm = str_eq(arch, "aarch64");
    if is_win && is_x64 {
        Ok("win-x64".to_owned())
    } else if is_win && is_x86 {
        Ok("win-ia32".to_owned())
    } else if is_win && is_arm {
        Ok("win-arm64".to_owned())
    } else if is_linux && is_x64 {
        Ok("linux-x64".to_owned())
    } else if is_linux && is_x86 {
        Ok("linux-ia32".to_owned())
    } else if is_mac && is_x64 {
        Ok("osx-x64".to_owned())
    } else if is_mac && is_arm {
        Ok("osx-arm64".to_owned())
    } else {
        Err(AppError::Unsupported("unsupported platform for official downloads".to_owned()))
    }
}

/// The archive extension of a target: `tar.gz` for the Linux tokens, `zip`
/// for the rest.
pub open spec fn spec_archive_ext(target: Seq<char>) -> Seq<char> {
    if "linux-"@.is_prefix_of(target) {
        "tar.gz"@
    } else {
        "zip"@
    }
}

/// The archive extension the downloads use for a target.
pub fn nwjs_archive_ext(target: &str) -> (r: String)
    ensures
        r@ == spec_archive_ext(target@),
{
    let tv = str_chars(target);
    if chars_start_with(&tv, &str_chars("linux-")) {
        "tar.gz".to_owned()
    } else {
        "zip".to_owned()
    }
}

/// The download URL of a release: the fixed host, the `v`-prefixed version
/// directory, and the flavored archive name.
pub open spec fn spec_download_url(version: Seq<char>, flavor: NwjsFlavor, target: Seq<char>) -> Seq<
    char,
> {
    let prefix = match flavor {
        NwjsFlavor::Normal => "nwjs"@,
        NwjsFlavor::Sdk => "nwjs-sdk"@,
    };
    "https://dl.nwjs.io/v"@ + version + "/"@ + prefix + "-v"@ + version + "-"@ + target + "."@
        + spec_archive_ext(target)
}

/// Builds the download URL of a release from version, flavor and target.
pub fn build_download_url(version: &str, flavor: NwjsFlavor, target: &str) -> (r: String)
    ensures
        r@ == spec_download_url(version@, flavor, target@),
{
    let mut s: String = "https://dl.nwjs.io/v".to_owned();
    s.append(version);
    s.append("/");
    match flavor {
        NwjsFlavor::Normal => s.append("nwjs"),
        NwjsFlavor::Sdk => s.append("nwjs-sdk"),
    }
    s.append("-v");
    s.append(version);
    s.append("-");
    s.append(target);
    s.append(".");
    let ext = nwjs_archive_ext(target);
    s.append(ext.as_str());
    s
}

// === version discovery ===

/// What the release manifest holds: its `stable` and `latest` string
/// fields, when the text parses as JSON (absent on any other JSON shape);
/// nothing when the text does not parse. The fields are a function of the
/// text alone.
pub uninterp spec fn manifest_versions_of(text: Seq<char>) -> Option<
    (Option<Seq<char>>, Option<Seq<char>>),
>;

/// The view of the wrapper's result shape.
pub open spec fn spec_manifest_view(r: Option<(Option<String>, Option<String>)>) -> Option<
    (Option<Seq<char>>, Option<Seq<char>>),
> {
    match r {
        None => None,
        Some((s, l)) => Some(
            (
                match s {
                    Some(x) => Some(x@),
                    None => None,
                },
                match l {
                    Some(x) => Some(x@),
                    None => None,
                },
            ),
        ),
    }
}

/// Relies on `serde_json::from_str` to `serde_json::Value`, `Value::get` and
/// `Value::as_str`: reads the `stable` and `latest` string fields of the
/// JSON version manifest. The result depends on the text alone and is named
/// `manifest_versions_of`.
#[verifier::external_body]
fn parse_version_manifest(text: &str) -> (r: Option<(Option<String>, Option<String>)>)
    ensures
        spec_manifest_view(r) == manifest_versions_of(text@),
{
    let value: serde_json::Value = serde_json::from_str(text).ok()?;
    let stable = value.get("stable").and_then(|v| v.as_str()).map(|s| s.to_string());
    let latest = value.get("latest").and_then(|v| v.as_str()).map(|s| s.to_string());
    Some((stable, latest))
}

/// The sequence with a leading run of `v`/`V` characters removed.
pub open spec fn spec_strip_v(s: Seq<char>) -> Seq<char>
    decreases s.len(),
{
    if s.len() == 0 {
        s
    } else if s[0] == 'v' || s[0] == 'V' {
        spec_strip_v(s.skip(1))
    } else {
        s
    }
}

/// The version the manifest fields yield: the `stable` field, else the
/// `latest` field, trimmed and with any leading `v`/`V` stripped; nothing
/// when both fields are absent or the remainder is empty.
pub open spec fn spec_choose_version(
    stable: Option<Seq<char>>,
    latest: Option<Seq<char>>,
) -> Option<Seq<char>> {
    let raw = match stable {
        Some(s) => Some(s),
        None => latest,
    };
    match raw {
        None => None,
        Some(s) => {
            let v = spec_strip_v(spec_trim(s));
            if v.len() == 0 {
                None
            } else {
                Some(v)
            }
        },
    }
}

/// Prefers the `stable` field over `latest`, trims it and strips a leading
/// `v`/`V` run; an absent or empty version is a parse error.
pub fn choose_stable_version(stable: Option<String>, latest: Option<String>) -> (r: Result<
    String,
    AppError,
>)
    ensures
        match r {
            Ok(v) => spec_choose_version(
                match stable {
                    Some(s) => Some(s@),
                    None => None,
                },
                match latest {
                    Some(s) => Some(s@),
                    None => None,
                },
            ) == Some(v@),
            Err(e) => spec_choose_version(
                match stable {
                    Some(s) => Some(s@),
                    None => None,
                },
                match latest {
                    Some(s) => Some(s@),
                    None => None,
                },
            ) is None && e is Parse,
        },
{
    let raw: Option<String> = match stable {
        Some(s) => Some(s),
        None => latest,
    };
    match raw {
        None => Err(AppError::Parse("version manifest names no stable or latest".to_owned())),
        Some(s) => {
            let t = trim_chars(&str_chars(s.as_str()));
            let mut i: usize = 0;
            assert(t@.skip(0) =~= t@);
            while i < t.len() && (t[i] == 'v' || t[i] == 'V')
                invariant
                    0 <= i <= t@.len(),
                    spec_strip_v(t@) == spec_strip_v(t@.skip(i as int)),
                decreases t@.len() - i,
            {
                assert(t@.skip(i as int).skip(1) =~= t@.skip(i + 1));
                i = i + 1;
            }
            if i == t.len() {
                assert(t@.skip(i as int) =~= Seq::<char>::empty());
                return Err(AppError::Parse("empty version in manifest".to_owned()));
            }
            assert(spec_strip_v(t@) =~= t@.skip(i as int));
            let mut out: Vec<char> = Vec::new();
            let mut j: usize = i;
            while j < t.len()
                invariant
                    i <= j <= t@.len(),
                    out@ =~= t@.subrange(i as int, j as int),
                decreases t@.len() - j,
            {
                out.push(t[j]);
                j = j + 1;
            }
            assert(out@ =~= t@.skip(i as int));
            Ok(chars_string(&out))
        },
    }
}

/// Reads the stable version out of the raw manifest text: parse errors and
/// an absent or empty version are reported; the result is exactly the
/// trimmed, `v`-stripped preferred field.
pub fn resolve_stable_version(manifest_text: &str) -> (r: Result<String, AppError>)
    ensures
        match r {
            Ok(v) => manifest_versions_of(manifest_text@) is Some && spec_choose_version(
                (manifest_versions_of(manifest_text@)->0).0,
                (manifest_versions_of(manifest_text@)->0).1,
            ) == Some(v@),
            Err(e) => match manifest_versions_of(manifest_text@) {
                None => e is Parse,
                Some(f) => spec_choose_version(f.0, f.1) is None && e is Parse,
            },
        },
{
    match parse_version_manifest(manifest_text) {
        None => Err(AppError::Parse("version manifest is not readable".to_owned())),
        Some((stable, latest)) => choose_stable_version(stable, latest),
    }
}

/// Assembles the stable-release description from the resolved version and
/// the current platform: both flavors' URLs are built from the fixed
/// template.
pub fn get_stable_info(manifest_text: &str, os: &str, arch: &str) -> (r: Result<
    NwjsStableInfo,
    AppError,
>)
    ensures
        match r {
            Ok(info) => {
                &&& manifest_versions_of(manifest_text@) is Some
                &&& spec_choose_version(
                    (manifest_versions_of(manifest_text@)->0).0,
                    (manifest_versions_of(manifest_text@)->0).1,
                ) == Some(info.version@)
                &&& spec_target_of(os@, arch@) == Some(info.target@)
                &&& info.normal_url@ == spec_download_url(
                    info.version@,
                    NwjsFlavor::Normal,
                    info.target@,
                )
                &&& info.sdk_url@ == spec_download_url(info.version@, NwjsFlavor::Sdk, info.target@)
            },
            Err(_) => !(manifest_versions_of(manifest_text@) is Some && spec_choose_version(
                (manifest_versions_of(manifest_text@)->0).0,
                (manifest_versions_of(manifest_text@)->0).1,
            ) is Some && spec_target_of(os@, arch@) is Some),
        },
{
    let version = resolve_stable_version(manifest_text)?;
    let target = current_target(os, arch)?;
    let normal_url = build_download_url(version.as_str(), NwjsFlavor::Normal, target.as_str());
    let sdk_url = build_download_url(version.as_str(), NwjsFlavor::Sdk, target.as_str());
    Ok(NwjsStableInfo { version, target, normal_url, sdk_url })
}

// === install layout ===

/// The runtime root under the application data directory.
pub open spec fn spec_runtime_root(app_data_dir: Seq<char>) -> Seq<char> {
    app_data_dir + "/runtimes/nwjs"@
}

/// The runtime root under the application data directory:
/// `<app-data>/runtimes/nwjs`.
pub fn app_runtime_root(app_data_dir: &str) -> (r: String)
    ensures
        r@ == spec_runtime_root(app_data_dir@),
{
    let mut s = app_data_dir.to_owned();
    s.append("/runtimes/nwjs");
    s
}

/// The canonical install path of a release:
/// `<runtime-root>/<version>/<flavor>/<target>`.
pub open spec fn spec_install_dir(
    runtime_root: Seq<char>,
    version: Seq<char>,
    flavor: NwjsFlavor,
    target: Seq<char>,
) -> Seq<char> {
    runtime_root + "/"@ + version + "/"@ + spec_flavor_str(flavor) + "/"@ + target
}

/// The canonical install path of a release under the runtime root.
pub fn runtime_install_dir(runtime_root: &str, version: &str, flavor: NwjsFlavor, target: &str) -> (r:
    String)
    ensures
        r@ == spec_install_dir(runtime_root@, version@, flavor, target@),
{
    let mut s = runtime_root.to_owned();
    s.append("/");
    s.append(version);
    s.append("/");
    s.append(flavor.as_str());
    s.append("/");
    s.append(target);
    s
}

/// The temporary archive file name of one download task:
/// `<task>-<version>-<target>.<ext>` under the download directory.
pub open spec fn spec_archive_download_path(
    download_dir: Seq<char>,
    task_id: Seq<char>,
    version: Seq<char>,
    target: Seq<char>,
) -> Seq<char> {
    download_dir + "/"@ + task_id + "-"@ + version + "-"@ + target + "."@ + spec_archive_ext(target)
}

/// The uniquely named temporary archive path of one download task.
pub fn archive_download_path(download_dir: &str, task_id: &str, version: &str, target: &str) -> (r:
    String)
    ensures
        r@ == spec_archive_download_path(download_dir@, task_id@, version@, target@),
{
    let mut s = download_dir.to_owned();
    s.append("/");
    s.append(task_id);
    s.append("-");
    s.append(version);
    s.append("-");
    s.append(target);
    s.append(".");
    let ext = nwjs_archive_ext(target);
    s.append(ext.as_str());
    s
}

/// The runtime executable inside an install directory, by OS.
pub open spec fn spec_runtime_executable(install_dir: Seq<char>, os: Seq<char>) -> Option<
    Seq<char>,
> {
    if os == "windows"@ {
        Some(install_dir + "/nw.exe"@)
    } else if os == "linux"@ {
        Some(install_dir + "/nw"@)
    } else if os == "macos"@ {
        Some(install_dir + "/nwjs.app/Contents/MacOS/nwjs"@)
    } else {
        None
    }
}

/// The path of the runtime executable inside an install directory; an OS
/// outside the supported set is an error.
pub fn nwjs_executable_path(install_dir: &str, os: &str) -> (r: Result<String, AppError>)
    ensures
        match r {
            Ok(p) => spec_runtime_executable(install_dir@, os@) == Some(p@),
            Err(e) => spec_runtime_executable(install_dir@, os@) is None && e is Unsupported,
        },
{
    if str_eq(os, "windows") {
        let mut s = install_dir.to_owned();
        s.append("/nw.exe");
        Ok(s)
    } else if str_eq(os, "linux") {
        let mut s = install_dir.to_owned();
        s.append("/nw");
        Ok(s)
    } else if str_eq(os, "macos") {
        let mut s = install_dir.to_owned();
        s.append("/nwjs.app/Contents/MacOS/nwjs");
        Ok(s)
    } else {
        Err(AppError::Unsupported("unsupported OS for launch".to_owned()))
    }
}

// === download progress ===

/// The floored percentage of a download, when the total is known and not
/// zero, capped at one hundred.
pub open spec fn spec_download_percent(downloaded: u64, total: Option<u64>) -> Option<u8> {
    match total {
        Some(t) => if t == 0 {
            None
        } else {
            let p = downloaded * 100 / (t as int);
            if p > 100 {
                Some(100u8)
            } else {
                Some(p as u8)
            }
        },
        None => None,
    }
}

/// Computes the floored, capped percentage of a download; unknown or zero
/// totals yield none.
pub fn download_percent(downloaded: u64, total: Option<u64>) -> (r: Option<u8>)
    ensures
        r == spec_download_percent(downloaded, total),
{
    match total {
        Some(t) => {
            if t == 0 {
                None
            } else {
                let p: u128 = (downloaded as u128) * 100 / (t as u128);
                assert(p == downloaded * 100 / (t as int));
                if p > 100 {
                    Some(100)
                } else {
                    Some(p as u8)
                }
            }
        },
        None => None,
    }
}

/// Assembles one progress notification, with the percentage computed from
/// the transferred bytes and the known total.
pub fn make_download_progress(
    task_id: String,
    version: String,
    flavor: NwjsFlavor,
    target: String,
    downloaded: u64,
    total: Option<u64>,
) -> (r: NwjsDownloadProgress)
    ensures
        r.task_id == task_id,
        r.version == version,
        r.flavor == flavor,
        r.target == target,
        r.downloaded == downloaded,
        r.total == total,
        r.percent == spec_download_percent(downloaded, total),
{
    let percent = download_percent(downloaded, total);
    NwjsDownloadProgress { task_id, version, flavor, target, downloaded, total, percent }
}

// === version comparison ===

/// The numeric components of a version string: dot-separated fields read as
/// decimal numbers, unreadable or oversized fields as zero.
pub open spec fn spec_ver_components(s: Seq<char>) -> Seq<nat> {
    crate::archive::spec_split_sep_acc(s, '.', Seq::empty()).map_values(
        |g: Seq<char>|
            if spec_all_digits(g) && spec_dec_value(g) <= u32::MAX {
                spec_dec_value(g)
            } else {
                0nat
            },
    )
}

/// Whether `b` is strictly newer than `a`, comparing components
/// lexicographically with zero-extension, from index `i`.
pub open spec fn spec_ver_newer_from(a: Seq<nat>, b: Seq<nat>, i: int) -> bool
    decreases (if a.len() > b.len() {
        a.len()
    } else {
        b.len()
    }) - i,
        when 0 <= i
{
    let n: int = if a.len() > b.len() {
        a.len() as int
    } else {
        b.len() as int
    };
    if i >= n {
        false
    } else {
        let av: nat = if i < a.len() {
            a[i]
        } else {
            0
        };
        let bv: nat = if i < b.len() {
            b[i]
        } else {
            0
        };
        if bv > av {
            true
        } else if bv < av {
            false
        } else {
            spec_ver_newer_from(a, b, i + 1)
        }
    }
}

/// Whether version `latest` is strictly newer than `current`.
pub open spec fn spec_is_newer_version(current: Seq<char>, latest: Seq<char>) -> bool {
    spec_ver_newer_from(spec_ver_components(current), spec_ver_components(latest), 0)
}

/// Parses a version string into its numeric components.
fn parse_version_components(s: &str) -> (r: Vec<u64>)
    ensures
        r@.map_values(|x: u64| x as nat) == spec_ver_components(s@),
{
    let v = str_chars(s);
    let parts = split_dots(&v);
    let ghost pviews = parts@.map_values(|x: Vec<char>| x@);
    let mut out: Vec<u64> = Vec::new();
    let mut i: usize = 0;
    while i < parts.len()
        invariant
            0 <= i <= parts@.len(),
            pviews == parts@.map_values(|x: Vec<char>| x@),
            pviews == crate::archive::spec_split_sep_acc(s@, '.', Seq::empty()),
            out@.map_values(|x: u64| x as nat) =~= spec_ver_components(s@).take(i as int),
        decreases parts@.len() - i,
    {
        let n: u64 = match parse_u32_digits(&parts[i]) {
            Some(x) => x as u64,
            None => 0,
        };
        let ghost before = out@.map_values(|x: u64| x as nat);
        out.push(n);
        assert(out@.map_values(|x: u64| x as nat) =~= before.push(n as nat));
        assert(spec_ver_components(s@).take(i + 1) =~= spec_ver_components(s@).take(
            i as int,
        ).push(spec_ver_components(s@)[i as int]));
        i = i + 1;
    }
    assert(spec_ver_components(s@).take(spec_ver_components(s@).len() as int)
        =~= spec_ver_components(s@));
    out
}

/// Splits a character vector on dots.
fn split_dots(v: &Vec<char>) -> (r: Vec<Vec<char>>)
    ensures
        r@.map_values(|x: Vec<char>| x@) == crate::archive::spec_split_sep_acc(
            v@,
            '.',
            Seq::empty(),
        ),
{
    let mut out: Vec<Vec<char>> = Vec::new();
    let mut cur: Vec<char> = Vec::new();
    let mut i: usize = 0;
    assert(v@.skip(0) =~= v@);
    assert(out@.map_values(|x: Vec<char>| x@) =~= Seq::<Seq<char>>::empty());
    while i < v.len()
        invariant
            0 <= i <= v@.len(),
            crate::archive::spec_split_sep_acc(v@, '.', Seq::empty()) == out@.map_values(
                |x: Vec<char>| x@,
            ) + crate::archive::spec_split_sep_acc(v@.skip(i as int), '.', cur@),
        decreases v@.len() - i,
    {
        let c = v[i];
        assert(v@.skip(i as int)[0] == v@[i as int]);
        assert(v@.skip(i as int).skip(1) =~= v@.skip(i + 1));
        if c == '.' {
            let ghost before = out@.map_values(|x: Vec<char>| x@);
            out.push(cur);
            cur = Vec::new();
            assert(out@.map_values(|x: Vec<char>| x@) =~= before.push(out@.last()@));
            assert(before + (seq![out@.last()@] + crate::archive::spec_split_sep_acc(
                v@.skip(i + 1),
                '.',
                cur@,
            )) =~= out@.map_values(|x: Vec<char>| x@) + crate::archive::spec_split_sep_acc(
                v@.skip(i + 1),
                '.',
                cur@,
            ));
        } else {
            cur.push(c);
        }
        i = i + 1;
    }
    assert(v@.skip(v@.len() as int) =~= Seq::<char>::empty());
    if cur.len() > 0 {
        let ghost before = out@.map_values(|x: Vec<char>| x@);
        let ghost curv = cur@;
        out.push(cur);
        assert(out@.map_values(|x: Vec<char>| x@) =~= before.push(curv));
        assert(before + seq![curv] =~= before.push(curv));
    } else {
        assert(crate::archive::spec_split_sep_acc(Seq::<char>::empty(), '.', cur@)
            =~= Seq::<Seq<char>>::empty());
        assert(out@.map_values(|x: Vec<char>| x@) + Seq::<Seq<char>>::empty() =~= out@.map_values(
            |x: Vec<char>| x@,
        ));
    }
    out
}

/// Decides whether `latest` is strictly newer than `current`: numeric
/// components are compared left to right, missing components count as zero.
pub fn is_newer_version(current: &str, latest: &str) -> (r: bool)
    ensures
        r == spec_is_newer_version(current@, latest@),
{
    let a = parse_version_components(current);
    let b = parse_version_components(latest);
    let ghost av = a@.map_values(|x: u64| x as nat);
    let ghost bv = b@.map_values(|x: u64| x as nat);
    let n: usize = if a.len() > b.len() {
        a.len()
    } else {
        b.len()
    };
    let mut i: usize = 0;
    while i < n
        invariant
            0 <= i <= n,
            av == a@.map_values(|x: u64| x as nat),
            bv == b@.map_values(|x: u64| x as nat),
            av == spec_ver_components(current@),
            bv == spec_ver_components(latest@),
            n == (if av.len() > bv.len() {
                av.len()
            } else {
                bv.len()
            }),
            spec_ver_newer_from(av, bv, 0) == spec_ver_newer_from(av, bv, i as int),
        decreases n - i,
    {
        let x: u64 = if i < a.len() {
            a[i]
        } else {
            0
        };
        let y: u64 = if i < b.len() {
            b[i]
        } else {
            0
        };
        if y > x {
            return true;
        }
        if y < x {
            return false;
        }
        i = i + 1;
    }
    false
}

/// The update check of one runtime install record: only the `nwjs` family
/// with a known stable version can have an update, and only when the stable
/// version is strictly newer than the installed one.
pub fn engine_update_info(engine: &Engine, latest_stable: &Option<String>) -> (r: EngineUpdateInfo)
    ensures
        r.engine_id == engine.id,
        r.current_version == engine.version,
        engine.engine_type@ != "nwjs"@ || latest_stable is None ==> r.latest_version
            == engine.version && !r.update_available,
        engine.engine_type@ == "nwjs"@ && latest_stable is Some ==> {
            &&& r.latest_version@ == latest_stable->0@
            &&& r.update_available == spec_is_newer_version(engine.version@, latest_stable->0@)
        },
{
    if str_eq(engine.engine_type.as_str(), "nwjs") {
        match latest_stable {
            Some(latest) => {
                let update_available = is_newer_version(engine.version.as_str(), latest.as_str());
                EngineUpdateInfo {
                    engine_id: engine.id.clone(),
                    current_version: engine.version.clone(),
                    latest_version: latest.clone(),
                    update_available,
                }
            },
            None => EngineUpdateInfo {
                engine_id: engine.id.clone(),
                current_version: engine.version.clone(),
                latest_version: engine.version.clone(),
                update_available: false,
            },
        }
    } else {
        EngineUpdateInfo {
            engine_id: engine.id.clone(),
            current_version: engine.version.clone(),
            latest_version: engine.version.clone(),
            update_available: false,
        }
    }
}

} // verus!
