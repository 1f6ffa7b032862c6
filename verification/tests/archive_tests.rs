use std::io::Write;

use gamebox::archive::archive_kind;
use gamebox::archive::find_single_root_dir;
use gamebox::archive::plan_extract_entries;
use gamebox::archive::safe_join;
use gamebox::archive::ArchiveEntry;
use gamebox::archive::ArchiveKind;
use gamebox::archive::ArchiveService;
use gamebox::archive::DirEntryInfo;
use gamebox::errors::AppError;

fn tar_gz_bytes(entries: &[(&str, &[u8])]) -> Vec<u8> {
    let mut builder = tar::Builder::new(Vec::new());
    for (name, data) in entries {
        let mut header = tar::Header::new_gnu();
        header.set_size(data.len() as u64);
        header.set_mode(0o644);
        header.set_cksum();
        builder
            .append_data(&mut header, name, *data)
            .expect("append tar entry");
    }
    let tar_bytes = builder.into_inner().expect("finish tar");
    let mut gz = flate2::write::GzEncoder::new(Vec::new(), flate2::Compression::default());
    gz.write_all(&tar_bytes).expect("gzip");
    gz.finish().expect("finish gzip")
}

fn zip_bytes(entries: &[(&str, &[u8])]) -> Vec<u8> {
    let mut writer = zip::ZipWriter::new(std::io::Cursor::new(Vec::new()));
    let options: zip::write::SimpleFileOptions = Default::default();
    for (name, data) in entries {
        writer.start_file(*name, options).expect("start zip entry");
        writer.write_all(data).expect("write zip entry");
    }
    writer.finish().expect("finish zip").into_inner()
}

#[test]
fn tar_gz_extraction_plans_safe_paths_with_contents() {
    let bytes = tar_gz_bytes(&[("a.txt", b"alpha"), ("sub/b.txt", b"beta")]);
    let service = ArchiveService::new();
    let plan = service.extract_tar_gz(&bytes, "/dest").expect("plan");
    assert_eq!(plan.len(), 2);
    assert_eq!(plan[0].path, "/dest/a.txt");
    assert_eq!(plan[0].data, b"alpha");
    assert!(!plan[0].is_dir);
    assert_eq!(plan[1].path, "/dest/sub/b.txt");
    assert_eq!(plan[1].data, b"beta");
}

#[test]
fn tar_gz_with_parent_component_fails_unsafe_and_plans_nothing() {
    // The writing side refuses `..`, so the malicious header is written by
    // hand, the way a hostile archive would carry it.
    let mut builder = tar::Builder::new(Vec::new());
    let mut ok_header = tar::Header::new_gnu();
    ok_header.set_size(4);
    ok_header.set_mode(0o644);
    ok_header.set_cksum();
    builder
        .append_data(&mut ok_header, "ok.txt", &b"fine"[..])
        .expect("append tar entry");
    let mut evil_header = tar::Header::new_gnu();
    {
        let name = b"../evil.txt";
        evil_header.as_old_mut().name[..name.len()].copy_from_slice(name);
    }
    evil_header.set_size(4);
    evil_header.set_mode(0o644);
    evil_header.set_cksum();
    builder
        .append(&evil_header, &b"boom"[..])
        .expect("append raw tar entry");
    let tar_bytes = builder.into_inner().expect("finish tar");
    let mut gz = flate2::write::GzEncoder::new(Vec::new(), flate2::Compression::default());
    gz.write_all(&tar_bytes).expect("gzip");
    let bytes = gz.finish().expect("finish gzip");

    let service = ArchiveService::new();
    let err = service.extract_tar_gz(&bytes, "/dest").unwrap_err();
    assert!(matches!(err, AppError::UnsafePath(_)));
}

#[test]
fn garbage_bytes_are_a_parse_error() {
    let service = ArchiveService::new();
    let err = service
        .extract_tar_gz(&vec![1u8, 2, 3, 4], "/dest")
        .unwrap_err();
    assert!(matches!(err, AppError::Parse(_)));
    let err2 = service.extract_zip(&vec![9u8, 9, 9], "/dest").unwrap_err();
    assert!(matches!(err2, AppError::Parse(_)));
}

#[test]
fn zip_extraction_plans_entries_under_the_destination() {
    let bytes = zip_bytes(&[("hello.txt", b"hi"), ("dir/world.txt", b"yo")]);
    let service = ArchiveService::new();
    let plan = service.extract_zip(&bytes, "/out").expect("plan");
    assert_eq!(plan.len(), 2);
    assert_eq!(plan[0].path, "/out/hello.txt");
    assert_eq!(plan[0].data, b"hi");
    assert_eq!(plan[1].path, "/out/dir/world.txt");
}

#[test]
fn zip_with_traversal_name_fails_unsafe() {
    let bytes = zip_bytes(&[("../evil.txt", b"boom")]);
    let service = ArchiveService::new();
    let err = service.extract_zip(&bytes, "/out").unwrap_err();
    assert!(matches!(err, AppError::UnsafePath(_)));
}

#[test]
fn plan_rejects_parent_absolute_and_drive_components() {
    let entry = |p: &str| ArchiveEntry {
        path: p.to_string(),
        data: Vec::new(),
        is_dir: false,
    };
    let err = plan_extract_entries(vec![entry("../x")], "/d").unwrap_err();
    assert!(matches!(err, AppError::UnsafePath(_)));
    let err = plan_extract_entries(vec![entry("/abs")], "/d").unwrap_err();
    assert!(matches!(err, AppError::UnsafePath(_)));
    let err = plan_extract_entries(vec![entry("C:/x")], "/d").unwrap_err();
    assert!(matches!(err, AppError::UnsafePath(_)));
    let err = plan_extract_entries(vec![entry("a/../x")], "/d").unwrap_err();
    assert!(matches!(err, AppError::UnsafePath(_)));
}

#[test]
fn safe_join_skips_current_directory_components() {
    assert_eq!(safe_join("/d", "a/b.txt").unwrap(), "/d/a/b.txt");
    assert_eq!(safe_join("/d", "./a//b").unwrap(), "/d/a/b");
    assert_eq!(safe_join("/d", "").unwrap(), "/d");
    assert!(matches!(
        safe_join("/d", "a/../b").unwrap_err(),
        AppError::UnsafePath(_)
    ));
}

#[test]
fn safe_join_treats_backslashes_as_separators() {
    // A traversal step must not hide behind the other platform's separator.
    assert!(matches!(
        safe_join("/d", "..\\evil.txt").unwrap_err(),
        AppError::UnsafePath(_)
    ));
    assert!(matches!(
        safe_join("/d", "a\\..\\b").unwrap_err(),
        AppError::UnsafePath(_)
    ));
    assert!(matches!(
        safe_join("/d", "\\abs").unwrap_err(),
        AppError::UnsafePath(_)
    ));
    assert_eq!(safe_join("/d", "dir\\file.txt").unwrap(), "/d/dir/file.txt");
}

#[test]
fn single_root_dir_found_only_when_alone_and_a_directory() {
    let entries = |v: &[(&str, bool)]| -> Vec<DirEntryInfo> {
        v.iter()
            .map(|(n, d)| DirEntryInfo {
                name: n.to_string(),
                is_dir: *d,
            })
            .collect()
    };
    let one = entries(&[("payload", true), (".hidden", true)]);
    assert_eq!(find_single_root_dir(&one), Some("payload".to_string()));

    let two = entries(&[("a", true), ("b", true)]);
    assert_eq!(find_single_root_dir(&two), None);

    let file = entries(&[("file.txt", false)]);
    assert_eq!(find_single_root_dir(&file), None);

    let none = entries(&[(".git", true)]);
    assert_eq!(find_single_root_dir(&none), None);
}

#[test]
fn archive_kind_dispatches_on_the_full_name() {
    assert_eq!(archive_kind("x.tar.gz").unwrap(), ArchiveKind::TarGz);
    assert_eq!(archive_kind("x.gz").unwrap(), ArchiveKind::TarGz);
    assert_eq!(archive_kind("x.zip").unwrap(), ArchiveKind::Zip);
    assert!(matches!(
        archive_kind("x.rar").unwrap_err(),
        AppError::Unsupported(_)
    ));
    assert!(matches!(
        archive_kind("noext").unwrap_err(),
        AppError::Unsupported(_)
    ));
}

#[test]
fn extract_auto_uses_the_name_to_pick_the_reader() {
    let service = ArchiveService::new();
    let bytes = zip_bytes(&[("f.txt", b"z")]);
    let plan = service
        .extract_auto("payload.zip", &bytes, "/o")
        .expect("plan");
    assert_eq!(plan[0].path, "/o/f.txt");
    assert!(service.extract_auto("payload.xz", &bytes, "/o").is_err());
}
