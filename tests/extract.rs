use std::io::Write;

use pkg_install::archive::plan_archive;
use pkg_install::entry_path::{is_directory_entry, is_safe_entry_path};
use pkg_install::error::InstallError;
use pkg_install::extract::ExtractPlan;

fn zip_of(entries: &[(&str, &[u8])]) -> Vec<u8> {
    let mut w = zip::ZipWriter::new(std::io::Cursor::new(Vec::new()));
    let opts = zip::write::SimpleFileOptions::default()
        .compression_method(zip::CompressionMethod::Stored);
    for (name, data) in entries {
        if name.ends_with('/') {
            w.add_directory(name.to_string(), opts).unwrap();
        } else {
            w.start_file(name.to_string(), opts).unwrap();
            w.write_all(data).unwrap();
        }
    }
    w.finish().unwrap().into_inner()
}

#[test]
fn parent_components_are_refused() {
    assert!(!is_safe_entry_path("../../evil.txt"));
    assert!(!is_safe_entry_path("a/../../b"));
    assert!(!is_safe_entry_path("a/.."));
    assert!(!is_safe_entry_path("..\\evil.txt"));
    assert!(!is_safe_entry_path(".."));
}

#[test]
fn rooted_and_drive_paths_are_refused() {
    assert!(!is_safe_entry_path("/etc/passwd"));
    assert!(!is_safe_entry_path("\\Windows\\evil.dll"));
    assert!(!is_safe_entry_path("C:/evil.txt"));
    assert!(!is_safe_entry_path("C:evil.txt"));
    assert!(!is_safe_entry_path(""));
}

#[test]
fn ordinary_paths_are_accepted() {
    assert!(is_safe_entry_path("x.txt"));
    assert!(is_safe_entry_path("a/b/c.txt"));
    assert!(is_safe_entry_path("..foo/bar"));
    assert!(is_safe_entry_path("a..b"));
    assert!(is_safe_entry_path("./x.txt"));
    assert!(is_safe_entry_path("dir/time:12.txt"));
}

#[test]
fn directory_entries_end_with_slash() {
    assert!(is_directory_entry("content/"));
    assert!(!is_directory_entry("content"));
    assert!(!is_directory_entry(""));
}

#[test]
fn add_entry_writes_skips_and_refuses() {
    let mut plan = ExtractPlan::new();
    plan.add_entry("sub/", "dir/".to_string(), Vec::new());
    plan.add_entry("sub/", "dir/x.txt".to_string(), b"x".to_vec());
    plan.add_entry("sub/", "../../evil.txt".to_string(), b"evil".to_vec());
    assert_eq!(plan.writes.len(), 1);
    assert_eq!(plan.writes[0].path, "sub/dir/x.txt");
    assert_eq!(plan.writes[0].data, b"x".to_vec());
    assert_eq!(plan.skipped, vec!["../../evil.txt"]);
}

#[test]
fn archive_is_planned_under_its_root() {
    let bytes = zip_of(&[("x.txt", b"hello"), ("d/", b""), ("d/y.bin", &[0u8, 1, 2])]);
    let plan = plan_archive(bytes, "content/sky/").unwrap();
    assert_eq!(plan.writes.len(), 2);
    assert_eq!(plan.writes[0].path, "content/sky/x.txt");
    assert_eq!(plan.writes[0].data, b"hello".to_vec());
    assert_eq!(plan.writes[1].path, "content/sky/d/y.bin");
    assert_eq!(plan.writes[1].data, vec![0u8, 1, 2]);
    assert!(plan.skipped.is_empty());
}

#[test]
fn traversal_entry_is_skipped_and_others_kept() {
    let bytes = zip_of(&[("../../evil.txt", b"evil"), ("ok.txt", b"ok"), ("/abs.txt", b"abs")]);
    let plan = plan_archive(bytes, "").unwrap();
    assert_eq!(plan.writes.len(), 1);
    assert_eq!(plan.writes[0].path, "ok.txt");
    assert_eq!(plan.writes[0].data, b"ok".to_vec());
    assert_eq!(plan.skipped, vec!["../../evil.txt", "/abs.txt"]);
}

#[test]
fn garbage_bytes_are_an_archive_format_error() {
    let r = plan_archive(b"this is not a zip archive".to_vec(), "");
    assert!(matches!(r, Err(InstallError::ArchiveFormatError)));
    let r = plan_archive(Vec::new(), "");
    assert!(matches!(r, Err(InstallError::ArchiveFormatError)));
}

#[test]
fn empty_archive_plans_nothing() {
    let plan = plan_archive(zip_of(&[]), "shaders/").unwrap();
    assert!(plan.writes.is_empty());
    assert!(plan.skipped.is_empty());
}
