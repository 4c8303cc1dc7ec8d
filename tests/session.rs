use std::collections::HashMap;
use std::io::Write;

use pkg_install::error::InstallError;
use pkg_install::manifest::Fetched;
use pkg_install::roots::{ExtractionRootTable, ProductVariant};
use pkg_install::session::{
    Action, InstallConfig, InstallSession, Phase, Progress, ProgressKind, Step,
};

fn zip_of(entries: &[(&str, &[u8])]) -> Vec<u8> {
    let mut w = zip::ZipWriter::new(std::io::Cursor::new(Vec::new()));
    let opts = zip::write::SimpleFileOptions::default()
        .compression_method(zip::CompressionMethod::Stored);
    for (name, data) in entries {
        w.start_file(name.to_string(), opts).unwrap();
        w.write_all(data).unwrap();
    }
    w.finish().unwrap().into_inner()
}

fn config(table: ExtractionRootTable) -> InstallConfig {
    InstallConfig {
        variant: ProductVariant::WindowsPlayer,
        table,
        channel: "LIVE".to_string(),
        base_url: "https://cdn.test/".to_string(),
        parent_dir: "/tmp/out".to_string(),
    }
}

fn sub_table() -> ExtractionRootTable {
    let mut t = ExtractionRootTable::new();
    t.insert("b.zip", "sub/");
    assert!(t.keeps_inside());
    t
}

fn kinds(events: &[Progress]) -> Vec<(ProgressKind, String)> {
    events.iter().map(|p| (p.kind, p.archive.clone())).collect()
}

/// Drives a run to its end against fixed replies, writing files into `fs`;
/// returns the final action and all progress events.
fn run(
    fs: &mut HashMap<String, Vec<u8>>,
    manifest: &str,
    blobs: &HashMap<String, Vec<u8>>,
) -> (Action, Vec<(ProgressKind, String)>) {
    let (mut s, first) = InstallSession::start(config(sub_table()), "ABC");
    let mut events = kinds(&first.events);
    let mut action = first.action;
    loop {
        let step: Step = match action {
            Action::FetchManifest { url } => {
                assert_eq!(url, "https://cdn.test/version-abc-rbxPkgManifest.txt");
                s.on_manifest(Fetched::Reply(200, manifest.to_string()))
            }
            Action::PrepareOutput { dir, settings_path, settings } => {
                assert_eq!(dir, "/tmp/out/version-abc");
                fs.insert(settings_path, settings.into_bytes());
                s.on_output_prepared(true)
            }
            Action::FetchBlob { archive, url } => {
                assert_eq!(url, format!("https://cdn.test/version-abc-{}", archive));
                s.on_blob(Fetched::Reply(200, blobs[&archive].clone()))
            }
            Action::WriteFiles { dir, plan } => {
                for w in plan.writes {
                    fs.insert(format!("{}/{}", dir, w.path), w.data);
                }
                s.on_files_written(true)
            }
            other => return (other, events),
        };
        events.extend(kinds(&step.events));
        action = step.action;
    }
}

fn fixture_blobs() -> HashMap<String, Vec<u8>> {
    let mut blobs = HashMap::new();
    blobs.insert("a.zip".to_string(), zip_of(&[("x.txt", b"from a")]));
    blobs.insert("b.zip".to_string(), zip_of(&[("x.txt", b"from b")]));
    blobs
}

#[test]
fn two_archives_land_at_their_roots() {
    let mut fs = HashMap::new();
    let (action, events) = run(&mut fs, "a.zip\nb.zip", &fixture_blobs());
    match action {
        Action::Finish(Ok(summary)) => {
            assert_eq!(summary.output_dir, "/tmp/out/version-abc");
            assert_eq!(summary.archives, 2);
            assert!(summary.skipped.is_empty());
        }
        _ => panic!("run did not succeed"),
    }
    assert_eq!(fs["/tmp/out/version-abc/x.txt"], b"from a".to_vec());
    assert_eq!(fs["/tmp/out/version-abc/sub/x.txt"], b"from b".to_vec());
    assert!(fs.contains_key("/tmp/out/version-abc/AppSettings.xml"));
    let mut expected = Vec::new();
    for a in ["a.zip", "b.zip"] {
        for k in [
            ProgressKind::DownloadStarted,
            ProgressKind::DownloadComplete,
            ProgressKind::ExtractStarted,
            ProgressKind::ExtractComplete,
        ] {
            expected.push((k, a.to_string()));
        }
    }
    expected.push((ProgressKind::AllDone, String::new()));
    assert_eq!(events, expected);
}

#[test]
fn second_install_leaves_same_files() {
    let mut fs = HashMap::new();
    run(&mut fs, "a.zip\nb.zip", &fixture_blobs());
    let once = fs.clone();
    let (action, _) = run(&mut fs, "a.zip\nb.zip", &fixture_blobs());
    assert!(matches!(action, Action::Finish(Ok(_))));
    assert_eq!(fs, once);
}

#[test]
fn traversal_entry_is_reported_and_run_continues() {
    let mut blobs = fixture_blobs();
    blobs.insert("a.zip".to_string(), zip_of(&[("../../evil.txt", b"evil"), ("x.txt", b"from a")]));
    let mut fs = HashMap::new();
    let (action, _) = run(&mut fs, "a.zip\nb.zip", &blobs);
    match action {
        Action::Finish(Ok(summary)) => assert_eq!(summary.skipped, vec!["../../evil.txt"]),
        _ => panic!("run did not succeed"),
    }
    assert!(fs.keys().all(|k| k.starts_with("/tmp/out/version-abc/") && !k.contains("..")));
    assert_eq!(fs.len(), 3);
}

#[test]
fn empty_manifest_ends_run() {
    let (mut s, _) = InstallSession::start(config(sub_table()), "ABC");
    let step = s.on_manifest(Fetched::Reply(200, "notes.txt\n".to_string()));
    assert_eq!(kinds(&step.events), vec![(ProgressKind::Failed(InstallError::EmptyManifest), String::new())]);
    match step.action {
        Action::Finish(Err(f)) => {
            assert_eq!(f.error, InstallError::EmptyManifest);
            assert_eq!(f.completed, 0);
        }
        _ => panic!("expected failure"),
    }
    assert_eq!(s.current_phase(), Phase::Failed);
}

#[test]
fn forbidden_manifest_ends_run_with_invalid_version() {
    let (mut s, _) = InstallSession::start(config(sub_table()), "ABC");
    let step = s.on_manifest(Fetched::Reply(403, String::new()));
    assert!(matches!(step.action, Action::Finish(Err(ref f)) if f.error == InstallError::InvalidVersion));
    let (mut s, _) = InstallSession::start(config(sub_table()), "ABC");
    let step = s.on_manifest(Fetched::Failed);
    assert!(matches!(step.action, Action::Finish(Err(ref f)) if f.error == InstallError::NetworkError));
}

#[test]
fn blank_version_asks_for_latest() {
    let (mut s, first) = InstallSession::start(config(sub_table()), "   ");
    match first.action {
        Action::FetchLatest { url } => assert_eq!(
            url,
            "https://clientsettings.roblox.com/v2/client-version/WindowsPlayer/channel/LIVE"
        ),
        _ => panic!("expected a latest-version request"),
    }
    let body = r#"{"clientVersionUpload":"version-0123abcd"}"#.to_string();
    let step = s.on_latest_version(Fetched::Reply(200, body));
    match step.action {
        Action::FetchManifest { url } => {
            assert_eq!(url, "https://cdn.test/version-0123abcd-rbxPkgManifest.txt")
        }
        _ => panic!("expected a manifest request"),
    }
}

#[test]
fn trimmed_version_is_normalized() {
    let (_, first) = InstallSession::start(config(sub_table()), "  Version-FF00 \n");
    match first.action {
        Action::FetchManifest { url } => {
            assert_eq!(url, "https://cdn.test/version-ff00-rbxPkgManifest.txt")
        }
        _ => panic!("expected a manifest request"),
    }
}

#[test]
fn corrupt_archive_stops_after_completed_ones() {
    let (mut s, _) = InstallSession::start(config(sub_table()), "ABC");
    s.on_manifest(Fetched::Reply(200, "a.zip\nb.zip".to_string()));
    s.on_output_prepared(true);
    s.on_blob(Fetched::Reply(200, zip_of(&[("x.txt", b"a")])));
    s.on_files_written(true);
    let step = s.on_blob(Fetched::Reply(200, b"garbage".to_vec()));
    assert_eq!(
        kinds(&step.events),
        vec![
            (ProgressKind::DownloadComplete, "b.zip".to_string()),
            (ProgressKind::ExtractStarted, "b.zip".to_string()),
            (ProgressKind::Failed(InstallError::ArchiveFormatError), String::new()),
        ]
    );
    match step.action {
        Action::Finish(Err(f)) => {
            assert_eq!(f.error, InstallError::ArchiveFormatError);
            assert_eq!(f.completed, 1);
            assert_eq!(f.last_completed, Some("a.zip".to_string()));
            let last = f.last_progress.unwrap();
            assert_eq!(last.kind, ProgressKind::ExtractStarted);
            assert_eq!(last.archive, "b.zip");
        }
        _ => panic!("expected failure"),
    }
}

#[test]
fn blob_download_failure_is_network_error() {
    let (mut s, _) = InstallSession::start(config(sub_table()), "ABC");
    s.on_manifest(Fetched::Reply(200, "a.zip".to_string()));
    s.on_output_prepared(true);
    let step = s.on_blob(Fetched::Reply(404, Vec::new()));
    assert!(matches!(step.action, Action::Finish(Err(ref f)) if f.error == InstallError::NetworkError && f.completed == 0));
}

#[test]
fn write_failure_is_filesystem_error() {
    let (mut s, _) = InstallSession::start(config(sub_table()), "ABC");
    s.on_manifest(Fetched::Reply(200, "a.zip".to_string()));
    let step = s.on_output_prepared(false);
    assert!(matches!(step.action, Action::Finish(Err(ref f)) if f.error == InstallError::FilesystemError));
    let (mut s, _) = InstallSession::start(config(sub_table()), "ABC");
    s.on_manifest(Fetched::Reply(200, "a.zip".to_string()));
    s.on_output_prepared(true);
    s.on_blob(Fetched::Reply(200, zip_of(&[("x.txt", b"a")])));
    let step = s.on_files_written(false);
    assert!(matches!(step.action, Action::Finish(Err(ref f)) if f.error == InstallError::FilesystemError));
}

#[test]
fn non_zip_bytes_end_run_with_archive_format_error() {
    let (mut s, _) = InstallSession::start(config(sub_table()), "ABC");
    s.on_manifest(Fetched::Reply(200, "a.zip".to_string()));
    s.on_output_prepared(true);
    let step = s.on_blob(Fetched::Reply(200, b"PK not really a zip".to_vec()));
    assert!(matches!(step.action, Action::Finish(Err(ref f)) if f.error == InstallError::ArchiveFormatError && f.completed == 0));
    assert_eq!(s.current_phase(), Phase::Failed);
}
