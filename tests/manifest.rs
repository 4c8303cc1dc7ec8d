use pkg_install::error::InstallError;
use pkg_install::latest::{latest_version_from_reply, version_from_member};
use pkg_install::manifest::{
    blob_url, latest_version_url, manifest_from_reply, manifest_url, parse_manifest, Fetched,
};
use pkg_install::roots::ProductVariant;

const BASE: &str = "https://setup.rbxcdn.com/";

#[test]
fn manifest_url_is_built_from_version() {
    assert_eq!(
        manifest_url(BASE, ProductVariant::WindowsPlayer, "version-abc"),
        "https://setup.rbxcdn.com/version-abc-rbxPkgManifest.txt"
    );
}

#[test]
fn blob_url_is_built_from_version_and_file() {
    assert_eq!(
        blob_url(BASE, ProductVariant::WindowsPlayer, "version-abc", "shaders.zip"),
        "https://setup.rbxcdn.com/version-abc-shaders.zip"
    );
}

#[test]
fn latest_version_url_names_variant_and_channel() {
    assert_eq!(
        latest_version_url(ProductVariant::WindowsPlayer, "LIVE"),
        "https://clientsettings.roblox.com/v2/client-version/WindowsPlayer/channel/LIVE"
    );
}

#[test]
fn manifest_keeps_trimmed_zip_lines_in_order() {
    let body = "v0\r\nRobloxApp.zip\r\nabc123\n  shaders.zip  \nnotes.txt\n\ncontent-sky.zip";
    let list = parse_manifest(body).unwrap();
    assert_eq!(list, vec!["RobloxApp.zip", "shaders.zip", "content-sky.zip"]);
}

#[test]
fn manifest_with_trailing_newline() {
    let list = parse_manifest("a.zip\nb.zip\n").unwrap();
    assert_eq!(list, vec!["a.zip", "b.zip"]);
}

#[test]
fn empty_manifest_is_an_error() {
    assert!(matches!(parse_manifest(""), Err(InstallError::EmptyManifest)));
}

#[test]
fn manifest_without_zip_lines_is_an_error() {
    let body = "v0\nfile.txt\nzip\n.zipx\n";
    assert!(matches!(parse_manifest(body), Err(InstallError::EmptyManifest)));
}

#[test]
fn forbidden_manifest_is_invalid_version() {
    let reply = Fetched::Reply(403, "a.zip\n".to_string());
    assert!(matches!(manifest_from_reply(&reply), Err(InstallError::InvalidVersion)));
}

#[test]
fn timed_out_manifest_is_network_error() {
    let reply: Fetched<String> = Fetched::Failed;
    assert!(matches!(manifest_from_reply(&reply), Err(InstallError::NetworkError)));
}

#[test]
fn server_error_manifest_is_network_error() {
    let reply = Fetched::Reply(500, "a.zip\n".to_string());
    assert!(matches!(manifest_from_reply(&reply), Err(InstallError::NetworkError)));
}

#[test]
fn successful_manifest_reply_is_parsed() {
    let reply = Fetched::Reply(200, "x.zip\ny.zip".to_string());
    assert_eq!(manifest_from_reply(&reply).unwrap(), vec!["x.zip", "y.zip"]);
}

#[test]
fn successful_reply_with_no_archives_is_empty_manifest() {
    let reply = Fetched::Reply(200, "readme\n".to_string());
    assert!(matches!(manifest_from_reply(&reply), Err(InstallError::EmptyManifest)));
}

#[test]
fn latest_version_is_read_from_service_reply() {
    let body = r#"{"version":"0.1","clientVersionUpload":"version-ABCDEF","bootstrapperVersion":"1"}"#;
    let reply = Fetched::Reply(200, body.to_string());
    assert_eq!(latest_version_from_reply(&reply).unwrap(), "version-abcdef");
}

#[test]
fn latest_version_missing_member_is_network_error() {
    let reply = Fetched::Reply(200, r#"{"version":"0.1"}"#.to_string());
    assert!(matches!(latest_version_from_reply(&reply), Err(InstallError::NetworkError)));
}

#[test]
fn latest_version_not_json_is_network_error() {
    let reply = Fetched::Reply(200, "not json".to_string());
    assert!(matches!(latest_version_from_reply(&reply), Err(InstallError::NetworkError)));
}

#[test]
fn latest_version_failed_request_is_network_error() {
    let reply: Fetched<String> = Fetched::Failed;
    assert!(matches!(latest_version_from_reply(&reply), Err(InstallError::NetworkError)));
    let reply = Fetched::Reply(503, String::new());
    assert!(matches!(latest_version_from_reply(&reply), Err(InstallError::NetworkError)));
}

#[test]
fn version_member_is_normalized() {
    assert_eq!(version_from_member(Some("ABC".to_string())).unwrap(), "version-abc");
    assert!(matches!(version_from_member(Some(String::new())), Err(InstallError::NetworkError)));
    assert!(matches!(version_from_member(None), Err(InstallError::NetworkError)));
}

#[test]
fn manifest_lines_lose_unicode_white_space() {
    let list = parse_manifest("a.zip\u{A0}\n\u{B}b.zip\u{3000}\r\n").unwrap();
    assert_eq!(list, vec!["a.zip", "b.zip"]);
}
