//! The install pipeline: resolution, response handling, extraction, and the
//! version probe.

use std::collections::HashMap;
use std::io::{Cursor, Write};

use bepinex_installer::artifact::{parse_filename, ArtifactRecord};
use bepinex_installer::env::EnvironmentVariant;
use bepinex_installer::install::{process_download_response, resolve_download, InstallError};
use bepinex_installer::probe::get_installed_bepinex_version;

fn make_zip(entries: &[(&str, &[u8])]) -> Vec<u8> {
    let mut w = zip::ZipWriter::new(Cursor::new(Vec::new()));
    let opts = zip::write::SimpleFileOptions::default()
        .compression_method(zip::CompressionMethod::Stored);
    for (name, data) in entries {
        w.start_file(*name, opts).unwrap();
        w.write_all(data).unwrap();
    }
    w.finish().unwrap().into_inner()
}

fn catalog() -> Vec<ArtifactRecord> {
    vec![
        parse_filename("BepInEx_UnityMono_x64_39c9e59_6.0.0-be.697.zip").unwrap(),
        parse_filename("BepInEx_UnityIL2CPP_39c9e59_6.0.0-be.697.zip").unwrap(),
    ]
}

#[test]
fn resolve_without_variant_is_invalid_target() {
    let r = resolve_download(&None, &catalog(), "C:/Games/Foo");
    assert!(matches!(r, Err(InstallError::InvalidTarget(_))));
}

#[test]
fn resolve_without_directory_is_invalid_target() {
    let r = resolve_download(&Some(EnvironmentVariant::ManagedRuntime), &catalog(), "");
    assert!(matches!(r, Err(InstallError::InvalidTarget(_))));
}

#[test]
fn resolve_without_match_is_invalid_target() {
    let r = resolve_download(
        &Some(EnvironmentVariant::StandaloneLauncher),
        &catalog(),
        "C:/Games/Foo",
    );
    assert!(matches!(r, Err(InstallError::InvalidTarget(_))));
}

#[test]
fn resolve_builds_the_download_location() {
    let r = resolve_download(
        &Some(EnvironmentVariant::ManagedRuntime),
        &catalog(),
        "C:/Games/Foo",
    )
    .unwrap();
    assert_eq!(r.1, 0);
    assert_eq!(
        r.0,
        "https://builds.bepinex.dev/projects/bepinex_be/697/BepInEx_UnityMono_x64_39c9e59_6.0.0-be.697.zip"
    );
}

#[test]
fn resolve_defaults_to_primary_architecture() {
    // The il2cpp record has no explicit architecture token, so it carries the
    // primary default and still matches.
    let r = resolve_download(
        &Some(EnvironmentVariant::NativeCompiledRuntime),
        &catalog(),
        "C:/Games/Foo",
    )
    .unwrap();
    assert_eq!(r.1, 1);
}

#[test]
fn non_success_status_is_a_transport_failure() {
    let body = make_zip(&[("BepInEx/core/BepInEx.Core.dll", b"bytes")]);
    let r = process_download_response(404, &body);
    match r {
        Err(InstallError::Transport(code)) => assert_eq!(code, 404),
        other => panic!("expected a transport failure, got {:?}", other.map(|v| v.len())),
    }
}

#[test]
fn transport_failure_description_carries_the_code() {
    assert_eq!(
        InstallError::Transport(404).describe(),
        "transport failure: status 404"
    );
    assert_eq!(
        InstallError::Network("connection reset".to_owned()).describe(),
        "network failure: connection reset"
    );
    assert_eq!(
        InstallError::InvalidTarget("no compatible artifact".to_owned()).describe(),
        "invalid target: no compatible artifact"
    );
    assert_eq!(
        InstallError::Archive("malformed archive data".to_owned()).describe(),
        "archive failure: malformed archive data"
    );
}

#[test]
fn malformed_body_is_an_archive_failure() {
    let r = process_download_response(200, &b"this is not an archive".to_vec());
    assert!(matches!(r, Err(InstallError::Archive(_))));
}

#[test]
fn successful_install_extracts_every_entry_and_is_idempotent() {
    let body = make_zip(&[
        ("BepInEx/core/BepInEx.Core.dll", b"core bytes".as_slice()),
        ("BepInEx/core/BepInEx.Preloader.dll", b"preloader".as_slice()),
        ("doorstop_config.ini", b"[General]".as_slice()),
    ]);

    let mut disk: HashMap<String, Vec<u8>> = HashMap::new();
    disk.insert("UnityPlayer.dll".to_owned(), b"game file".to_vec());

    let entries = process_download_response(200, &body).unwrap();
    assert_eq!(entries.len(), 3);
    assert_eq!(entries[0].name, "BepInEx/core/BepInEx.Core.dll");
    assert_eq!(entries[0].data, b"core bytes");
    assert_eq!(entries[2].name, "doorstop_config.ini");
    for e in &entries {
        disk.insert(e.name.clone(), e.data.clone());
    }
    let after_first = disk.clone();

    // Re-running the same install overwrites the same paths without error
    // and converges to the same file set.
    let again = process_download_response(200, &body).unwrap();
    for e in &again {
        disk.insert(e.name.clone(), e.data.clone());
    }
    assert_eq!(disk, after_first);
    // Unrelated game files are untouched.
    assert_eq!(disk.get("UnityPlayer.dll").unwrap(), b"game file");
}

#[test]
fn failed_download_writes_nothing() {
    let body = make_zip(&[("BepInEx/core/BepInEx.Core.dll", b"core bytes".as_slice())]);
    let mut disk: HashMap<String, Vec<u8>> = HashMap::new();
    if let Ok(entries) = process_download_response(404, &body) {
        for e in &entries {
            disk.insert(e.name.clone(), e.data.clone());
        }
    }
    assert!(disk.is_empty());
}

#[test]
fn probe_without_core_directory_reports_not_installed() {
    assert_eq!(get_installed_bepinex_version(false, &None, &None), None);
}

#[test]
fn probe_without_binaries_reports_unknown() {
    assert_eq!(get_installed_bepinex_version(true, &None, &None), None);
}

#[test]
fn probe_with_malformed_binary_reports_unknown() {
    let garbage = Some(b"not a portable executable".to_vec());
    assert_eq!(get_installed_bepinex_version(true, &garbage, &None), None);
    assert_eq!(get_installed_bepinex_version(true, &None, &garbage), None);
}

#[test]
fn transport_description_handles_the_largest_status() {
    assert_eq!(
        InstallError::Transport(65535).describe(),
        "transport failure: status 65535"
    );
    assert_eq!(
        InstallError::Transport(0).describe(),
        "transport failure: status 0"
    );
}
