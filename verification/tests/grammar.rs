//! The filename grammar: parsing, architecture defaulting, round trips, the
//! catalog, and the compatibility matcher.

use bepinex_installer::artifact::{
    build_catalog, find_compatible, format_filename, parse_filename, ArtifactRecord,
    RemoteArtifactDescriptor,
};
use bepinex_installer::env::EnvironmentVariant;

#[test]
fn parse_full_filename() {
    let rec = parse_filename("BepInEx_UnityMono_x64_39c9e59_6.0.0-be.697.zip").unwrap();
    assert_eq!(rec.variant, EnvironmentVariant::ManagedRuntime);
    assert_eq!(rec.arch, "x64");
    assert!(rec.arch_explicit);
    assert_eq!(rec.version, "6.0.0-be");
    assert_eq!(rec.build, 697);
    assert_eq!(rec.filename, "BepInEx_UnityMono_x64_39c9e59_6.0.0-be.697.zip");
}

#[test]
fn parse_defaults_architecture() {
    let rec = parse_filename("BepInEx_UnityIL2CPP_abc123_6.0.0-be.500.zip").unwrap();
    assert_eq!(rec.variant, EnvironmentVariant::NativeCompiledRuntime);
    assert_eq!(rec.arch, "x64");
    assert!(!rec.arch_explicit);
    assert_eq!(rec.version, "6.0.0-be");
    assert_eq!(rec.build, 500);
}

#[test]
fn parse_explicit_nondefault_architecture() {
    let rec = parse_filename("BepInEx_NetLauncher_x86_0f1e2d_5.4.21.662.zip").unwrap();
    assert_eq!(rec.variant, EnvironmentVariant::StandaloneLauncher);
    assert_eq!(rec.arch, "x86");
    assert!(rec.arch_explicit);
    assert_eq!(rec.version, "5.4.21");
    assert_eq!(rec.build, 662);
}

#[test]
fn round_trip_with_architecture() {
    let name = "BepInEx_UnityMono_x64_39c9e59_6.0.0-be.697.zip";
    let rec = parse_filename(name).unwrap();
    assert_eq!(format_filename(&rec, "39c9e59"), name);
}

#[test]
fn round_trip_without_architecture() {
    let name = "BepInEx_UnityIL2CPP_abc123_6.0.0-be.500.zip";
    let rec = parse_filename(name).unwrap();
    assert_eq!(format_filename(&rec, "abc123"), name);
}

#[test]
fn parse_rejects_nonconforming_names() {
    // Wrong leading token.
    assert!(parse_filename("BepOutEx_UnityMono_x64_39c9e59_6.0.0-be.697.zip").is_none());
    // Unknown variant token.
    assert!(parse_filename("BepInEx_UnityWhat_x64_39c9e59_6.0.0-be.697.zip").is_none());
    // Missing hash segment.
    assert!(parse_filename("BepInEx_UnityMono_x64_6.0.0-be.697.zip").is_none());
    // Hash with non-hex characters.
    assert!(parse_filename("BepInEx_UnityMono_x64_39Z9e59_6.0.0-be.697.zip").is_none());
    // Leading zero in the build identifier.
    assert!(parse_filename("BepInEx_UnityMono_x64_39c9e59_6.0.0-be.0697.zip").is_none());
    // Build identifier too long for the machine word.
    assert!(parse_filename("BepInEx_UnityMono_x64_39c9e59_6.0.0-be.1234567890123456789.zip")
        .is_none());
    // No dot separating version and build.
    assert!(parse_filename("BepInEx_UnityMono_x64_39c9e59_697.zip").is_none());
    // Wrong extension.
    assert!(parse_filename("BepInEx_UnityMono_x64_39c9e59_6.0.0-be.697.tar").is_none());
    // Empty version segment.
    assert!(parse_filename("BepInEx_UnityMono_x64_39c9e59_.697.zip").is_none());
    // Empty string.
    assert!(parse_filename("").is_none());
}

#[test]
fn zero_build_is_accepted() {
    let rec = parse_filename("BepInEx_UnityMono_x64_39c9e59_6.0.0-be.0.zip").unwrap();
    assert_eq!(rec.build, 0);
    assert_eq!(
        format_filename(&rec, "39c9e59"),
        "BepInEx_UnityMono_x64_39c9e59_6.0.0-be.0.zip"
    );
}

fn descriptor(filename: &str) -> RemoteArtifactDescriptor {
    RemoteArtifactDescriptor {
        filename: filename.to_owned(),
        description: String::new(),
    }
}

#[test]
fn empty_feed_yields_empty_catalog() {
    let catalog = build_catalog(&Vec::new());
    assert!(catalog.is_empty());
}

#[test]
fn malformed_feed_yields_empty_catalog() {
    let feed = vec![descriptor("release notes"), descriptor(""), descriptor("BepInEx.zip")];
    let catalog = build_catalog(&feed);
    assert!(catalog.is_empty());
}

#[test]
fn catalog_keeps_conforming_entries_in_feed_order() {
    let feed = vec![
        descriptor("BepInEx_UnityMono_x64_39c9e59_6.0.0-be.697.zip"),
        descriptor("not a build"),
        descriptor("BepInEx_UnityIL2CPP_39c9e59_6.0.0-be.697.zip"),
    ];
    let catalog = build_catalog(&feed);
    assert_eq!(catalog.len(), 2);
    assert_eq!(catalog[0].variant, EnvironmentVariant::ManagedRuntime);
    assert_eq!(catalog[1].variant, EnvironmentVariant::NativeCompiledRuntime);
}

fn record(variant: EnvironmentVariant, arch: &str, build: u64) -> ArtifactRecord {
    ArtifactRecord {
        variant,
        arch: arch.to_owned(),
        arch_explicit: true,
        version: "6.0.0-be".to_owned(),
        build,
        filename: "unused".to_owned(),
    }
}

#[test]
fn matcher_reports_no_compatible_artifact() {
    let catalog = vec![
        record(EnvironmentVariant::ManagedRuntime, "x64", 697),
        record(EnvironmentVariant::NativeCompiledRuntime, "x64", 697),
    ];
    assert!(find_compatible(&catalog, EnvironmentVariant::StandaloneLauncher, "x64").is_none());
    assert!(find_compatible(&catalog, EnvironmentVariant::ManagedRuntime, "x86").is_none());
}

#[test]
fn matcher_takes_first_in_catalog_order() {
    let catalog = vec![
        record(EnvironmentVariant::NativeCompiledRuntime, "x64", 100),
        record(EnvironmentVariant::ManagedRuntime, "x64", 200),
        record(EnvironmentVariant::ManagedRuntime, "x64", 300),
    ];
    assert_eq!(
        find_compatible(&catalog, EnvironmentVariant::ManagedRuntime, "x64"),
        Some(1)
    );
}

#[test]
fn matcher_on_empty_catalog() {
    let catalog: Vec<ArtifactRecord> = Vec::new();
    assert!(find_compatible(&catalog, EnvironmentVariant::ManagedRuntime, "x64").is_none());
}

#[test]
fn parse_accepts_the_largest_build_identifier() {
    let name = "BepInEx_UnityMono_x64_abc_1.0.999999999999999999.zip";
    let rec = parse_filename(name).unwrap();
    assert_eq!(rec.build, 999_999_999_999_999_999);
    assert_eq!(rec.version, "1.0");
    assert_eq!(format_filename(&rec, "abc"), name);
}
