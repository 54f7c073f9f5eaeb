//! Environment detection from directory listings.

use bepinex_installer::env::{detect_environment, EnvironmentVariant, SubdirListing};

fn listing(name: &str, children: &[&str]) -> SubdirListing {
    SubdirListing {
        name: name.to_owned(),
        children: children.iter().map(|c| (*c).to_owned()).collect(),
    }
}

#[test]
fn managed_marker_detects_managed_runtime() {
    let dirs = vec![listing("Foo_Data", &["Managed", "Resources"])];
    assert_eq!(detect_environment(&dirs), Some(EnvironmentVariant::ManagedRuntime));
}

#[test]
fn il2cpp_marker_detects_native_runtime() {
    let dirs = vec![listing("Foo_Data", &["il2cpp_data", "Resources"])];
    assert_eq!(detect_environment(&dirs), Some(EnvironmentVariant::NativeCompiledRuntime));
}

#[test]
fn data_folder_without_markers_falls_back_to_standalone() {
    let dirs = vec![listing("Foo_Data", &["Resources"])];
    assert_eq!(detect_environment(&dirs), Some(EnvironmentVariant::StandaloneLauncher));
}

#[test]
fn no_data_folder_detects_nothing() {
    let dirs = vec![listing("Plugins", &["Managed"]), listing("Logs", &[])];
    assert_eq!(detect_environment(&dirs), None);
}

#[test]
fn empty_listing_detects_nothing() {
    assert_eq!(detect_environment(&Vec::new()), None);
}

#[test]
fn managed_marker_wins_over_il2cpp_marker() {
    let dirs = vec![listing("Foo_Data", &["il2cpp_data", "Managed"])];
    assert_eq!(detect_environment(&dirs), Some(EnvironmentVariant::ManagedRuntime));
}

#[test]
fn first_data_folder_in_order_decides() {
    let dirs = vec![
        listing("MonoBleedingEdge", &[]),
        listing("Bar_Data", &["il2cpp_data"]),
        listing("Baz_Data", &["Managed"]),
    ];
    assert_eq!(detect_environment(&dirs), Some(EnvironmentVariant::NativeCompiledRuntime));
}

#[test]
fn rationale_describes_each_variant() {
    assert_eq!(
        EnvironmentVariant::ManagedRuntime.rationale(),
        "data folder contains a Managed subfolder"
    );
    assert_eq!(
        EnvironmentVariant::NativeCompiledRuntime.rationale(),
        "data folder contains an il2cpp_data subfolder"
    );
    assert_eq!(
        EnvironmentVariant::StandaloneLauncher.rationale(),
        "data folder has neither runtime marker"
    );
}
