//! Probe for an already-installed copy of the framework: which of the two
//! alternatively-named core binaries to read, and the product version
//! embedded in it. Every failure collapses to "version unknown"; the probe
//! never raises an error.

use vstd::prelude::*;

verus! {

/// The product-version string embedded in a portable-executable image's
/// resource section, if any; a function of the image bytes alone.
pub uninterp spec fn pe_product_version(bytes: Seq<u8>) -> Option<Seq<char>>;

/// Relies on pelite's `PeFile::from_bytes`, `resources`, `version_info`,
/// `translation` and `value`: the `ProductVersion` string read from a PE
/// image is deterministic in the image bytes, and any failure along the
/// chain (not a PE image, no resource section, no language entry, no version
/// key) yields `None`.
#[verifier::external_body]
fn read_pe_product_version(bytes: &Vec<u8>) -> (r: Option<String>)
    ensures
        match r {
            Some(v) => pe_product_version(bytes@) == Some(v@),
            None => pe_product_version(bytes@) is None,
        },
{
    let file = pelite::PeFile::from_bytes(bytes.as_slice()).ok()?;
    let resources = file.resources().ok()?;
    let info = resources.version_info().ok()?;
    let lang = *info.translation().first()?;
    info.value(lang, "ProductVersion")
}

/// The relation between probed bytes and a probe result: the embedded
/// product version where one exists, `None` where none can be determined.
pub open spec fn version_probe_result(bytes: Seq<u8>, r: Option<String>) -> bool {
    match r {
        Some(v) => pe_product_version(bytes) == Some(v@),
        None => pe_product_version(bytes) is None,
    }
}

/// Extracts the installed framework version from a game directory's core
/// installation, handed in as plain values: whether the fixed core subpath
/// exists, and the bytes of the two alternatively-named core binaries where
/// present (the first takes priority). Returns `None` — never an error —
/// when the framework is absent or no version can be determined.
pub fn get_installed_bepinex_version(
    core_present: bool,
    core_dll: &Option<Vec<u8>>,
    legacy_dll: &Option<Vec<u8>>,
) -> (r: Option<String>)
    ensures
        !core_present ==> r is None,
        core_present ==> (match *core_dll {
            Some(b) => version_probe_result(b@, r),
            None => match *legacy_dll {
                Some(b) => version_probe_result(b@, r),
                None => r is None,
            },
        }),
{
    if !core_present {
        return None;
    }
    match core_dll {
        Some(bytes) => read_pe_product_version(bytes),
        None => match legacy_dll {
            Some(bytes) => read_pe_product_version(bytes),
            None => None,
        },
    }
}

} // verus!
