//! The install pipeline's decisions: validating the target, matching the
//! catalog, building the download location, and turning the download
//! response into extracted entries. The caller performs the network fetch
//! between the two halves and writes the extracted entries to disk after.

use vstd::prelude::*;

use crate::archive::{entries_match, extract_zip, zip_parse, ZipEntry};
use crate::artifact::{default_arch, find_compatible, matches_target, ArtifactRecord};
use crate::env::EnvironmentVariant;
use crate::text::dec_digits;
use crate::text::u64_to_string;

verus! {

/// The failures an install attempt surfaces; each is displayed verbatim and
/// none is retried automatically.
#[derive(Debug, Clone, PartialEq, Eq)]
pub enum InstallError {
    /// Missing or unresolvable environment or directory, or no matching
    /// artifact.
    InvalidTarget(String),
    /// The download answered a non-success HTTP status; carries the code.
    Transport(u16),
    /// The download failed below HTTP; carries the underlying cause.
    Network(String),
    /// The response body is malformed or unextractable archive data.
    Archive(String),
}

impl InstallError {
    /// Human-readable detail for display.
    pub open spec fn describe_spec(self) -> Seq<char> {
        match self {
            InstallError::InvalidTarget(m) => "invalid target: "@ + m@,
            InstallError::Transport(c) => "transport failure: status "@ + dec_digits(c as int),
            InstallError::Network(m) => "network failure: "@ + m@,
            InstallError::Archive(m) => "archive failure: "@ + m@,
        }
    }

    pub fn describe(&self) -> (r: String)
        ensures
            r@ == self.describe_spec(),
    {
        match self {
            InstallError::InvalidTarget(m) => {
                let mut s = String::from_str("invalid target: ");
                s.append(m.as_str());
                s
            },
            InstallError::Transport(c) => {
                let mut s = String::from_str("transport failure: status ");
                let d = u64_to_string(*c as u64);
                s.append(d.as_str());
                s
            },
            InstallError::Network(m) => {
                let mut s = String::from_str("network failure: ");
                s.append(m.as_str());
                s
            },
            InstallError::Archive(m) => {
                let mut s = String::from_str("archive failure: ");
                s.append(m.as_str());
                s
            },
        }
    }
}

/// The fixed base location artifact downloads are joined onto.
pub open spec fn download_base_spec() -> Seq<char> {
    "https://builds.bepinex.dev/projects/bepinex_be"@
}

pub fn download_base() -> (r: &'static str)
    ensures
        r@ == download_base_spec(),
{
    "https://builds.bepinex.dev/projects/bepinex_be"
}

/// The download location of a record: base, build identifier and filename,
/// joined by slashes.
pub open spec fn download_url_spec(m: crate::artifact::ArtifactModel) -> Seq<char> {
    download_base_spec() + seq!['/'] + dec_digits(m.build) + seq!['/'] + m.filename
}

/// Validates the target and selects the artifact to install: the first
/// catalog record matching the required variant with the primary
/// architecture. Returns the download location and the record's index, or
/// the exact invalid-target failure owed.
pub fn resolve_download(
    variant: &Option<EnvironmentVariant>,
    catalog: &Vec<ArtifactRecord>,
    target_dir: &str,
) -> (r: Result<(String, usize), InstallError>)
    ensures
        variant is None ==> (r matches Err(e) && e matches InstallError::InvalidTarget(m)
            && m@ == "no environment variant resolved"@),
        variant is Some && target_dir@.len() == 0 ==> (r matches Err(e)
            && e matches InstallError::InvalidTarget(m) && m@ == "no game directory selected"@),
        variant matches Some(v) ==> ((target_dir@.len() > 0 && (forall|j: int|
            0 <= j < catalog@.len() ==> !matches_target(catalog@[j]@, *v, default_arch()))) ==> (
        r matches Err(e) && e matches InstallError::InvalidTarget(m)
            && m@ == "no compatible artifact"@)),
        variant matches Some(v) ==> ((target_dir@.len() > 0 && (exists|j: int|
            0 <= j < catalog@.len() && matches_target(
                #[trigger] catalog@[j]@,
                *v,
                default_arch(),
            ))) ==> (r matches Ok(p) && p.1 < catalog@.len() && matches_target(
            catalog@[p.1 as int]@,
            *v,
            default_arch(),
        ) && (forall|j: int| 0 <= j < p.1 ==> !matches_target(catalog@[j]@, *v, default_arch()))
            && p.0@ == download_url_spec(catalog@[p.1 as int]@))),
{
    let v = match variant {
        Some(v) => *v,
        None => {
            return Err(InstallError::InvalidTarget(String::from_str(
                "no environment variant resolved",
            )));
        },
    };
    if target_dir.unicode_len() == 0 {
        return Err(InstallError::InvalidTarget(String::from_str("no game directory selected")));
    }
    let idx = match find_compatible(catalog, v, "x64") {
        Some(i) => i,
        None => {
            return Err(InstallError::InvalidTarget(String::from_str("no compatible artifact")));
        },
    };
    proof {
        reveal_strlit("/");
    }
    let mut url = String::from_str(download_base());
    url.append("/");
    let b = u64_to_string(catalog[idx].build);
    url.append(b.as_str());
    url.append("/");
    url.append(catalog[idx].filename.as_str());
    proof {
        assert("/"@ =~= seq!['/']);
        assert(url@ =~= download_url_spec(catalog@[idx as int]@));
    }
    Ok((url, idx))
}

/// Turns the download response into the entries to install. A non-success
/// status is a transport failure carrying the code and hands nothing out; a
/// success status with anything but a well-formed, fully readable archive
/// body is an archive failure; otherwise every entry of the archive comes
/// back, in order.
pub fn process_download_response(status: u16, body: &Vec<u8>) -> (r: Result<
    Vec<ZipEntry>,
    InstallError,
>)
    ensures
        status != 200 ==> (r matches Err(e) && e matches InstallError::Transport(c)
            && c == status),
        status == 200 ==> (match r {
            Ok(v) => zip_parse(body@) matches Some(es) && entries_match(es, v@),
            Err(e) => e matches InstallError::Archive(m) && m@ == "malformed archive data"@ && (
            zip_parse(body@) is None || (zip_parse(body@) matches Some(es)
                && exists|i: int| 0 <= i < es.len() && (#[trigger] es[i]).1 is None)),
        }),
{
    if status != 200 {
        return Err(InstallError::Transport(status));
    }
    match extract_zip(body) {
        Ok(entries) => Ok(entries),
        Err(e) => Err(InstallError::Archive(String::from_str("malformed archive data"))),
    }
}

} // verus!
