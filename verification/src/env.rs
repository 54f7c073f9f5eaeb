//! Classification of a game directory into the runtime environment variant it
//! uses, from a listing of the directory's immediate subdirectories.

use vstd::prelude::*;

use crate::text::{ends_with, ends_with_str, eq_str};

verus! {

/// The closed set of runtime environments a game can use, in detection
/// priority order: a managed-code marker wins over a native-compiled marker,
/// and a data folder with neither marker falls back to the standalone
/// launcher variant.
#[derive(Debug, Clone, Copy, PartialEq, Eq, Structural)]
pub enum EnvironmentVariant {
    ManagedRuntime,
    NativeCompiledRuntime,
    StandaloneLauncher,
}

/// One immediate subdirectory of a candidate game directory: its name and the
/// names of the directories inside it.
#[derive(Debug, Clone)]
pub struct SubdirListing {
    pub name: String,
    pub children: Vec<String>,
}

/// A directory qualifies as a game data folder when its name ends with the
/// fixed data-folder suffix.
pub open spec fn is_data_dir_name(n: Seq<char>) -> bool {
    ends_with(n, "_Data"@)
}

pub open spec fn contains_name(cs: Seq<String>, n: Seq<char>) -> bool {
    exists|i: int| 0 <= i < cs.len() && cs[i]@ == n
}

/// Priority-ordered classification of a data folder by its child directories:
/// the managed-code marker first, the native-compiled marker second, the
/// standalone fallback last, so every data folder classifies to something.
pub open spec fn classify_children(cs: Seq<String>) -> EnvironmentVariant {
    if contains_name(cs, "Managed"@) {
        EnvironmentVariant::ManagedRuntime
    } else if contains_name(cs, "il2cpp_data"@) {
        EnvironmentVariant::NativeCompiledRuntime
    } else {
        EnvironmentVariant::StandaloneLauncher
    }
}

/// Index of the first subdirectory whose name qualifies as a data folder.
pub open spec fn first_data_dir(dirs: Seq<SubdirListing>) -> Option<int>
    decreases dirs.len(),
{
    if dirs.len() == 0 {
        None
    } else if is_data_dir_name(dirs[0].name@) {
        Some(0)
    } else {
        match first_data_dir(dirs.subrange(1, dirs.len() as int)) {
            Some(i) => Some(i + 1),
            None => None,
        }
    }
}

/// `first_data_dir` returns the least qualifying index, or `None` when no
/// subdirectory qualifies.
pub proof fn lemma_first_data_dir(dirs: Seq<SubdirListing>)
    ensures
        match first_data_dir(dirs) {
            Some(i) => 0 <= i < dirs.len() && is_data_dir_name(dirs[i].name@) && (forall|j: int|
                0 <= j < i ==> !is_data_dir_name(dirs[j].name@)),
            None => forall|i: int| 0 <= i < dirs.len() ==> !is_data_dir_name(dirs[i].name@),
        },
    decreases dirs.len(),
{
    if dirs.len() != 0 && !is_data_dir_name(dirs[0].name@) {
        let t = dirs.subrange(1, dirs.len() as int);
        lemma_first_data_dir(t);
        match first_data_dir(t) {
            Some(i) => {
                assert(dirs[i + 1] == t[i]);
                assert forall|j: int| 0 <= j < i + 1 implies !is_data_dir_name(
                    dirs[j].name@,
                ) by {
                    if j >= 1 {
                        assert(t[j - 1] == dirs[j]);
                    }
                }
            },
            None => {
                assert forall|j: int| 0 <= j < dirs.len() implies !is_data_dir_name(
                    dirs[j].name@,
                ) by {
                    if j >= 1 {
                        assert(t[j - 1] == dirs[j]);
                    }
                }
            },
        }
    }
}

/// The detection result for a directory listing: the classification of the
/// first data folder, or nothing when no data folder exists.
pub open spec fn detection_spec(dirs: Seq<SubdirListing>) -> Option<EnvironmentVariant> {
    match first_data_dir(dirs) {
        Some(i) => Some(classify_children(dirs[i].children@)),
        None => None,
    }
}

/// True when one of the names in `cs` equals `n`.
pub fn dir_list_contains(cs: &Vec<String>, n: &str) -> (r: bool)
    ensures
        r == contains_name(cs@, n@),
{
    let mut i: usize = 0;
    while i < cs.len()
        invariant
            i <= cs@.len(),
            forall|j: int| 0 <= j < i ==> cs@[j]@ != n@,
        decreases cs@.len() - i,
    {
        if eq_str(cs[i].as_str(), n) {
            return true;
        }
        i += 1;
    }
    false
}

/// Classifies a data folder's children, in strict priority order.
pub fn classify_data_children(children: &Vec<String>) -> (r: EnvironmentVariant)
    ensures
        r == classify_children(children@),
{
    if dir_list_contains(children, "Managed") {
        EnvironmentVariant::ManagedRuntime
    } else if dir_list_contains(children, "il2cpp_data") {
        EnvironmentVariant::NativeCompiledRuntime
    } else {
        EnvironmentVariant::StandaloneLauncher
    }
}

/// Inspects the immediate subdirectories of a candidate game directory and
/// classifies the game's runtime environment. Returns `None` when no data
/// folder is present; never fails.
pub fn detect_environment(subdirs: &Vec<SubdirListing>) -> (r: Option<EnvironmentVariant>)
    ensures
        r == detection_spec(subdirs@),
{
    let mut i: usize = 0;
    while i < subdirs.len()
        invariant
            i <= subdirs@.len(),
            forall|j: int| 0 <= j < i ==> !is_data_dir_name(subdirs@[j].name@),
        decreases subdirs@.len() - i,
    {
        if ends_with_str(subdirs[i].name.as_str(), "_Data") {
            let v = classify_data_children(&subdirs[i].children);
            proof {
                lemma_first_data_dir(subdirs@);
                assert(first_data_dir(subdirs@) == Some(i as int));
            }
            return Some(v);
        }
        i += 1;
    }
    proof {
        lemma_first_data_dir(subdirs@);
    }
    None
}

impl EnvironmentVariant {
    /// The fixed on-disk hint behind each classification, as display text.
    pub open spec fn rationale_spec(self) -> Seq<char> {
        match self {
            EnvironmentVariant::ManagedRuntime => "data folder contains a Managed subfolder"@,
            EnvironmentVariant::NativeCompiledRuntime => "data folder contains an il2cpp_data subfolder"@,
            EnvironmentVariant::StandaloneLauncher => "data folder has neither runtime marker"@,
        }
    }

    /// Human-readable rationale for the classification.
    pub fn rationale(&self) -> (r: String)
        ensures
            r@ == self.rationale_spec(),
    {
        match self {
            EnvironmentVariant::ManagedRuntime => String::from_str(
                "data folder contains a Managed subfolder",
            ),
            EnvironmentVariant::NativeCompiledRuntime => String::from_str(
                "data folder contains an il2cpp_data subfolder",
            ),
            EnvironmentVariant::StandaloneLauncher => String::from_str(
                "data folder has neither runtime marker",
            ),
        }
    }
}

} // verus!
