//! Application-state values the selection layer owns and passes into the
//! pipeline: the games on offer, the fetched catalog, and what the user has
//! picked so far.

use vstd::prelude::*;

use crate::artifact::ArtifactRecord;

verus! {

/// A game found on disk: its display name, its processor architecture, and
/// the directory that holds it.
#[derive(Debug, Clone, PartialEq, Eq)]
pub struct Game {
    pub name: String,
    pub arch: String,
    pub path: String,
}

impl Game {
    pub fn new(name: String, arch: String, path: String) -> (r: Game)
        ensures
            r.name == name,
            r.arch == arch,
            r.path == path,
    {
        Game { name, arch, path }
    }

    /// The name a selection list shows for this game.
    pub fn display_name(&self) -> (r: String)
        ensures
            r@ == self.name@,
    {
        String::from_str(self.name.as_str())
    }
}

impl Default for Game {
    /// The placeholder before any game is selected.
    fn default() -> (r: Game)
        ensures
            r.name@ == "Not selected"@,
            r.arch@ == "x86"@,
            r.path@ =~= Seq::<char>::empty(),
    {
        Game {
            name: String::from_str("Not selected"),
            arch: String::from_str("x86"),
            path: String::new(),
        }
    }
}

/// The release catalog as fetched for one snapshot, in feed order.
#[derive(Debug, Clone, Default)]
pub struct BepInEx {
    pub releases: Vec<ArtifactRecord>,
}

/// Advanced install options: a manual directory picker and bleeding-edge
/// builds.
#[derive(Debug, Clone, PartialEq, Eq)]
pub struct AdvancedSettings {
    picker: bool,
    bleeding_edge: bool,
}

impl AdvancedSettings {
    pub closed spec fn picker_spec(&self) -> bool {
        self.picker
    }

    pub closed spec fn bleeding_edge_spec(&self) -> bool {
        self.bleeding_edge
    }

    pub fn new(picker: bool, bleeding_edge: bool) -> (r: AdvancedSettings)
        ensures
            r.picker_spec() == picker,
            r.bleeding_edge_spec() == bleeding_edge,
    {
        AdvancedSettings { picker, bleeding_edge }
    }

    pub fn picker(&self) -> (r: bool)
        ensures
            r == self.picker_spec(),
    {
        self.picker
    }

    pub fn bleeding_edge(&self) -> (r: bool)
        ensures
            r == self.bleeding_edge_spec(),
    {
        self.bleeding_edge
    }
}

/// Process-wide selection state, owned by the UI layer and handed by
/// reference into the pipeline operations.
#[derive(Default)]
pub struct Installer {
    pub settings: bool,
    pub advanced_mode: bool,
    pub advanced_settings: Option<AdvancedSettings>,
    pub bepinex: BepInEx,
    pub selected_bix: Option<ArtifactRecord>,
    pub games: Vec<Game>,
    pub selected_game: Option<Game>,
}

} // verus!
