//! Selection-state values.

use bepinex_installer::artifact::parse_filename;
use bepinex_installer::state::{AdvancedSettings, BepInEx, Game, Installer};

#[test]
fn game_new_keeps_its_fields() {
    let g = Game::new(
        "Foo".to_owned(),
        "x64".to_owned(),
        "C:/Games/Foo".to_owned(),
    );
    assert_eq!(g.name, "Foo");
    assert_eq!(g.arch, "x64");
    assert_eq!(g.path, "C:/Games/Foo");
    assert_eq!(g.display_name(), "Foo");
}

#[test]
fn default_game_is_the_placeholder() {
    let g = Game::default();
    assert_eq!(g.name, "Not selected");
    assert_eq!(g.arch, "x86");
    assert_eq!(g.path, "");
}

#[test]
fn advanced_settings_round_trip() {
    let s = AdvancedSettings::new(true, false);
    assert!(s.picker());
    assert!(!s.bleeding_edge());
    let s = AdvancedSettings::new(false, true);
    assert!(!s.picker());
    assert!(s.bleeding_edge());
}

#[test]
fn installer_state_holds_selections() {
    let mut installer = Installer::default();
    assert!(installer.selected_game.is_none());
    assert!(installer.selected_bix.is_none());
    assert!(installer.games.is_empty());

    installer.bepinex = BepInEx {
        releases: vec![parse_filename("BepInEx_UnityMono_x64_39c9e59_6.0.0-be.697.zip").unwrap()],
    };
    installer.games.push(Game::new(
        "Foo".to_owned(),
        "x64".to_owned(),
        "C:/Games/Foo".to_owned(),
    ));
    installer.selected_game = Some(installer.games[0].clone());
    installer.selected_bix = Some(installer.bepinex.releases[0].clone());
    assert_eq!(installer.selected_game.as_ref().unwrap().name, "Foo");
    assert_eq!(installer.selected_bix.as_ref().unwrap().build, 697);
}
