//! The console's own settings, as it keeps them in a file.

use loca::settings::{Building, Settings};

fn building(label: &str, server: &str, key: &str) -> Building {
    Building {
        label: label.to_string(),
        server: server.to_string(),
        admin_token: key.to_string(),
    }
}

#[test]
fn first_run_never_selects_a_remote_origin() {
    let settings = Settings::load_defaults();
    let building = settings.current();

    assert_eq!(building.label, "building");
    assert!(building.server.is_empty());
    assert!(building.admin_token.is_empty());
    assert!(!settings.is_configured());
}

#[test]
fn saved_settings_are_read_back() {
    let kept = Settings {
        buildings: vec![
            building("home", "http://localhost:8787", "key one"),
            building("office", "https://office.example", "key=two"),
        ],
        current: 1,
    };
    let read = Settings::load(Some(&kept.save()));
    assert_eq!(read.current, 1);
    assert_eq!(read.buildings.len(), 2);
    assert_eq!(read.buildings[0].label, "home");
    assert_eq!(read.buildings[0].server, "http://localhost:8787");
    assert_eq!(read.buildings[0].admin_token, "key one");
    assert_eq!(read.buildings[1].label, "office");
    assert_eq!(read.buildings[1].admin_token, "key=two");
    assert!(read.is_configured());
}

#[test]
fn a_missing_file_gives_the_first_settings() {
    let read = Settings::load(None);
    assert_eq!(read.buildings.len(), 1);
    assert_eq!(read.current().label, "building");
}

#[test]
fn buildings_go_round() {
    let mut s = Settings {
        buildings: vec![building("a", "x", "k"), building("b", "y", "")],
        current: 0,
    };
    assert!(s.is_configured());
    s.next_building();
    assert_eq!(s.current().label, "b");
    assert!(!s.is_configured());
    s.next_building();
    assert_eq!(s.current().label, "a");
    s.current_mut().expect("a building").admin_token = String::new();
    assert!(!s.is_configured());
}

#[test]
fn settings_live_under_the_home_directory() {
    assert_eq!(Settings::path(Some("/home/ada")), "/home/ada/.loca/admin.toml");
}
