//! The console: its keys, its requests and its answers.

use loca::api::{Api, Invite, Method, explain, trim_slashes};
use loca::config::{
    config_from, env_u32, is_switched_on, port, room_rename, settings_from, web_asset,
};
use loca::console::{Command, Console, Field, Key, SetField, Tab};
use loca::settings::{Building, Settings};
use loca::table::StrMap;

fn configured() -> Settings {
    Settings {
        buildings: vec![
            Building {
                label: "home".into(),
                server: "http://here/".into(),
                admin_token: "KEY".into(),
            },
            Building {
                label: "work".into(),
                server: "http://there".into(),
                admin_token: "OTHER".into(),
            },
        ],
        current: 0,
    }
}

fn davet(id: &str, name: &str) -> Invite {
    Invite {
        id: id.into(),
        room: "proj".into(),
        name: name.into(),
        kind: "agent".into(),
    }
}

fn ready() -> Console {
    let (mut c, first) = Console::new(configured());
    assert!(matches!(first, Command::Refresh));
    assert!(matches!(
        c.on_locas(Ok(vec!["proj".into(), "alpha".into()])),
        Command::LoadDavets { loca } if loca == "alpha"
    ));
    c.on_davets(Ok(vec![davet("ivid_1", "ada"), davet("ivid_2", "bob")]));
    c
}

fn write(c: &mut Console, text: &str) {
    for ch in text.chars() {
        c.on_key(Key::Char(ch));
    }
}

#[test]
fn requests_are_addressed() {
    let api = Api::new("http://here//".into(), "KEY".into());
    let r = api.locas();
    assert_eq!(r.method, Method::Get);
    assert_eq!(r.url, "http://here/rooms");
    assert_eq!(r.key, "KEY");
    assert!(r.person.is_none());
    assert_eq!(api.invites("proj").url, "http://here/rooms/proj/invites");
    let r = api.issue("proj", "ada", "agent");
    assert_eq!(r.method, Method::Post);
    let person = r.person.expect("a person");
    assert_eq!((person.name.as_str(), person.kind.as_str()), ("ada", "agent"));
    let r = api.revoke("proj", "ivid_1");
    assert_eq!(r.method, Method::Delete);
    assert_eq!(r.url, "http://here/rooms/proj/invites/ivid_1");
    assert_eq!(trim_slashes("a//"), "a");
    assert_eq!(explain(401), "the master key was refused");
    assert_eq!(explain(404), "no such loca");
    assert_eq!(explain(500), "the building answered 500");
}

#[test]
fn the_first_run_asks_for_an_address() {
    let (mut c, first) = Console::new(Settings::load_defaults());
    assert!(matches!(first, Command::Nothing));
    assert_eq!(c.tab, Tab::Settings);
    write(&mut c, "http://x");
    c.on_key(Key::Down);
    assert_eq!(c.set_field, SetField::Token);
    write(&mut c, "KE!");
    c.on_key(Key::Backspace);
    write(&mut c, "Y");
    assert!(matches!(c.on_key(Key::Enter), Command::Save));
    assert_eq!(c.settings.current().server, "http://x");
    assert_eq!(c.settings.current().admin_token, "KEY");
    assert!(matches!(c.on_saved(Ok("/p".into())), Command::Refresh));
    c.on_saved(Err("full disk".into()));
    assert_eq!(c.status, "could not save: full disk");
}

#[test]
fn rooms_and_davets_are_walked() {
    let mut c = ready();
    assert_eq!(c.selected_loca().as_deref(), Some("alpha"));
    assert!(matches!(c.on_key(Key::Right), Command::LoadDavets { loca } if loca == "proj"));
    assert!(matches!(c.on_key(Key::Right), Command::Nothing));
    assert!(matches!(c.on_key(Key::Char('h')), Command::LoadDavets { loca } if loca == "alpha"));
    c.on_davets(Ok(vec![davet("ivid_1", "ada"), davet("ivid_2", "bob")]));
    assert_eq!(c.davet_sel, Some(0));
    c.on_key(Key::Down);
    c.on_key(Key::Down);
    assert_eq!(c.davet_sel, Some(1));
    c.on_key(Key::Up);
    assert_eq!(c.davet_sel, Some(0));
    c.on_davets(Err("gone".into()));
    assert_eq!(c.status, "could not read davets: gone");
    c.on_locas(Err("down".into()));
    assert_eq!(c.status, "cannot reach the building: down");
}

#[test]
fn a_davet_is_ended_only_when_confirmed() {
    let mut c = ready();
    c.on_key(Key::Char('d'));
    assert!(c.confirm_revoke.is_some());
    assert!(matches!(c.on_key(Key::Char('n')), Command::Nothing));
    assert_eq!(c.status, "kept");
    c.on_key(Key::Delete);
    assert!(matches!(c.on_key(Key::Char('y')), Command::Revoke { invite } if invite.id == "ivid_1"));
    assert!(matches!(c.on_revoked("ada", Ok(())), Command::LoadDavets { .. }));
    assert_eq!(c.status, "ada's davet ended");
    c.on_revoked("ada", Err("no".into()));
    assert_eq!(c.status, "could not revoke: no");
}

#[test]
fn a_davet_is_issued_and_shown_once() {
    let mut c = ready();
    c.on_key(Key::Char('n'));
    assert_eq!(c.tab, Tab::Issue);
    assert_eq!(c.field, Field::Name);
    assert_eq!(c.f_loca, "alpha");
    write(&mut c, "cy");
    assert!(matches!(
        c.on_key(Key::Enter),
        Command::Issue { loca, name, kind } if loca == "alpha" && name == "cy" && kind == "agent"
    ));
    assert!(matches!(c.on_issued("alpha", "cy", Ok("dv_1".into())), Command::Refresh));
    assert!(c.f_name.is_empty());
    assert!(matches!(c.on_key(Key::Char('c')), Command::Copy { token } if token == "dv_1"));
    c.on_copied(true);
    assert_eq!(c.status, "copied — hand it over privately, never into a room");
    c.on_copied(false);
    assert_eq!(c.status, "no clipboard here; select the token with the mouse");
    c.on_key(Key::Enter);
    assert!(c.minted.is_none());
    c.on_issued("alpha", "cy", Err("full".into()));
    assert_eq!(c.status, "could not issue: full");
}

#[test]
fn buildings_are_switched_and_left() {
    let mut c = ready();
    assert!(matches!(c.on_key(Key::F2), Command::Refresh));
    assert_eq!(c.settings.current, 1);
    assert_eq!(c.s_server, "http://there");
    assert!(matches!(c.on_key(Key::Char('r')), Command::Refresh));
    c.on_key(Key::Tab);
    c.on_key(Key::Tab);
    assert_eq!(c.tab, Tab::Settings);
    // A letter is a letter while one types.
    c.on_key(Key::Char('q'));
    assert!(!c.quit);
    c.on_key(Key::Esc);
    assert!(c.quit);
}

#[test]
fn switches_and_numbers_are_read() {
    assert!(is_switched_on(Some("1")) && is_switched_on(Some("true")));
    assert!(!is_switched_on(Some("yes")) && !is_switched_on(None));
    assert_eq!(env_u32(Some("12"), 3), 12);
    assert_eq!(env_u32(Some("-1"), 3), 3);
    assert_eq!(env_u32(Some("4294967296"), 3), 3);
    assert_eq!(env_u32(None, 3), 3);
    assert_eq!(port(None), 8787);
    assert_eq!(port(Some("80")), 80);
    assert_eq!(port(Some("65536")), 8787);
    assert_eq!(room_rename("old: new ").expect("names"), ("old".to_string(), "new".to_string()));
    assert!(room_rename("old").is_none() && room_rename(":new").is_none());
    assert_eq!(web_asset("styles.css"), Some("text/css; charset=utf-8"));
    assert_eq!(web_asset("../secret"), None);
}

#[test]
fn a_building_is_configured_by_its_surroundings() {
    let mut env: StrMap<String> = StrMap::new();
    let c = config_from(&env);
    assert_eq!((c.home_room.as_str(), c.reserved_room.as_str()), ("iye", ""));
    assert!(c.caretakers.contains("loca-care"));
    assert!(!c.require_invite);
    let s = settings_from(&env);
    assert_eq!((s.rate_limit, s.turn_max_messages, s.care_cooldown_secs), (10, 4, 300));
    env.insert("LOCA_CARETAKERS".into(), " Ann , bob,,".into());
    env.insert("REQUIRE_INVITE".into(), "1".into());
    env.insert("ADMIN_TOKEN".into(), "K".into());
    env.insert("TURN_MAX_MESSAGES".into(), "99".into());
    let c = config_from(&env);
    assert_eq!(c.caretakers.list().len(), 2);
    assert!(c.caretakers.contains("bob"));
    assert!(c.require_invite);
    assert_eq!(c.admin_token, "K");
    assert_eq!(settings_from(&env).turn_max_messages, 16);
}
