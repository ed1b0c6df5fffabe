//! Doors: keys, davets, sessions, and who is let in.

use loca::authority::{
    BuildingRole, Directory, LocaOperatorAssignment, LocaOperatorError, OperatorAssignmentError,
    PrincipalIdentity, RequestAuthority,
};
use loca::content::{AttachError, bounded_number, check_search, refuse_file, refuse_reaction, status_of_reject, wanted_backlog};
use loca::door::EnterDecision;
use loca::gate::{
    Caller, Header, Headers, is_member_kind, is_public_path, valid_agent_name, valid_identity_name,
};
use loca::halls::{DeleteReject, NotSaved};
use loca::hub::{Hub, HubConfig, LobbyEvent};
use loca::keys::InviteError;
use loca::lobby::{Approve, ApproveTxn, JoinRequestCreate, client_source};
use loca::people::{
    CredentialError, Standing, admission_ttl_ms, check_join_request, desk_admit, pairing_ttl_ms,
    refuse_approval, refuse_credential, refuse_ending, refuse_join,
};
use loca::post::PostReject;
use loca::premises::{Counter, refuse_appointment, refuse_invite, refuse_lead, refuse_removal, status_of_seal};
use loca::protocol::{
    ChatMode, CreateJournalEntry, CreateNote, CreateSession, CreateTask, Invite, Membership,
    MessageKind, ModAction, PostMessage, RoomSettings, SenderType, SetMessageReaction, SetSettings,
    Task, TaskStatus, UpdateNote,
};
use loca::record::{LeadError, ReactionReject};
use loca::restore::{Migration, master_name, operator_migration};
use loca::saved::{Saved, SavedBan, SavedKey, SavedRoom, SavedSession};
use loca::table::{StrMap, StrSet};

fn open(saved: &Saved, closed: bool) -> Hub {
    let mut caretakers = StrSet::new();
    caretakers.insert("loca-care");
    Hub::build(
        HubConfig {
            admin_token: "MASTER".into(),
            room_token: String::new(),
            require_sessions: closed,
            require_invite: closed,
            home_room: "iye".into(),
            reserved_room: "iye".into(),
            caretakers,
        },
        saved,
        RoomSettings::default(),
        1,
        1_000,
    )
    .hub
}

fn closed() -> Hub {
    open(&Saved::empty(), true)
}

fn headers(pairs: &[(&str, &str)]) -> Headers {
    Headers {
        entries: pairs
            .iter()
            .map(|(n, v)| Header {
                name: n.to_string(),
                value: Some(v.to_string()),
            })
            .collect(),
    }
}

/// Who answers a request, and how.
fn ask<T>(hub: &Hub, pairs: &[(&str, &str)], f: impl Fn(&Caller) -> T) -> T {
    let h = headers(pairs);
    let dir = Directory::empty();
    f(&Caller {
        hub,
        dir: &dir,
        headers: &h,
        now: 2_000,
    })
}

fn davet(hub: &mut Hub, name: &str, room: &str) -> String {
    let m = match hub.member_by_name(name) {
        Some(m) => m,
        None => hub.admit_member(name, "agent", "operator", 1_000),
    };
    hub.invite_member_to_room(&m.token, room, "operator", 1_000, true)
        .expect("davet")
        .token
}

fn enter(hub: &Hub, room: &str, admin: Option<&str>, token: Option<&str>) -> EnterDecision {
    hub.enter_decision(room, admin, token, None, None, &Directory::empty())
}

#[test]
fn a_davet_opens_one_room() {
    let mut hub = closed();
    let token = davet(&mut hub, "ada", "proj");
    assert!(token.starts_with("dv_"));
    assert!(enter(&hub, "proj", None, Some(&token)).is_allowed());
    assert!(matches!(enter(&hub, "other", None, Some(&token)), EnterDecision::Denied));
    assert!(matches!(enter(&hub, "proj", None, None), EnterDecision::Denied));
    assert!(matches!(enter(&hub, "proj", None, Some("dv_made_up")), EnterDecision::Denied));
    // A ban comes first, but not before the master.
    hub.moderate("proj", ModAction::Ban, "ada", true).expect("ban");
    assert!(!enter(&hub, "proj", None, Some(&token)).is_allowed());
    assert!(enter(&hub, "proj", Some("MASTER"), None).is_allowed());
}

#[test]
fn a_davet_is_given_once_and_within_the_seats() {
    let mut hub = closed();
    let first = davet(&mut hub, "n0", "proj");
    let m = hub.member_by_name("n0").expect("member").token;
    assert!(matches!(
        hub.invite_member_to_room(&m, "proj", "op", 1, true),
        Err(InviteError::AlreadyInvited)
    ));
    assert!(matches!(
        hub.invite_member_to_room("mb_nobody", "proj", "op", 1, true),
        Err(InviteError::MemberNotFound)
    ));
    assert!(matches!(
        hub.invite_member_to_room(&m, "iye", "op", 1, true),
        Err(InviteError::Reserved)
    ));
    assert!(matches!(
        hub.invite_member_to_room(&m, "other", "op", 1, false),
        Err(InviteError::Storage)
    ));
    for i in 1..7 {
        davet(&mut hub, &format!("n{i}"), "proj");
    }
    let late = hub.admit_member("late", "agent", "op", 1).token;
    assert!(matches!(
        hub.invite_member_to_room(&late, "proj", "op", 1, true),
        Err(InviteError::Full)
    ));
    assert_eq!(hub.revoke_invite(&first, true), Ok(true));
    assert!(hub.invite_member_to_room(&late, "proj", "op", 1, true).is_ok());
}

#[test]
fn an_ended_davet_opens_nothing() {
    let mut hub = closed();
    let token = davet(&mut hub, "ada", "proj");
    let kept = davet(&mut hub, "ada", "other");
    assert_eq!(hub.revoke_invite(&token, false), Err(NotSaved));
    assert_eq!(hub.revoke_invite(&token, true), Ok(true));
    assert_eq!(hub.revoke_invite(&token, true), Ok(false));
    assert!(!enter(&hub, "proj", None, Some(&token)).is_allowed());
    assert!(enter(&hub, "other", None, Some(&kept)).is_allowed());
    // With the membership everything goes.
    let m = hub.member_by_name("ada").expect("member").token;
    assert_eq!(hub.revoke_member(&m, true), Ok(true));
    assert!(!enter(&hub, "other", None, Some(&kept)).is_allowed());
    assert!(hub.member_by_name("ada").is_none());
}

#[test]
fn the_lobby_hears_of_calls_and_ends() {
    let mut hub = closed();
    let m = hub.admit_member("ada", "agent", "op", 1_000);
    hub.lobby_join(&m.token);
    assert!(hub.lobby_is_online(&m.token));
    let plan = hub.plan_invite(&m.token, "proj", "op", 1_000).expect("plan");
    hub.call_member(plan);
    match &hub.take_lobby_events()[..] {
        [LobbyEvent::Called { member, room, .. }] => {
            assert_eq!(*member, m.token);
            assert_eq!(room, "proj");
        }
        other => panic!("one call, not {}", other.len()),
    }
    hub.revoke_member(&m.token, true).expect("revoked");
    assert!(
        hub.take_lobby_events()
            .iter()
            .any(|e| matches!(e, LobbyEvent::MembershipRevoked { member } if *member == m.token))
    );
    hub.lobby_leave(&m.token);
    assert!(!hub.lobby_is_online(&m.token));
}

#[test]
fn a_session_bears_the_name_of_its_davet_and_runs_out() {
    let mut hub = closed();
    let dir = Directory::empty();
    let token = davet(&mut hub, "ada", "proj");
    let invite = hub.invite_by_token(&token).expect("davet");
    let req = CreateSession {
        name: "somebody else".into(),
        kind: None,
        runtime: None,
        capabilities: Vec::new(),
    };
    let info = hub
        .create_session_scoped(req.clone(), Some(&invite), None, &dir, 1_000, true)
        .expect("session");
    assert_eq!(info.name, "ada");
    assert!(!info.admin);
    let key = info.session_token.as_str();
    let me = hub.live_session(Some(key), &dir, 1_001).expect("live");
    assert_eq!(me.loca.as_deref(), Some("proj"));
    assert!(hub.enter_decision("proj", None, None, Some(&me), None, &dir).is_allowed());
    assert!(!hub.enter_decision("other", None, None, Some(&me), None, &dir).is_allowed());
    // A davet's session has no time of its own; a master's runs out.
    assert_eq!(info.expires_at, None);
    let grant = hub.master_pairing_grant(3_600_000, &dir);
    let boss = hub
        .create_session_scoped(req.clone(), None, Some(grant), &dir, 1_000, true)
        .expect("session");
    assert!(boss.admin);
    assert_eq!(boss.expires_at, Some(3_601_000));
    assert!(hub.live_session(Some(&boss.session_token), &dir, 3_600_999).is_some());
    assert!(hub.live_session(Some(&boss.session_token), &dir, 3_601_000).is_none());
    assert!(hub.create_session_scoped(req, Some(&invite), None, &dir, 1_000, false).is_err());
    // Asking for it forgets a session that ran out.
    assert!(hub.session_identity(Some(&boss.session_token), &dir, 1_001).is_some());
    assert!(hub.session_identity(Some(&boss.session_token), &dir, 3_601_000).is_none());
    assert!(hub.live_session(Some(&boss.session_token), &dir, 1_001).is_none());
    assert_eq!(hub.invite_room(&token).as_deref(), Some("proj"));
    assert_eq!(hub.invite_room("dv_none"), None);
    // It ends with its davet.
    hub.revoke_invite(&token, true).expect("revoked");
    assert!(hub.live_session(Some(key), &dir, 1_002).is_none());
}

#[test]
fn a_pairing_code_works_once_and_in_time() {
    let mut hub = closed();
    let (code, _) = hub.rotate_admin_pairing_for(7_200_000, 1_000).expect("code");
    assert_eq!(hub.consume_admin_pairing("wrong", 1_001), None);
    assert_eq!(hub.consume_admin_pairing(&code, 1_001), Some(7_200_000));
    assert_eq!(hub.consume_admin_pairing(&code, 1_002), None);
    let (old, _) = hub.rotate_admin_pairing_for(7_200_000, 2_000).expect("code");
    let (new, _) = hub.rotate_admin_pairing_for(7_200_000, 2_000).expect("code");
    assert_eq!(hub.consume_admin_pairing(&old, 2_001), None);
    assert_eq!(hub.admin_pairing_code(2_001), Some(new));
}

#[test]
fn hours_are_hours() {
    assert_eq!(pairing_ttl_ms(None), Ok(43_200_000));
    assert_eq!(pairing_ttl_ms(Some("1")), Ok(3_600_000));
    assert_eq!(pairing_ttl_ms(Some("soon")), Err("ttl_hours must be a whole number"));
    assert_eq!(pairing_ttl_ms(Some("18446744073709551615")), Err("ttl_hours is too large"));
    assert_eq!(
        pairing_ttl_ms(Some("0")),
        Err("session duration must be between 1 hour and 365 days")
    );
    assert_eq!(admission_ttl_ms(None), Ok(86_400_000));
    assert_eq!(admission_ttl_ms(Some(2_160)), Ok(7_776_000_000));
    assert_eq!(
        admission_ttl_ms(Some(2_161)),
        Err("ttl_hours must be between 1 and 2160 (90 days)")
    );
    assert_eq!(admission_ttl_ms(Some(u64::MAX)), Err("ttl_hours is too large"));
}

#[test]
fn smasters_come_and_go() {
    let mut hub = closed();
    assert_eq!(hub.add_smaster("sm_1".into(), "bea", false), Err(NotSaved));
    assert!(!hub.is_admin(Some("sm_1")));
    hub.add_smaster("sm_1".into(), "bea", true).expect("smaster");
    assert!(hub.is_admin(Some("sm_1")));
    assert!(!hub.is_master(Some("sm_1")));
    assert!(hub.is_master(Some("MASTER")));
    assert_eq!(hub.smaster_name(Some("sm_1")).as_deref(), Some("bea"));
    assert_eq!(hub.smasters().len(), 1);
    assert_eq!(hub.revoke_smaster("sm_1", true), Ok(true));
    assert_eq!(hub.revoke_smaster("sm_1", true), Ok(false));
    assert!(!hub.is_admin(Some("sm_1")));
}

#[test]
fn what_is_public_needs_no_key() {
    let mut hub = closed();
    let dir = Directory::empty();
    for path in ["/", "/assets/app.js", "/PRINCIPLES.md", "/health", "/sessions", "/membership/claim", "/ws"] {
        assert!(is_public_path(path), "{path}");
        assert!(hub.require_membership(&headers(&[]), &dir, path, 2_000).is_ok());
    }
    assert!(!is_public_path("/rooms"));
    assert_eq!(
        hub.require_membership(&headers(&[]), &dir, "/rooms", 2_000).err().expect("closed").message,
        "davet required"
    );
    assert_eq!(
        hub.require_membership(&headers(&[("x-admin-token", "nonsense")]), &dir, "/rooms", 2_000)
            .err().expect("unknown")
            .message,
        "credential revoked or unknown"
    );
    let master = headers(&[("x-admin-token", "MASTER")]);
    assert!(hub.require_membership(&master, &dir, "/rooms", 2_000).is_ok());
}

#[test]
fn a_revoked_credential_is_refused() {
    let mut hub = closed();
    let mut dir = Directory::empty();
    dir.persistent = true;
    dir.revoked.insert("mb_gone");
    let h = headers(&[("x-room-token", "mb_gone")]);
    let e = hub.require_membership(&h, &dir, "/rooms", 2_000).err().expect("revoked");
    assert_eq!((e.status, e.message), (401, "credential revoked"));
}

/// The master's session, which runs out an hour later.
fn master_session(hub: &mut Hub, dir: &Directory) -> String {
    let grant = hub.master_pairing_grant(3_600_000, dir);
    let req = CreateSession {
        name: "boss".into(),
        kind: None,
        runtime: None,
        capabilities: Vec::new(),
    };
    hub.create_session_scoped(req, None, Some(grant), dir, 0, true)
        .expect("session")
        .session_token
}

#[test]
fn a_session_that_is_over_is_forgotten_when_it_is_asked_for() {
    let dir = Directory::empty();
    let over = 3_600_000;
    // Nobody asked: it can still be ended.
    let mut hub = closed();
    let s = master_session(&mut hub, &dir);
    assert_eq!(hub.revoke_session(&s, true), Ok(true));
    // Its authority was asked for.
    let s = master_session(&mut hub, &dir);
    assert!(hub.resolve_authority(None, Some(&s), &dir, over - 1).is_master());
    assert!(!hub.resolve_authority(None, Some(&s), &dir, over).is_building_admin());
    assert_eq!(hub.revoke_session(&s, true), Ok(false));
    let s = master_session(&mut hub, &dir);
    assert!(hub.is_admin_session(Some(&s), &dir, over - 1));
    assert!(!hub.is_admin_session(Some(&s), &dir, over));
    assert_eq!(hub.revoke_session(&s, true), Ok(false));
    let s = master_session(&mut hub, &dir);
    assert!(!hub.is_loca_operator("proj", None, Some(&s), "boss", &dir, over));
    assert_eq!(hub.revoke_session(&s, true), Ok(false));
    // A request showed it.
    let s = master_session(&mut hub, &dir);
    let shown = headers(&[("x-session-token", &s)]);
    assert!(hub.require_membership(&shown, &dir, "/health", over).is_ok());
    assert_eq!(hub.sessions.len(), 1);
    assert!(hub.require_membership(&shown, &dir, "/rooms", over).is_err());
    assert_eq!(hub.revoke_session(&s, true), Ok(false));
    let s = master_session(&mut hub, &dir);
    let shown = headers(&[("x-session-token", &s)]);
    assert!(hub.create_pairing_route(&shown, &dir, None, over - 1).is_ok());
    assert!(hub.create_pairing_route(&shown, &dir, None, over).is_err());
    assert_eq!(hub.revoke_session(&s, true), Ok(false));
    let s = master_session(&mut hub, &dir);
    let shown = headers(&[("x-session-token", &s)]);
    assert!(hub.caller(&dir, &shown, over - 1).session().is_some());
    assert!(hub.caller(&dir, &shown, over).session().is_none());
    assert_eq!(hub.revoke_session(&s, true), Ok(false));
}

#[test]
fn a_davet_comes_onto_the_list_and_leaves_it() {
    let mut hub = closed();
    let kept = davet(&mut hub, "ada", "proj");
    let token = davet(&mut hub, "bob", "proj");
    let mut ids: StrMap<String> = StrMap::new();
    ids.insert(token.clone(), "ivid_bob".into());
    let listed = |hub: &Hub| -> Vec<String> {
        hub.invites_of("proj").into_iter().map(|i| i.token).collect()
    };
    assert!(token.starts_with("dv_"));
    assert_eq!(listed(&hub).len(), 2);
    assert!(listed(&hub).contains(&token));
    assert_eq!(hub.revoke_invite_ref("ivid_bob", &ids, true), Ok(true));
    assert_eq!(listed(&hub), [kept]);
}

#[test]
fn nobody_acts_in_a_name_they_only_claim() {
    let mut hub = closed();
    let dir = Directory::empty();
    let token = davet(&mut hub, "ada", "proj");
    let invite = hub.invite_by_token(&token).expect("davet");
    let session = hub
        .create_session_scoped(
            CreateSession {
                name: "x".into(),
                kind: None,
                runtime: None,
                capabilities: Vec::new(),
            },
            Some(&invite),
            None,
            &dir,
            1_000,
            true,
        )
        .expect("session")
        .session_token;
    assert_eq!(ask(&hub, &[("x-session-token", &session)], |c| c.actor_of("bob")).as_deref(), Some("ada"));
    assert_eq!(ask(&hub, &[], |c| c.actor_of("bob")), None);
    // A message is signed with the name of the session.
    let body = || PostMessage {
        kind: MessageKind::Say,
        sender: "bob".into(),
        sender_type: SenderType::User,
        target: None,
        text: "hi".into(),
        reply_to: None,
        op_id: None,
        attachments: Vec::new(),
    };
    let speech = ask(&hub, &[("x-session-token", &session)], |c| c.post_message(body())).expect("speech");
    assert_eq!(speech.body.sender, "ada");
    assert!(!speech.is_admin);
    assert_eq!(ask(&hub, &[], |c| c.post_message(body())).err().expect("no session").status, 401);
    let mut empty = body();
    empty.text = "  ".into();
    assert_eq!(
        ask(&hub, &[("x-session-token", &session)], |c| c.post_message(empty.clone()))
            .err().expect("empty")
            .message,
        "empty text"
    );
    let mut long = body();
    long.op_id = Some("x".repeat(129));
    assert_eq!(
        ask(&hub, &[("x-session-token", &session)], |c| c.post_message(long.clone()))
            .err().expect("long")
            .message,
        "op_id is too long"
    );
    // In an open building a claim is taken.
    let free = open(&Saved::empty(), false);
    assert_eq!(ask(&free, &[], |c| c.actor_of("bob")).as_deref(), Some("bob"));
}

#[test]
fn rooms_are_entered_with_their_davet() {
    let mut hub = closed();
    let token = davet(&mut hub, "ada", "proj");
    let with = [("x-room-token", token.as_str())];
    assert!(ask(&hub, &with, |c| c.room_access("proj")).is_ok());
    let e = ask(&hub, &with, |c| c.room_access("other")).err().expect("another room");
    assert_eq!((e.status, e.message), (401, "davet required for this loca"));
    hub.moderate("proj", ModAction::Ban, "ada", true).expect("ban");
    // A ban takes the davet with it.
    assert!(ask(&hub, &with, |c| c.room_access("proj")).is_err());
    let mut saved = Saved::empty();
    saved.sealed.push("gone".into());
    let hub = open(&saved, true);
    let e = ask(&hub, &[("x-admin-token", "MASTER")], |c| c.room_access("gone")).err().expect("sealed");
    assert_eq!((e.status, e.message), (404, "this loca no longer exists"));
}

#[test]
fn one_knows_who_one_is() {
    let mut hub = closed();
    let token = davet(&mut hub, "ada", "proj");
    let member = hub.member_by_name("ada").expect("member").token;
    assert!(matches!(
        ask(&hub, &[("x-room-token", &member)], |c| c.whoami()),
        Ok(Standing::Member { name, locas, .. }) if name == "ada" && locas == ["proj"]
    ));
    assert!(matches!(
        ask(&hub, &[("x-room-token", &token)], |c| c.whoami()),
        Ok(Standing::Davet { loca }) if loca == "proj"
    ));
    assert_eq!(ask(&hub, &[], |c| c.whoami()).err().expect("nobody").message, "no davet");
    assert_eq!(
        ask(&hub, &[("x-room-token", &token)], |c| c.claim_membership())
            .expect("membership")
            .name,
        "ada"
    );
    assert!(ask(&hub, &[], |c| c.claim_membership()).is_err());
}

#[test]
fn masters_run_the_building() {
    let mut hub = closed();
    let token = davet(&mut hub, "ada", "proj");
    hub.add_smaster("sm_1".into(), "bea", true).expect("smaster");
    let master = [("x-admin-token", "MASTER")];
    let second = [("x-admin-token", "sm_1")];
    assert!(ask(&hub, &master, |c| c.is_master_req()));
    assert!(!ask(&hub, &second, |c| c.is_master_req()));
    assert!(ask(&hub, &second, |c| c.is_admin_req()));
    assert!(ask(&hub, &master, |c| c.create_smaster("  cy ")).is_ok());
    assert_eq!(ask(&hub, &second, |c| c.create_smaster("cy")).err().expect("no").status, 401);
    assert_eq!(ask(&hub, &master, |c| c.create_smaster(" ")).err().expect("no").status, 400);
    assert_eq!(ask(&hub, &[], |c| c.create_invite("ada")).err().expect("no").message, "master only");
    assert!(ask(&hub, &master, |c| c.create_invite("ada")).is_ok());
    assert_eq!(ask(&hub, &master, |c| c.create_invite(" ")).err().expect("no").status, 400);
    assert_eq!(ask(&hub, &master, |c| c.create_invite("nobody")).err().expect("no").status, 409);
    assert_eq!(ask(&hub, &master, |c| c.call_into_loca("nobody")).err().expect("no").status, 404);
    assert_eq!(ask(&hub, &[], |c| c.call_into_loca("ada")).err().expect("no").status, 401);
    // The master's davet is the master's to end.
    let ids: StrMap<String> = StrMap::new();
    let mut issued = hub.invites.remove(&token).expect("davet");
    issued.issued_by = "master".into();
    hub.invites.insert(token.clone(), issued);
    let e = ask(&hub, &second, |c| c.revoke_invite("proj", &token, &ids)).err().expect("kept");
    assert_eq!(e.status, 403);
    assert!(ask(&hub, &master, |c| c.revoke_invite("proj", &token, &ids)).is_ok());
    assert_eq!(ask(&hub, &master, |c| c.revoke_invite("other", &token, &ids)).err().expect("no").status, 404);
    assert_eq!(ask(&hub, &[], |c| c.revoke_invite("proj", &token, &ids)).err().expect("no").status, 401);
    assert!(ask(&hub, &master, |c| c.delete_room()));
    assert!(!ask(&hub, &[], |c| c.delete_room()));
    assert!(ask(&hub, &[("x-room-token", &token)], |c| c.release_self_from_loca("proj")).is_ok());
    assert!(ask(&hub, &[], |c| c.release_self_from_loca("proj")).is_err());
    assert_eq!(ask(&hub, &master, |c| c.create_admission_stock(5, Some(1))).ok(), Some(3_600_000));
    assert_eq!(ask(&hub, &master, |c| c.create_admission_stock(0, None)).err().expect("no").status, 400);
    assert_eq!(ask(&hub, &second, |c| c.create_admission_stock(1, None)).err().expect("no").status, 401);
    assert!(ask(&hub, &master, |c| c.moderate("proj")).is_ok());
    assert_eq!(ask(&hub, &[], |c| c.moderate("proj")).err().expect("no").status, 401);
}

#[test]
fn admissions_are_checked() {
    let hub = closed();
    let master = [("x-admin-token", "MASTER")];
    let a = ask(&hub, &master, |c| c.admit_member(" ada ", None)).expect("admission");
    assert_eq!((a.name.as_str(), a.kind.as_str()), ("ada", "agent"));
    assert_eq!(ask(&hub, &master, |c| c.admit_member("", None)).err().expect("no").status, 400);
    assert_eq!(ask(&hub, &master, |c| c.admit_member("a", Some("ghost"))).err().expect("no").status, 400);
    assert_eq!(ask(&hub, &[], |c| c.admit_member("a", None)).err().expect("no").status, 401);
    assert_eq!(desk_admit(false, "a", None).err().expect("no").status, 403);
    assert_eq!(desk_admit(true, " ", None).err().expect("no").status, 400);
    assert!(desk_admit(true, "a", Some("user")).is_ok());
    assert_eq!(
        check_join_request("ada", None).expect("request"),
        ("ada".to_string(), "agent".to_string())
    );
    assert!(check_join_request("no spaces", None).is_err());
    assert!(check_join_request("ada", Some("ghost")).is_err());
    assert!(valid_agent_name("a.b-c_9"));
    assert!(!valid_agent_name(&"x".repeat(65)));
    assert!(!valid_agent_name(""));
    assert!(valid_identity_name("Zoe.9"));
    assert!(!valid_identity_name("Zoë") && !valid_identity_name("-zoe"));
    assert!(is_member_kind("agent") && is_member_kind("user") && !is_member_kind("Agent"));
}

#[test]
fn approvals_are_answered() {
    let mut hub = closed();
    assert!(matches!(hub.approve_join_request(ApproveTxn::NoStock), Approve::NoStock));
    assert!(matches!(hub.approve_join_request(ApproveTxn::NameTaken), Approve::NameTaken));
    assert!(matches!(hub.approve_join_request(ApproveTxn::AlreadyDecided), Approve::AlreadyDecided));
    assert!(matches!(hub.approve_join_request(ApproveTxn::Failed), Approve::Failed));
    assert!(refuse_approval(Approve::Approved).is_none());
    assert_eq!(refuse_approval(Approve::NoStock).expect("no").status, 409);
    assert_eq!(refuse_approval(Approve::NameTaken).expect("no").status, 409);
    assert_eq!(refuse_approval(Approve::Failed).expect("no").status, 503);
}

#[test]
fn what_was_saved_is_there_again() {
    let mut saved = Saved::empty();
    saved.smasters.push(SavedKey {
        token: "sm_1".into(),
        name: "bea".into(),
    });
    saved.bans.push(SavedBan {
        room: "proj".into(),
        name: "eve".into(),
        kind: "ban".into(),
    });
    saved.sessions.push(SavedSession {
        token: "st_1".into(),
        name: "ada".into(),
        kind: SenderType::Agent,
        expires_at: 9_000,
    });
    saved.sealed.push("gone".into());
    let mut hub = open(&saved, false);
    assert!(hub.is_admin(Some("sm_1")));
    assert!(hub.is_deleted("gone"));
    hub.subscribe("proj");
    assert!(hub.is_banned("proj", "eve"));
}

#[test]
fn a_room_goes_on_where_it_stopped() {
    let task = |id: u64| Task {
        id,
        room: "proj".into(),
        title: "old".into(),
        created_by: "op".into(),
        from_message: None,
        assigned_to: None,
        status: TaskStatus::Open,
        created_at: 5_000,
        progress_at: 5_000,
        closed_at: None,
    };
    let mut saved = Saved::empty();
    saved.rooms.push(SavedRoom {
        room: "proj".into(),
        mode: ChatMode::Paused,
        settings: RoomSettings::default(),
        max_rev: 8,
        max_msg_id: 41,
        messages: Vec::new(),
        notes: Vec::new(),
        tasks: vec![task(3), task(7)],
        goals: Vec::new(),
        waits: Vec::new(),
        care_marks: Vec::new(),
        attentions: Vec::new(),
        journal: Vec::new(),
    });
    // A davet for the reserved room that no caretaker holds.
    let member = |name: &str| Membership {
        token: format!("mb_{name}"),
        name: name.into(),
        kind: "agent".into(),
        joined_at: 1,
        admitted_by: "op".into(),
    };
    let held = |name: &str| Invite {
        token: format!("dv_{name}"),
        room: "iye".into(),
        member: format!("mb_{name}"),
        name: name.into(),
        kind: "agent".into(),
        issued_at: 1,
        issued_by: "master".into(),
    };
    for name in ["ada", "loca-care"] {
        saved.members.push(member(name));
        saved.invites.push(held(name));
    }
    let opening = Hub::build(
        HubConfig {
            admin_token: "MASTER".into(),
            room_token: String::new(),
            require_sessions: false,
            require_invite: false,
            home_room: "iye".into(),
            reserved_room: "iye".into(),
            caretakers: {
                let mut s = StrSet::new();
                s.insert("loca-care");
                s
            },
        },
        &saved,
        RoomSettings::default(),
        1,
        1_000,
    );
    assert_eq!(opening.evicted.len(), 1);
    assert_eq!(opening.evicted[0].name, "ada");
    let mut hub = opening.hub;
    assert!(hub.invite_by_token("dv_loca-care").is_some());
    assert!(hub.invite_by_token("dv_ada").is_none());
    assert!(matches!(hub.mode("proj"), ChatMode::Paused));
    let next = hub
        .create_task(
            "proj",
            CreateTask {
                title: "new".into(),
                from_message: None,
                assigned_to: None,
                by: "op".into(),
            },
            1_000,
            true,
        )
        .expect("task");
    assert_eq!(next.id, 8);
    let m = hub
        .post(
            "proj",
            PostMessage {
                kind: MessageKind::Say,
                sender: "op".into(),
                sender_type: SenderType::User,
                target: None,
                text: "hi".into(),
                reply_to: None,
                op_id: None,
                attachments: Vec::new(),
            },
            true,
            "op",
            1_000,
        )
        .expect("posted");
    assert!(m.id > 41);
    // The clock of conditions goes on as well.
    assert!(m.ts > 5_000);
}

#[test]
fn names_give_authority_only_without_doubt() {
    let who = |id: &str, kind: SenderType| PrincipalIdentity {
        id: id.into(),
        display_name: "ada".into(),
        kind,
        role: BuildingRole::Member,
    };
    let master = Some(PrincipalIdentity {
        id: "pr_m".into(),
        display_name: "op".into(),
        kind: SenderType::User,
        role: BuildingRole::Master,
    });
    let named = vec!["ada".to_string()];
    assert!(matches!(
        operator_migration(false, &named, &vec![who("pr_a", SenderType::User)], &master),
        Migration::Appoint { principal, by } if principal == "pr_a" && by == "pr_m"
    ));
    assert!(matches!(
        operator_migration(
            false,
            &named,
            &vec![who("pr_a", SenderType::User), who("pr_b", SenderType::User)],
            &master
        ),
        Migration::Withheld
    ));
    assert!(matches!(operator_migration(false, &named, &vec![], &master), Migration::Withheld));
    assert!(matches!(
        operator_migration(true, &named, &vec![who("pr_a", SenderType::User)], &master),
        Migration::Clear
    ));
    assert_eq!(master_name(Some("  Mel ")), "Mel");
    assert_eq!(master_name(Some(" ")), "Master");
    assert_eq!(master_name(None), "Master");
}

#[test]
fn references_stand_for_keys() {
    let mut hub = closed();
    let token = davet(&mut hub, "ada", "proj");
    let member = hub.member_by_name("ada").expect("member").token;
    let mut ids: StrMap<String> = StrMap::new();
    ids.insert(token.clone(), "ivid_1".into());
    ids.insert(member.clone(), "mbid_1".into());
    assert_eq!(hub.invite_by_ref("ivid_1", &ids).expect("davet").token, token);
    assert_eq!(hub.invite_by_ref(&token, &ids).expect("davet").token, token);
    assert!(hub.invite_by_ref("ivid_2", &ids).is_none());
    assert_eq!(hub.revoke_invite_ref("ivid_2", &ids, true), Ok(false));
    assert_eq!(hub.revoke_invite_ref("ivid_1", &ids, true), Ok(true));
    assert_eq!(hub.revoke_member_ref("mbid_1", &ids, true), Ok(true));
    assert!(hub.member_by_name("ada").is_none());
    hub.add_smaster("sm_1".into(), "bea", true).expect("smaster");
    assert_eq!(hub.revoke_smaster_ref("sm_1", &ids, false), Err(NotSaved));
    assert_eq!(hub.revoke_smaster_ref("sm_1", &ids, true), Ok(true));
}

#[test]
fn refusals_have_their_numbers() {
    assert_eq!(status_of_reject(&PostReject::Paused), 403);
    assert_eq!(status_of_reject(&PostReject::RateLimited { retry_after_secs: 3 }), 429);
    assert_eq!(status_of_reject(&PostReject::Muted), 403);
    assert_eq!(status_of_reject(&PostReject::Storage), 503);
    assert_eq!(status_of_reject(&PostReject::UnknownAttachment), 400);
    assert_eq!(refuse_reaction(ReactionReject::OwnMessage).status, 409);
    assert_eq!(refuse_file(AttachError::QuotaRoom).status, 413);
    assert_eq!(refuse_file(AttachError::Disabled).status, 503);
    assert_eq!(refuse_lead(LeadError::Storage).status, 503);
    assert_eq!(refuse_lead(LeadError::ActiveGoal).status, 409);
    assert_eq!(refuse_invite(InviteError::AlreadyInvited, Counter::Call).status, 200);
    assert_eq!(refuse_invite(InviteError::Full, Counter::Desk).message, "loca is full — release a seat first");
    assert_eq!(refuse_invite(InviteError::Reserved, Counter::Invites).status, 403);
    assert_eq!(refuse_credential(CredentialError::NotFound).status, 404);
    assert_eq!(refuse_credential(CredentialError::RootRecovery).status, 409);
    assert_eq!(refuse_appointment(OperatorAssignmentError::PrincipalNotFound).status, 404);
    assert_eq!(refuse_removal(OperatorAssignmentError::Conflict).status, 409);
    assert_eq!(status_of_seal(Ok(true)), 204);
    assert_eq!(status_of_seal(Ok(false)), 404);
    assert_eq!(status_of_seal(Err(DeleteReject::NotArchived)), 409);
    assert_eq!(status_of_seal(Err(DeleteReject::Storage)), 503);
}

#[test]
fn numbers_asked_for_are_bounded() {
    assert_eq!(bounded_number(None, 50, 1, 100), 50);
    assert_eq!(bounded_number(Some("7"), 50, 1, 100), 7);
    assert_eq!(bounded_number(Some("700"), 50, 1, 100), 100);
    assert_eq!(bounded_number(Some("zero"), 50, 1, 100), 50);
    assert_eq!(wanted_backlog(None, None), None);
    assert!(wanted_backlog(Some("5"), Some("3")).is_some_and(|b| b.0 == 5));
    assert!(check_search(None, None).is_err());
    assert!(check_search(Some("  "), None).is_err());
    assert!(check_search(Some("word"), None).is_ok());
}

#[test]
fn content_is_checked_before_it_is_kept() {
    let hub = open(&Saved::empty(), false);
    let entry = |text: &str| CreateJournalEntry {
        text: text.into(),
        by: Some("ada".into()),
        by_type: None,
    };
    assert_eq!(
        ask(&hub, &[], |c| c.post_journal("proj", &entry("  "))).err().expect("no").message,
        "an entry needs words"
    );
    let filed = ask(&hub, &[], |c| c.post_journal("proj", &entry("words"))).expect("filed");
    assert_eq!(filed.text, "words");
    let note = |key: &str| CreateNote {
        key: key.into(),
        title: String::new(),
        body: String::new(),
        by: "ada".into(),
        by_type: None,
        can_write: Vec::new(),
    };
    assert_eq!(ask(&hub, &[], |c| c.create_note("proj", note(" "))).err().expect("no").message, "empty key");
    assert_eq!(ask(&hub, &[], |c| c.create_note("proj", note("k"))).expect("note").by, "ada");
    let change = || UpdateNote {
        title: None,
        body: None,
        by: "ada".into(),
        by_type: None,
        can_write: None,
    };
    assert!(ask(&closed(), &[], |c| c.update_note("proj", change())).is_err());
    let wave = SetMessageReaction {
        emoji: "👍".into(),
        active: true,
        reactor: " ".into(),
        reactor_type: None,
    };
    assert_eq!(ask(&hub, &[], |c| c.set_reaction(&wave)).err().expect("no").message, "reactor required");
    let png = [0x89u8, b'P', b'N', b'G', 0x0D, 0x0A, 0x1A, 0x0A];
    let as_png = [("content-type", "image/png"), ("x-filename", "a/b.png"), ("x-admin-token", "MASTER")];
    let up = ask(&hub, &as_png, |c| c.upload_attachment(true, &png, 100)).expect("file");
    assert_eq!((up.mime, up.name.as_str()), ("image/png", "a_b.png"));
    assert_eq!(ask(&hub, &as_png, |c| c.upload_attachment(false, &png, 100)).err().expect("no").status, 503);
    assert_eq!(ask(&hub, &as_png, |c| c.upload_attachment(true, &[], 100)).err().expect("no").status, 400);
    assert_eq!(ask(&hub, &as_png, |c| c.upload_attachment(true, &png, 4)).err().expect("no").status, 413);
    assert_eq!(ask(&hub, &as_png, |c| c.upload_attachment(true, b"text", 100)).err().expect("no").status, 415);
    assert_eq!(ask(&hub, &as_png, |c| c.upload_attachment(true, &[0, 1], 100)).err().expect("no").status, 415);
}

#[test]
fn settings_are_for_authority() {
    let hub = closed();
    let none = || SetSettings {
        rate_limit: None,
        rate_window_secs: None,
        live: None,
        archived: None,
        live_timeout_secs: None,
        operators: None,
        turn_max_messages: None,
        turn_idle_ms: None,
        turn_max_wait_ms: None,
        care_wait_secs: None,
        care_cooldown_secs: None,
        care_max_attempts: None,
        care_context_messages: None,
        care_recipient: None,
        care_goal_secs: None,
        care_task_secs: None,
        care_silence_secs: None,
    };
    assert!(ask(&hub, &[("x-admin-token", "MASTER")], |c| c.set_settings("proj", &none())).is_ok());
    assert_eq!(ask(&hub, &[], |c| c.set_settings("proj", &none())).err().expect("no").status, 401);
}

#[test]
fn operators_are_appointed_and_removed_by_masters() {
    let hub = closed();
    let actor = |role: Option<BuildingRole>| RequestAuthority {
        principal_id: Some("pr_1".into()),
        display_name: Some("ada".into()),
        kind: Some(SenderType::User),
        building_role: role,
    };
    let seat = |by: BuildingRole| LocaOperatorAssignment {
        room: "proj".into(),
        principal_id: "pr_op".into(),
        appointed_by_principal_id: "pr_0".into(),
        appointed_by_role: by,
        appointed_at: 1,
    };
    let master = actor(Some(BuildingRole::Master));
    let second = actor(Some(BuildingRole::Smaster));
    assert!(hub.appoint_loca_operator(&master, Ok(seat(BuildingRole::Master))).is_ok());
    assert_eq!(
        hub.appoint_loca_operator(&actor(None), Ok(seat(BuildingRole::Master))).err(),
        Some(OperatorAssignmentError::AuthorityRequired)
    );
    assert_eq!(
        hub.appoint_loca_operator(&master, Err(LocaOperatorError::AppointerNotFound)).err(),
        Some(OperatorAssignmentError::PrincipalNotFound)
    );
    let current = Some(seat(BuildingRole::Master));
    assert!(hub.revoke_loca_operator(&master, &current, Ok(seat(BuildingRole::Master))).is_ok());
    assert_eq!(
        hub.revoke_loca_operator(&second, &current, Ok(seat(BuildingRole::Master))).err(),
        Some(OperatorAssignmentError::MasterProtected)
    );
    assert_eq!(
        hub.revoke_loca_operator(&master, &None, Err(LocaOperatorError::NotFound)).err(),
        Some(OperatorAssignmentError::NotFound)
    );
    assert_eq!(
        hub.revoke_loca_operator(&master, &current, Err(LocaOperatorError::Conflict)).err(),
        Some(OperatorAssignmentError::Conflict)
    );
}

#[test]
fn a_pairing_is_made_for_the_master() {
    let mut hub = closed();
    let dir = Directory::empty();
    let master = headers(&[("x-admin-token", "MASTER")]);
    let info = hub
        .create_pairing_route(&master, &dir, Some("2"), 1_000)
        .expect("pairing");
    assert_eq!((info.session_ttl_hours, info.pairing_expires_at), (2, 301_000));
    assert_eq!(hub.consume_admin_pairing(&info.pairing_code, 1_001), Some(7_200_000));
    let e = hub.create_pairing_route(&headers(&[]), &dir, None, 1_000).err().expect("no");
    assert_eq!((e.status, e.message), (401, "master required"));
    let e = hub.create_pairing_route(&master, &dir, Some("x"), 1_000).err().expect("no");
    assert_eq!(e.status, 400);
}

#[test]
fn a_revoked_credential_takes_its_sessions_along() {
    let mut hub = closed();
    let dir = Directory::empty();
    hub.add_smaster("sm_1".into(), "bea", true).expect("smaster");
    let token = davet(&mut hub, "ada", "proj");
    let invite = hub.invite_by_token(&token).expect("davet");
    let session = hub
        .create_session_scoped(
            CreateSession {
                name: "x".into(),
                kind: None,
                runtime: None,
                capabilities: Vec::new(),
            },
            Some(&invite),
            None,
            &dir,
            1_000,
            true,
        )
        .expect("session")
        .session_token;
    let opened = vec![session.clone()];
    let failed = hub.revoke_profile_credential(Err(CredentialError::Storage), &opened, Some("sm_1"));
    assert!(matches!(failed, Err(CredentialError::Storage)));
    assert!(hub.live_session(Some(&session), &dir, 1_001).is_some());
    assert!(hub.is_admin(Some("sm_1")));
    assert!(hub.revoke_profile_credential(Ok(()), &opened, Some("sm_1")).is_ok());
    assert!(hub.live_session(Some(&session), &dir, 1_001).is_none());
    assert!(!hub.is_admin(Some("sm_1")));
}

#[test]
fn admissions_are_stocked() {
    let hub = closed();
    let stock = hub.mint_admission_stock(3, 500, &Directory::empty(), 1_000);
    assert_eq!(stock.rights.len(), 3);
    assert!(stock.rights.iter().all(|r| r.starts_with("adm_") && r.len() == 52));
    assert_eq!((stock.minted_by.as_str(), stock.expires_at), ("master", 1_500));
}

#[test]
fn a_request_comes_from_where_the_proxy_saw_it() {
    let entry = |a: &str| Some(a.to_string());
    assert_eq!(client_source(&vec![entry("1.1.1.1"), entry("2.2.2.2")], "9.9.9.9"), "2.2.2.2");
    assert_eq!(client_source(&vec![entry("1.1.1.1"), None], "9.9.9.9"), "1.1.1.1");
    assert_eq!(client_source(&vec![None, None], "9.9.9.9"), "9.9.9.9");
    assert_eq!(client_source(&Vec::new(), "9.9.9.9"), "9.9.9.9");
}

#[test]
fn answers_to_those_who_ask() {
    let hub = closed();
    assert!(refuse_join(&JoinRequestCreate::Created {
        request_id: "jr_".into(),
        request_secret: "jrs_".into()
    })
    .is_none());
    assert_eq!(refuse_join(&JoinRequestCreate::NameTaken).expect("no").status, 409);
    assert_eq!(refuse_join(&JoinRequestCreate::BacklogFull).expect("no").status, 429);
    assert!(refuse_ending(Ok(true), 404, "gone", "failed").is_none());
    assert_eq!(refuse_ending(Ok(false), 404, "gone", "failed").expect("no").message, "gone");
    assert_eq!(refuse_ending(Err(NotSaved), 404, "gone", "failed").expect("no").status, 503);
    assert!(ask(&hub, &[("x-join-secret", "s")], |c| c.join_secret().is_ok()));
    assert!(ask(&hub, &[], |c| c.join_secret().is_err()));
    assert!(ask(&hub, &[("x-admin-token", "MASTER")], |c| c.need_admin(401, "no").is_ok()));
    assert_eq!(ask(&hub, &[], |c| c.need_admin(403, "no")).err().expect("no").status, 403);
    assert!(ask(&hub, &[], |c| c.need_master("no")).is_err());
}
