//! Connections: what they hear, and when.

use loca::authority::Directory;
use loca::feed::{Action, Feed, LobbyAction, Utterance, handle_client_frame, lobby_hear, msg_addresses};
use loca::gate::{Header, Headers};
use loca::hub::{Hub, HubConfig, LobbyEvent};
use loca::protocol::{
    AttentionAudience, CareReason, CareSignal, ClientFrame, Message, MessageKind, ReminderState,
    RoomSettings, SenderType, ServerFrame,
};
use loca::saved::Saved;
use loca::stream::{Connection, WsFilter, WsQuery, websocket_credential};
use loca::table::StrSet;

fn building() -> Hub {
    let mut caretakers = StrSet::new();
    caretakers.insert("loca-care");
    Hub::build(
        HubConfig {
            admin_token: "MASTER".into(),
            room_token: String::new(),
            require_sessions: false,
            require_invite: false,
            home_room: "iye".into(),
            reserved_room: "iye".into(),
            caretakers,
        },
        &Saved::empty(),
        RoomSettings::default(),
        1,
        1_000,
    )
    .hub
}

fn query(room: &str, name: &str) -> WsQuery {
    WsQuery {
        room: Some(room.into()),
        name: Some(name.into()),
        kind: Some("agent".into()),
        filter: None,
        turn_max: None,
        turn_idle_ms: None,
        turn_wait_ms: None,
        turn_max_wait_ms: None,
        watch: None,
        admin: None,
        token: None,
        session: None,
    }
}

fn connect(hub: &mut Hub, q: &WsQuery, legacy: bool) -> Result<Connection, u16> {
    let headers = Headers { entries: Vec::new() };
    hub.ws_handler(&headers, &Directory::empty(), q, legacy, 1_000)
        .map_err(|e| e.status)
}

fn feed(hub: &mut Hub, q: &WsQuery) -> Feed {
    let conn = connect(hub, q, false).expect("connection");
    match hub.open_feed(conn, Vec::new(), &Directory::empty()) {
        Ok(g) => g.feed,
        Err(_) => panic!("no seat"),
    }
}

fn message(sender: &str, text: &str) -> Message {
    Message {
        id: 1,
        room: "proj".into(),
        sender: sender.into(),
        sender_type: SenderType::Agent,
        target: None,
        text: text.into(),
        kind: MessageKind::Say,
        reply_to: None,
        reply_to_sender: None,
        ts: 1_000,
        attachments: Vec::new(),
    }
}

fn call(id: &str, owner: &str, from: &str) -> ServerFrame {
    ServerFrame::Care {
        signal: CareSignal {
            id: id.into(),
            attention_id: "attention:x".into(),
            room: "proj".into(),
            source_room: from.into(),
            reason: CareReason::Manual,
            audience: AttentionAudience::Lead,
            owner: Some(owner.into()),
            owner_principal_id: None,
            group: None,
            target: None,
            participants: Vec::new(),
            subject: "look".into(),
            created_by: "op".into(),
            context: Vec::new(),
            attempt: 1,
            at: 1_000,
            escalated: false,
            state: ReminderState::Running,
        },
    }
}

fn hear(feed: &mut Feed, hub: &mut Hub, frame: ServerFrame, now: u64) -> Action {
    feed.hear(frame, hub, &Directory::empty(), now)
}

#[test]
fn a_message_concerns_whom_it_names() {
    let m = message("ada", "hello @bob and others");
    assert!(msg_addresses(&m, "bob", false));
    assert!(!msg_addresses(&m, "cy", false));
    let mut to = message("ada", "hello");
    to.target = Some("cy".into());
    assert!(msg_addresses(&to, "cy", false));
    let mut answer = message("ada", "yes");
    answer.reply_to_sender = Some("bob".into());
    assert!(msg_addresses(&answer, "bob", false));
    let mut all = message("ada", "listen @all");
    assert!(msg_addresses(&all, "bob", true));
    assert!(!msg_addresses(&all, "bob", false));
    all.kind = MessageKind::Announce;
    assert!(!msg_addresses(&all, "bob", true));
}

#[test]
fn everything_is_heard_without_a_filter() {
    let mut hub = building();
    let mut f = feed(&mut hub, &query("proj", "bob"));
    assert!(matches!(
        hear(&mut f, &mut hub, ServerFrame::Msg { message: message("ada", "hi") }, 1_000),
        Action::Send { frame: ServerFrame::Msg { .. } }
    ));
    assert!(f.deadline().is_none());
    hub.close_feed(&f);
    assert!(hub.members("proj").is_empty());
}

#[test]
fn mentions_are_gathered_into_turns() {
    let mut hub = building();
    let mut q = query("proj", "bob");
    q.filter = Some("mentions".into());
    q.turn_max = Some("2".into());
    q.turn_idle_ms = Some("500".into());
    q.turn_max_wait_ms = Some("900".into());
    let mut f = feed(&mut hub, &q);
    let named = || ServerFrame::Msg {
        message: message("ada", "@bob look"),
    };
    assert!(matches!(
        hear(&mut f, &mut hub, ServerFrame::Msg { message: message("ada", "nobody") }, 1_000),
        Action::Skip
    ));
    assert!(matches!(hear(&mut f, &mut hub, named(), 1_000), Action::Skip));
    assert_eq!(f.deadline(), Some(1_500));
    // Talk puts the turn off, but not for ever.
    match hear(&mut f, &mut hub, named(), 1_400) {
        Action::Send { frame: ServerFrame::Turn { messages } } => assert_eq!(messages.len(), 2),
        _ => panic!("a full turn goes out"),
    }
    assert_eq!(f.deadline(), None);
    assert!(matches!(hear(&mut f, &mut hub, named(), 2_000), Action::Skip));
    assert!(matches!(
        hear(&mut f, &mut hub, ServerFrame::Control { cmd: "stop".into() }, 2_001),
        Action::Send { .. }
    ));
    assert_eq!(f.deadline(), None);
    assert!(matches!(f.end_turn(), Action::Skip));
    assert!(matches!(hear(&mut f, &mut hub, named(), 3_000), Action::Skip));
    assert!(matches!(f.end_turn(), Action::Send { .. }));
}

#[test]
fn a_turn_is_not_put_off_for_ever() {
    let mut hub = building();
    let mut q = query("proj", "bob");
    q.filter = Some("mentions".into());
    q.turn_max = Some("16".into());
    q.turn_idle_ms = Some("500".into());
    q.turn_max_wait_ms = Some("900".into());
    let mut f = feed(&mut hub, &q);
    for now in [1_000u64, 1_300, 1_600] {
        let m = message("ada", "@bob and another thing");
        assert!(matches!(hear(&mut f, &mut hub, ServerFrame::Msg { message: m }, now), Action::Skip));
    }
    // The quiet time would end later than the longest wait.
    assert_eq!(f.deadline(), Some(1_900));
    // One's own words change nothing.
    let own = message("bob", "@bob talks");
    assert!(matches!(hear(&mut f, &mut hub, ServerFrame::Msg { message: own }, 1_700), Action::Skip));
    assert_eq!(f.deadline(), Some(1_900));
    match f.end_turn() {
        Action::Send { frame: ServerFrame::Turn { messages } } => assert_eq!(messages.len(), 3),
        _ => panic!("what waited goes out"),
    }
}

#[test]
fn an_announcement_does_not_wait() {
    let mut hub = building();
    let mut q = query("proj", "bob");
    q.filter = Some("mentions".into());
    let mut f = feed(&mut hub, &q);
    let mut m = message("ada", "@bob now");
    m.kind = MessageKind::Announce;
    assert!(matches!(
        hear(&mut f, &mut hub, ServerFrame::Msg { message: m }, 1_000),
        Action::Send { .. }
    ));
}

#[test]
fn the_lead_hears_every_message() {
    let mut hub = building();
    hub.set_lead("proj", Some("bob".into()), "op", 1_000, true).expect("lead");
    let mut q = query("proj", "bob");
    q.filter = Some("mentions".into());
    let mut f = feed(&mut hub, &q);
    assert!(matches!(
        hear(&mut f, &mut hub, ServerFrame::Msg { message: message("ada", "nobody named") }, 1_000),
        Action::Skip
    ));
    // It waits for its turn, which it would not do if it were not heard.
    assert!(f.deadline().is_some());
}

#[test]
fn a_call_stays_where_it_belongs() {
    let mut hub = building();
    let mut f = feed(&mut hub, &query("proj", "bob"));
    assert!(matches!(hear(&mut f, &mut hub, call("d1", "bob", ""), 1_000), Action::Send { .. }));
    assert!(matches!(hear(&mut f, &mut hub, call("d2", "ada", "elsewhere"), 1_000), Action::Skip));
    assert!(matches!(hear(&mut f, &mut hub, call("d3", "bob", "elsewhere"), 1_000), Action::Send { .. }));
}

#[test]
fn what_was_replayed_does_not_come_again() {
    let mut hub = building();
    let conn = connect(&mut hub, &query("proj", "bob"), false).expect("connection");
    let ServerFrame::Care { signal } = call("d1", "bob", "") else {
        panic!("a call");
    };
    let greeting = match hub.open_feed(conn, vec![signal], &Directory::empty()) {
        Ok(g) => g,
        Err(_) => panic!("no seat"),
    };
    assert!(!greeting.closed);
    assert!(matches!(greeting.frames[0], ServerFrame::Care { .. }));
    let mut f = greeting.feed;
    assert!(matches!(hear(&mut f, &mut hub, call("d1", "bob", ""), 1_000), Action::Skip));
    assert!(matches!(hear(&mut f, &mut hub, call("d2", "bob", ""), 1_000), Action::Send { .. }));
}

#[test]
fn whoever_is_put_out_is_told_and_gone() {
    let mut hub = building();
    let mut f = feed(&mut hub, &query("proj", "bob"));
    let kicked = |name: &str| ServerFrame::Kicked {
        name: name.into(),
        banned: false,
    };
    assert!(matches!(hear(&mut f, &mut hub, kicked("ada"), 1_000), Action::Skip));
    assert!(matches!(hear(&mut f, &mut hub, kicked("bob"), 1_000), Action::Close { frame: Some(_) }));
    let evicted = |identity: &str, session: u64| ServerFrame::Evicted {
        name: "bob".into(),
        identity: identity.into(),
        session,
    };
    let (identity, own) = (f.conn.identity.clone(), f.session_id);
    assert!(matches!(hear(&mut f, &mut hub, evicted(&identity, own), 1_000), Action::Skip));
    assert!(matches!(
        hear(&mut f, &mut hub, evicted(&identity, own + 1), 1_000),
        Action::Close { frame: Some(_) }
    ));
    assert!(f.evicted);
}

#[test]
fn a_ban_silences_a_connection() {
    let mut hub = building();
    let mut f = feed(&mut hub, &query("proj", "bob"));
    hub.moderate("proj", loca::protocol::ModAction::Ban, "bob", true).expect("ban");
    assert!(matches!(
        hear(&mut f, &mut hub, ServerFrame::Msg { message: message("ada", "secret") }, 1_000),
        Action::Close { frame: None }
    ));
}

#[test]
fn a_full_room_turns_away() {
    let mut hub = building();
    for i in 0..7 {
        feed(&mut hub, &query("proj", &format!("n{i}")));
    }
    let conn = connect(&mut hub, &query("proj", "late"), false).expect("connection");
    match hub.open_feed(conn, Vec::new(), &Directory::empty()) {
        Err(ServerFrame::Control { cmd }) => assert!(cmd.starts_with("loca full (7 seats)")),
        _ => panic!("no seat is left"),
    }
    let mut q = query("proj", "late");
    q.watch = Some("1".into());
    let conn = connect(&mut hub, &q, false).expect("connection");
    assert!(conn.watch_only);
    assert!(hub.open_feed(conn, Vec::new(), &Directory::empty()).is_ok());
    assert_eq!(hub.members("proj").len(), 7);
}

#[test]
fn connections_say_what_they_may() {
    let mut hub = building();
    let conn = connect(&mut hub, &query("proj", "bob"), false).expect("connection");
    let send = |text: &str, op: Option<String>| ClientFrame::Send {
        target: None,
        text: text.into(),
        reply_to: None,
        op_id: op,
    };
    match handle_client_frame(&conn, send("hi", None), false, false, false) {
        Utterance::Post { body } => {
            assert_eq!(body.sender, "bob");
            assert_eq!(body.sender_type, SenderType::Agent);
        }
        _ => panic!("a message"),
    }
    assert!(matches!(handle_client_frame(&conn, send("  ", None), false, false, false), Utterance::Dropped));
    assert!(matches!(handle_client_frame(&conn, send("hi", None), true, false, false), Utterance::Dropped));
    assert!(matches!(
        handle_client_frame(&conn, send("hi", Some("x".repeat(129))), false, false, false),
        Utterance::Dropped
    ));
    let stop = || ClientFrame::Control { cmd: "stop".into() };
    assert!(matches!(handle_client_frame(&conn, stop(), false, false, false), Utterance::Dropped));
    assert!(matches!(handle_client_frame(&conn, stop(), false, true, false), Utterance::Control { .. }));
    assert!(matches!(
        handle_client_frame(&conn, ClientFrame::Typing { on: true }, false, false, false),
        Utterance::Typing { on: true }
    ));
    let mut q = query("proj", "bob");
    q.watch = Some("true".into());
    let watcher = connect(&mut hub, &q, false).expect("connection");
    assert!(matches!(handle_client_frame(&watcher, send("hi", None), false, true, true), Utterance::Dropped));
}

#[test]
fn turns_asked_for_stay_in_range() {
    let mut hub = building();
    let mut q = query("proj", "bob");
    q.filter = Some("msg".into());
    q.turn_max = Some("99".into());
    q.turn_idle_ms = Some("1".into());
    q.turn_max_wait_ms = Some("1".into());
    let conn = connect(&mut hub, &q, false).expect("connection");
    assert_eq!(conn.filter, WsFilter::Messages);
    assert_eq!((conn.turn_max, conn.turn_idle_ms, conn.turn_max_wait_ms), (16, 100, 100));
    let usual = connect(&mut hub, &query("proj", "bob"), false).expect("connection");
    assert_eq!((usual.turn_max, usual.turn_idle_ms, usual.turn_max_wait_ms), (4, 5_000, 15_000));
}

#[test]
fn keys_do_not_belong_in_addresses() {
    let mut hub = building();
    let mut q = query("proj", "bob");
    q.admin = Some("MASTER".into());
    assert_eq!(connect(&mut hub, &q, false).err(), Some(400));
    assert!(connect(&mut hub, &q, true).is_ok());
    q.admin = None;
    q.session = Some("st_unknown".into());
    assert_eq!(connect(&mut hub, &q, true).err(), Some(401));
    let offered = Headers {
        entries: vec![Header {
            name: "sec-websocket-protocol".into(),
            value: Some("loca.v1, loca.admin.KEY".into()),
        }],
    };
    assert_eq!(websocket_credential(&offered, "loca.admin.").as_deref(), Some("KEY"));
    assert_eq!(websocket_credential(&offered, "loca.room."), None);
}

#[test]
fn a_caretaker_only_watches_elsewhere() {
    let mut hub = building();
    assert!(connect(&mut hub, &query("proj", "loca-care"), false).expect("connection").watch_only);
    assert!(!connect(&mut hub, &query("iye", "loca-care"), false).expect("connection").watch_only);
}

#[test]
fn the_lobby_calls_its_member() {
    let called = LobbyEvent::Called {
        member: "mb_1".into(),
        room: "proj".into(),
        token: "dv_1".into(),
    };
    assert!(matches!(lobby_hear("mb_1", &called), LobbyAction::Called { room, .. } if room == "proj"));
    assert!(matches!(lobby_hear("mb_2", &called), LobbyAction::Ignore));
    let gone = LobbyEvent::MembershipRevoked { member: "mb_1".into() };
    assert!(matches!(lobby_hear("mb_1", &gone), LobbyAction::Revoked));
    assert!(matches!(lobby_hear("mb_2", &gone), LobbyAction::Ignore));
}
