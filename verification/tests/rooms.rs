//! Rooms: their seats, their manners and what is said in them.

use loca::hub::{Hub, HubConfig};
use loca::halls::DeleteReject;
use loca::post::PostReject;
use loca::protocol::{
    Attachment, ChatMode, CreateNote, Message, MessageKind, MessageReaction, ModAction, PostMessage,
    ReminderRecipient, RoomSettings, SenderType, ServerFrame, UpdateNote,
};
use loca::record::{NoteError, ReactionReject};
use loca::room::{HISTORY_LIMIT, LOCA_KAPASITE};
use loca::saved::Saved;
use loca::table::StrSet;
use loca::talk::{Posting, Recall};

fn building() -> Hub {
    Hub::build(
        HubConfig {
            admin_token: "MASTER".into(),
            room_token: String::new(),
            require_sessions: false,
            require_invite: false,
            home_room: "iye".into(),
            reserved_room: "iye".into(),
            caretakers: StrSet::new(),
        },
        &Saved::empty(),
        RoomSettings::default(),
        1,
        1_000,
    )
    .hub
}

fn say(sender: &str, text: &str) -> PostMessage {
    PostMessage {
        kind: MessageKind::Say,
        sender: sender.into(),
        sender_type: SenderType::Agent,
        target: None,
        text: text.into(),
        reply_to: None,
        op_id: None,
        attachments: Vec::new(),
    }
}

fn names(hub: &Hub, room: &str) -> Vec<String> {
    hub.members(room).into_iter().map(|m| m.name).collect()
}

fn post(hub: &mut Hub, sender: &str, text: &str, now: u64) -> Result<Message, PostReject> {
    hub.post("proj", say(sender, text), false, sender, now)
}

#[test]
fn a_room_seats_seven() {
    let mut hub = building();
    for i in 0..LOCA_KAPASITE {
        assert!(hub.join("proj", &format!("key{i}"), &format!("n{i}"), SenderType::Agent, i as u64));
    }
    assert!(!hub.join("proj", "one too many", "n9", SenderType::Agent, 9));
    assert_eq!(hub.members("proj").len(), 7);
    // Who sits there may open another window.
    assert!(hub.join("proj", "key0", "n0", SenderType::Agent, 10));
    assert_eq!(hub.members("proj").len(), 7);
    // Home has as many seats.
    for i in 0..LOCA_KAPASITE + 2 {
        let seated = hub.join("iye", &format!("key{i}"), &format!("n{i}"), SenderType::User, i as u64);
        assert_eq!(seated, i < LOCA_KAPASITE);
    }
}

#[test]
fn one_key_has_one_seat() {
    let mut hub = building();
    assert!(hub.join("proj", "key", "ada", SenderType::User, 1));
    // A laptop and a phone are two readers of one seat.
    assert!(hub.join("proj", "key", "ada", SenderType::User, 2));
    assert_eq!(hub.members("proj").len(), 1);
    hub.leave("proj", "key");
    assert_eq!(hub.members("proj").len(), 1);
    hub.leave("proj", "key");
    assert!(hub.members("proj").is_empty());
    // Under another name, the newcomer takes the seat over.
    assert!(hub.join("proj", "key", "ada", SenderType::User, 3));
    hub.take_frames("proj");
    assert!(hub.join("proj", "key", "ada again", SenderType::User, 4));
    assert!(
        hub.take_frames("proj")
            .iter()
            .any(|f| matches!(f, ServerFrame::Evicted { session: 4, .. }))
    );
    assert_eq!(names(&hub, "proj"), ["ada again"]);
    hub.leave("proj", "key");
    assert!(hub.members("proj").is_empty());
}

#[test]
fn the_roster_is_in_order() {
    let mut hub = building();
    for n in ["carol", "alice", "bob"] {
        hub.join("proj", n, n, SenderType::Agent, 1);
    }
    assert_eq!(names(&hub, "proj"), ["alice", "bob", "carol"]);
}

#[test]
fn moderation_comes_and_goes() {
    let mut hub = building();
    hub.join("proj", "k", "ada", SenderType::User, 1);
    let state = hub.moderate("proj", ModAction::Mute, "ada", true).expect("mute");
    assert_eq!(state.muted, ["ada"]);
    assert!(matches!(post(&mut hub, "ada", "hi", 1_000), Err(PostReject::Muted)));
    let state = hub.moderate("proj", ModAction::Unmute, "ada", true).expect("unmute");
    assert!(state.muted.is_empty());
    assert!(post(&mut hub, "ada", "hi", 1_001).is_ok());

    let state = hub.moderate("proj", ModAction::Ban, "ada", true).expect("ban");
    assert_eq!(state.banned, ["ada"]);
    assert!(hub.is_banned("proj", "ada"));
    assert!(hub.members("proj").is_empty());
    assert!(matches!(post(&mut hub, "ada", "hi", 1_002), Err(PostReject::Banned)));
    hub.moderate("proj", ModAction::Unban, "ada", true).expect("unban");
    assert!(!hub.is_banned("proj", "ada"));

    hub.join("proj", "k", "ada", SenderType::User, 2);
    hub.moderate("proj", ModAction::Kick, "ada", true).expect("kick");
    assert!(hub.members("proj").is_empty());
    assert!(post(&mut hub, "ada", "back", 1_003).is_ok());
    // What was not stored did not happen.
    assert!(hub.moderate("proj", ModAction::Ban, "ada", false).is_err());
    assert!(!hub.is_banned("proj", "ada"));
}

#[test]
fn modes_say_who_speaks() {
    let mut hub = building();
    hub.set_mode("proj", ChatMode::Paused, true).expect("mode");
    assert!(matches!(post(&mut hub, "ada", "hi", 1), Err(PostReject::Paused)));
    assert!(hub.post("proj", say("boss", "hi"), true, "boss", 1).is_ok());
    hub.set_mode("proj", ChatMode::Restricted { allow: vec!["ada".into()] }, true)
        .expect("mode");
    assert!(post(&mut hub, "ada", "hi", 2).is_ok());
    assert!(matches!(post(&mut hub, "bob", "hi", 2), Err(PostReject::NotAllowed)));
    // A mode that was not stored is not taken.
    assert!(hub.set_mode("proj", ChatMode::Free, false).is_err());
    assert!(matches!(hub.mode("proj"), ChatMode::Restricted { .. }));
}

#[test]
fn turns_are_taken_in_order() {
    let mut hub = building();
    let order: Vec<String> = vec!["a".into(), "b".into()];
    hub.set_mode("proj", ChatMode::RoundRobin { order, turn: 0 }, true).expect("mode");
    match post(&mut hub, "b", "me first", 1) {
        Err(PostReject::NotYourTurn { whose }) => assert_eq!(whose.as_deref(), Some("a")),
        other => panic!("out of turn: {other:?}"),
    }
    assert!(post(&mut hub, "a", "one", 2).is_ok());
    assert!(matches!(hub.mode("proj"), ChatMode::RoundRobin { turn: 1, .. }));
    assert!(post(&mut hub, "a", "again", 3).is_err());
    assert!(post(&mut hub, "b", "two", 4).is_ok());
    assert!(matches!(hub.mode("proj"), ChatMode::RoundRobin { turn: 0, .. }));
}

#[test]
fn a_hurried_speaker_waits() {
    let mut hub = building();
    for i in 0..10 {
        assert!(post(&mut hub, "ada", "hi", 1_000 + i).is_ok());
    }
    match post(&mut hub, "ada", "hi", 11_000) {
        Err(PostReject::RateLimited { retry_after_secs }) => assert_eq!(retry_after_secs, 20),
        other => panic!("too fast: {other:?}"),
    }
    // Others have their own count, and authority is not counted.
    assert!(post(&mut hub, "bob", "hi", 11_000).is_ok());
    assert!(hub.post("proj", say("ada", "hi"), true, "ada", 11_000).is_ok());
    assert!(post(&mut hub, "ada", "hi", 31_001).is_ok());
}

#[test]
fn messages_are_numbered_and_kept() {
    let mut hub = building();
    let mut last: u64 = 0;
    for i in 0..HISTORY_LIMIT + 5 {
        let m = hub
            .post("proj", say("ada", &format!("m{i}")), true, "ada", i as u64)
            .expect("posted");
        assert!(m.id > last);
        last = m.id;
    }
    let kept = hub.recent_messages("proj");
    assert_eq!(kept.len(), HISTORY_LIMIT);
    assert_eq!(kept[0].text, "m5");
    assert_eq!(kept[HISTORY_LIMIT - 1].id, last);
    let tail = hub.messages_after("proj", last - 2, 10);
    assert_eq!(tail.len(), 2);
    assert_eq!(tail[1].id, last);
}

#[test]
fn an_operation_is_carried_out_once() {
    let mut hub = building();
    let mut body = say("ada", "hello");
    body.op_id = Some("op-1".into());
    let first = hub.post("proj", body.clone(), false, "ada", 1_000).expect("first");
    let second = hub.post("proj", body.clone(), false, "ada", 2_000).expect("second");
    assert_eq!(first.id, second.id);
    assert_eq!(hub.recent_messages("proj").len(), 1);
    // Another principal's operation of that name is another operation.
    let other = hub.post("proj", body, false, "bob", 3_000).expect("other");
    assert_ne!(first.id, other.id);
}

#[test]
fn an_operation_is_remembered_past_many_others() {
    let mut hub = building();
    let named = |text: &str, id: &str| {
        let mut body = say("ada", text);
        body.op_id = Some(id.into());
        body
    };
    let first = hub.post("proj", named("hello", "op"), true, "ada", 1_000).expect("first");
    for i in 0..HISTORY_LIMIT - 1 {
        hub.post("proj", named("x", &format!("other-{i}")), true, "ada", 1_000).expect("other");
    }
    let history = hub.recent_messages("proj").len();
    hub.take_frames("proj");
    let again = hub.post("proj", named("other words", "op"), true, "ada", 9_000).expect("again");
    assert_eq!((again.id, again.text.as_str()), (first.id, "hello"));
    assert_eq!(hub.recent_messages("proj").len(), history);
    assert!(hub.take_frames("proj").is_empty());
    // One name more, and the room has forgotten.
    hub.post("proj", named("x", "one-more"), true, "ada", 9_001).expect("other");
    let anew = hub.post("proj", named("anew", "op"), true, "ada", 9_002).expect("anew");
    assert_ne!(anew.id, first.id);
}

#[test]
fn what_the_record_knows_is_not_posted_again() {
    let mut hub = building();
    let m = post(&mut hub, "ada", "hello", 1_000).expect("posted");
    let mut body = say("ada", "hello");
    body.op_id = Some("op-2".into());
    match hub.begin_post("proj", &body, false, "ada", 2_000, Recall::Found(m.clone()), Some(Vec::new())) {
        Posting::Repeated(found) => assert_eq!(found.id, m.id),
        _ => panic!("the record answers"),
    }
    match hub.begin_post("proj", &body, false, "ada", 2_000, Recall::Failed, Some(Vec::new())) {
        Posting::Rejected(PostReject::Storage) => {}
        _ => panic!("a record that cannot be read refuses"),
    }
    match hub.begin_post("proj", &body, false, "ada", 2_000, Recall::Nothing, None) {
        Posting::Rejected(PostReject::UnknownAttachment) => {}
        _ => panic!("an unknown file refuses"),
    }
}

#[test]
fn files_go_with_their_message() {
    let mut hub = building();
    let mut body = say("ada", "look");
    body.attachments = vec!["f1".into()];
    let file = Attachment {
        id: "f1".into(),
        sha256: "00".into(),
        name: "a.png".into(),
        mime: "image/png".into(),
        size: 3,
    };
    let Posting::Planned(draft) =
        hub.begin_post("proj", &body, false, "ada", 1_000, Recall::Nothing, Some(vec![file]))
    else {
        panic!("planned");
    };
    let m = hub.finish_post("proj", draft, true, Vec::new(), None).expect("posted");
    assert_eq!(m.attachments.len(), 1);
    assert_eq!(m.attachments[0].name, "a.png");
}

#[test]
fn a_message_that_was_not_stored_was_not_said() {
    let mut hub = building();
    let Posting::Planned(draft) =
        hub.begin_post("proj", &say("ada", "x"), false, "ada", 1_000, Recall::Nothing, Some(Vec::new()))
    else {
        panic!("planned");
    };
    assert!(matches!(
        hub.finish_post("proj", draft, false, Vec::new(), None),
        Err(PostReject::Storage)
    ));
    assert!(hub.recent_messages("proj").is_empty());
}

#[test]
fn an_answer_names_its_author() {
    let mut hub = building();
    let m = post(&mut hub, "ada", "question", 1_000).expect("posted");
    let mut body = say("bob", "answer");
    body.reply_to = Some(m.id);
    let answer = hub.post("proj", body.clone(), false, "bob", 1_001).expect("posted");
    assert_eq!(answer.reply_to_sender.as_deref(), Some("ada"));
    // An answer to nothing that is known, and one to oneself, names nobody.
    body.reply_to = Some(999);
    let lost = hub.post("proj", body.clone(), false, "bob", 1_002).expect("posted");
    assert_eq!(lost.reply_to_sender, None);
    body.reply_to = Some(answer.id);
    let own = hub.post("proj", body, false, "bob", 1_003).expect("posted");
    assert_eq!(own.reply_to_sender, None);
}

fn set(hub: &mut Hub, live: Option<bool>, archived: Option<bool>, idle: Option<u32>, max: Option<u32>) -> RoomSettings {
    hub.set_settings(
        "proj", None, None, live, archived, None, None, None, idle, max, None, None, None, None,
        None, None, None, None, 1_000, true,
    )
    .expect("settings")
}

#[test]
fn settings_stay_within_their_bounds() {
    let mut hub = building();
    let s = hub
        .set_settings(
            "proj",
            Some(3),
            Some(0),
            None,
            None,
            Some(1),
            Some(vec!["ada".into()]),
            Some(1_000),
            Some(60_000),
            Some(100),
            Some(0),
            None,
            Some(100),
            Some(1_000),
            Some(ReminderRecipient::All),
            Some(5),
            None,
            None,
            1_000,
            true,
        )
        .expect("settings");
    assert_eq!(s.rate_limit, 3);
    assert!(s.rate_window_secs >= 1);
    assert!(s.turn_max_wait_ms >= s.turn_idle_ms);
    assert!(matches!(s.care_recipient, ReminderRecipient::All));
    assert_eq!(s.care_goal_secs, 5);
    assert_eq!(s.operators, ["ada"]);
    // Asking for the same again changes nothing.
    let again = set(&mut hub, None, None, None, None);
    assert_eq!(format!("{s:?}"), format!("{again:?}"));
}

#[test]
fn named_operators_are_dropped_once_they_are_settled() {
    let mut hub = building();
    hub.set_settings(
        "proj", None, None, None, None, None, Some(vec!["ada".into()]), None, None, None, None,
        None, None, None, None, None, None, None, 1_000, true,
    )
    .expect("settings");
    hub.subscribe("other");
    assert_eq!(hub.rooms_with_operators(), ["proj"]);
    hub.drop_named_operators("proj", false);
    assert_eq!(hub.rooms_with_operators(), ["proj"]);
    hub.drop_named_operators("proj", true);
    assert!(hub.rooms_with_operators().is_empty());
    assert!(MessageKind::Say.is_default() && !MessageKind::Announce.is_default());
}

#[test]
fn a_live_room_calms_down() {
    let mut hub = building();
    post(&mut hub, "ada", "hi", 1_000).expect("posted");
    assert!(set(&mut hub, Some(true), None, None, None).live);
    assert!(hub.is_live("proj"));
    hub.expire_live(120_999, &Vec::new());
    assert!(hub.is_live("proj"));
    // A change that could not be stored is tried again.
    hub.expire_live(200_000, &vec!["proj".to_string()]);
    assert!(hub.is_live("proj"));
    hub.expire_live(200_000, &Vec::new());
    assert!(!hub.is_live("proj"));
}

#[test]
fn an_archived_room_is_silent_and_can_be_sealed() {
    let mut hub = building();
    post(&mut hub, "ada", "hi", 1_000).expect("posted");
    let mut parting: Vec<ServerFrame> = Vec::new();
    assert_eq!(hub.delete_room("proj", true, &mut parting), Err(DeleteReject::NotArchived));
    set(&mut hub, None, Some(true), None, None);
    assert!(hub.is_archived("proj"));
    assert!(matches!(post(&mut hub, "ada", "hi", 1_001), Err(PostReject::Archived)));
    assert!(matches!(
        hub.post("proj", say("boss", "hi"), true, "boss", 1_001),
        Err(PostReject::Archived)
    ));
    assert_eq!(hub.delete_room("proj", false, &mut parting), Err(DeleteReject::Storage));
    assert!(hub.is_archived("proj"));
    assert_eq!(hub.delete_room("proj", true, &mut parting), Ok(true));
    assert!(hub.is_deleted("proj"));
    assert!(!hub.is_writable("proj"));
    assert!(matches!(post(&mut hub, "ada", "hi", 1_002), Err(PostReject::Deleted)));
    assert!(hub.subscribe("proj").is_none());
    assert!(!hub.join("proj", "k", "ada", SenderType::User, 3));
    // Opened again, it starts empty.
    hub.revive("proj");
    assert!(hub.is_writable("proj"));
    assert!(hub.recent_messages("proj").is_empty());
}

#[test]
fn notes_are_kept_with_their_writers() {
    let mut hub = building();
    let fresh = || CreateNote {
        key: "plan".into(),
        title: "Plan".into(),
        body: "first".into(),
        by: "ada".into(),
        by_type: None,
        can_write: vec!["ada".into()],
    };
    let note = hub.create_note("proj", fresh(), 1_000, true).expect("note");
    assert_eq!(note.updated_by, "ada");
    assert!(matches!(hub.create_note("proj", fresh(), 1_000, true), Err(NoteError::Exists)));
    let mut other = fresh();
    other.key = "other".into();
    assert!(matches!(hub.create_note("proj", other, 1_000, false), Err(NoteError::Storage)));
    let change = |body: &str, by: &str, writers: Option<Vec<String>>| UpdateNote {
        title: None,
        body: Some(body.into()),
        by: by.into(),
        by_type: None,
        can_write: writers,
    };
    let changed = hub
        .update_note("proj", "plan", change("second", "ada", Some(vec!["bob".into()])), false, 2_000, true)
        .expect("changed");
    assert!(changed.rev > note.rev);
    assert_eq!(changed.body, "second");
    // Writers are for operators to name.
    assert_eq!(changed.can_write, ["ada"]);
    let changed = hub
        .update_note("proj", "plan", change("third", "boss", Some(vec!["bob".into()])), true, 3_000, true)
        .expect("changed");
    assert_eq!(changed.can_write, ["bob"]);
    assert!(matches!(
        hub.update_note("proj", "none", change("x", "ada", None), false, 4_000, true),
        Err(NoteError::NotFound)
    ));
    assert!(matches!(
        hub.update_note("proj", "plan", change("x", "ada", None), true, 4_000, false),
        Err(NoteError::Storage)
    ));
    assert_eq!(hub.note("proj", "plan").expect("note").body, "third");
    assert_eq!(hub.search("proj", "THIRD", Vec::new()).1.len(), 1);
    assert_eq!(hub.search("proj", "first", Vec::new()).1.len(), 0);
    assert_eq!(hub.delete_note("proj", "plan", true), Ok(true));
    assert_eq!(hub.delete_note("proj", "plan", true), Ok(false));
    assert!(hub.notes("proj").is_empty());
}

#[test]
fn a_journal_is_written_in_order() {
    let mut hub = building();
    let a = hub
        .append_journal("proj", "ada".into(), SenderType::Agent, "one".into(), 1_000, true)
        .expect("entry");
    let b = hub
        .append_journal("proj", "ada".into(), SenderType::Agent, "two".into(), 1_001, true)
        .expect("entry");
    assert!(b.id > a.id);
    assert!(
        hub.append_journal("proj", "ada".into(), SenderType::Agent, "lost".into(), 1_002, false)
            .is_err()
    );
    assert_eq!(hub.journal("proj").len(), 2);
}

#[test]
fn reactions_are_for_others() {
    let mut hub = building();
    let m = post(&mut hub, "ada", "done", 1_000).expect("posted");
    let tally = || {
        Some(vec![MessageReaction {
            message_id: 1,
            emoji: "✓".into(),
            actors: vec!["bob".into()],
        }])
    };
    let event = hub
        .set_reaction("proj", m.id, "bob", "✓", true, Ok(None), tally(), 2_000)
        .expect("reaction");
    assert_eq!(event.owner, "ada");
    assert_eq!(event.actors, ["bob"]);
    assert!(matches!(
        hub.set_reaction("proj", m.id, "ada", "✓", true, Ok(None), tally(), 2_000),
        Err(ReactionReject::OwnMessage)
    ));
    assert!(matches!(
        hub.set_reaction("proj", 999, "bob", "✓", true, Ok(None), tally(), 2_000),
        Err(ReactionReject::NotFound)
    ));
    assert!(matches!(
        hub.set_reaction("proj", m.id, "bob", "👍", true, Ok(None), tally(), 2_000),
        Err(ReactionReject::InvalidEmoji)
    ));
    assert!(matches!(
        hub.set_reaction("proj", m.id, "bob", "✓", true, Ok(None), None, 2_000),
        Err(ReactionReject::Storage)
    ));
    set(&mut hub, None, Some(true), None, None);
    assert!(matches!(
        hub.set_reaction("proj", m.id, "bob", "✓", true, Ok(None), tally(), 2_000),
        Err(ReactionReject::ReadOnly)
    ));
}

#[test]
fn a_mention_summons_its_caretaker_whatever_its_case() {
    let mut caretakers = StrSet::new();
    caretakers.insert("zoë-bot");
    let m = |text: &str| Message {
        id: 1,
        room: "proj".into(),
        sender: "ada".into(),
        sender_type: SenderType::Agent,
        target: None,
        text: text.into(),
        kind: MessageKind::Say,
        reply_to: None,
        reply_to_sender: None,
        ts: 1,
        attachments: Vec::new(),
    };
    summons(&caretakers, &m("@ZOË-BOT, please"), &["zoë-bot"]);
    summons(&caretakers, &m("see (@zoë-bot)"), &["zoë-bot"]);
    summons(&caretakers, &m("@zoë-bots are many"), &[]);
}

fn summons(set: &StrSet, m: &Message, expected: &[&str]) {
    assert_eq!(loca::post::caretakers_addressed(set, m), expected, "{}", m.text);
}

#[test]
fn rooms_are_summed_up() {
    let mut hub = building();
    hub.join("proj", "a", "ada", SenderType::User, 1);
    hub.join("proj", "b", "bot", SenderType::Agent, 2);
    let m = post(&mut hub, "ada", "hello there", 1_000).expect("posted");
    let s = hub.room_summary("proj").expect("summary");
    assert_eq!((s.members, s.humans, s.agents), (2, 1, 1));
    assert_eq!(s.last_id, m.id);
    assert!(s.last.expect("last").contains("hello there"));
    assert!(!s.special && !s.archived);
    assert!(hub.room_summary("nowhere").is_none());
}
