//! What becomes of a room's notes, journal, lead, settings, mode and seats.
use crate::laws_deeds::named_or_old;
use crate::protocol::{
    ChatModeView, CreateNoteView, MemberView, MessageKind, MessageReactionView, MessageView,
    ModAction, ModStateView, RoomSettingsView, SenderType, ServerFrameView, SetSettingsView,
    UpdateNoteView,
};
use crate::record::{
    journal_written, lead_notice, lead_set, new_entry, new_note, note_created, note_deleted,
    note_updated, reaction_actors, sender_of,
};
use crate::room::{
    LOCA_KAPASITE, RoomView, SeatView, changed_settings, configured, joined, left, live_ended,
    mode_set, moderated, placed, roster, roster_of,
};
use crate::table::{lemma_sorted, sorted_keys, sorted_set, sorted_values};
use crate::text::{before, numeral};
use vstd::prelude::*;

verus! {

// ---- notes ----

/// A note that is written is as it was asked for; it has the room's next revision, is
/// kept under its key and told to the room.
pub proof fn new_note_is_as_asked(r: RoomView, req: CreateNoteView, now: u64, rev: u64)
    requires
        rev < u64::MAX,
    ensures
        ({
            let n = new_note(req, now, rev);
            &&& n.key == req.key
            &&& n.title == req.title
            &&& n.body == req.body
            &&& n.can_write == req.can_write
            &&& n.updated_by == req.by
            &&& n.updated_at == now
            &&& n.rev == rev
            &&& note_created(r, n) == (RoomView {
                notes: r.notes.insert(req.key, n),
                next_rev: (rev + 1) as u64,
                tx: r.tx.push(ServerFrameView::Note { note: n }),
                ..r
            })
        }),
{
}

/// A note that is changed has the title and the body that were named, and keeps those
/// that were not; an operator may name who writes it. It has the room's next revision and
/// bears the name of the one who changed it. Nobody is kept from changing it, but the
/// room is warned of one who was not named.
pub proof fn changed_note_is_as_asked(
    r: RoomView,
    key: Seq<char>,
    req: UpdateNoteView,
    is_operator: bool,
    now: u64,
)
    requires
        r.next_rev < u64::MAX,
    ensures
        ({
            let out = note_updated(r, key, req, is_operator, now);
            let old = r.notes[key];
            let n = out.notes[key];
            let named = old.can_write.len() == 0 || old.can_write.contains(req.by);
            &&& out.notes == r.notes.insert(key, n)
            &&& n.key == old.key
            &&& n.title == if req.title is Some {
                req.title->0
            } else {
                old.title
            }
            &&& n.body == if req.body is Some {
                req.body->0
            } else {
                old.body
            }
            &&& n.can_write == if is_operator && req.can_write is Some {
                req.can_write->0
            } else {
                old.can_write
            }
            &&& n.updated_by == req.by
            &&& n.updated_at == now
            &&& n.rev == r.next_rev
            &&& out.next_rev == r.next_rev + 1
            &&& named ==> out.tx == r.tx.push(ServerFrameView::Note { note: n })
            &&& !named ==> out.tx == r.tx.push(ServerFrameView::Note { note: n }).push(
                ServerFrameView::NoteWarn { key, by: req.by, can_write: old.can_write },
            )
            &&& out == (RoomView { notes: out.notes, next_rev: out.next_rev, tx: out.tx, ..r })
        }),
{
}

/// A note that is deleted is gone, and the room is told; all others stay.
pub proof fn deleted_note_is_gone(r: RoomView, key: Seq<char>)
    ensures
        ({
            let out = note_deleted(r, key);
            &&& !out.notes.dom().contains(key)
            &&& forall|k: Seq<char>|
                k != key && r.notes.dom().contains(k) ==> out.notes.dom().contains(k) && (
                #[trigger] out.notes[k]) == r.notes[k]
            &&& out == (RoomView { notes: out.notes, tx: out.tx, ..r })
            &&& out.tx == r.tx.push(ServerFrameView::Control { cmd: "note-deleted:"@ + key })
        }),
{
}

// ---- journal and lead ----

/// What is written into the journal stands at its end, as it was written.
pub proof fn entry_is_as_written(
    r: RoomView,
    id: u64,
    room: Seq<char>,
    by: Seq<char>,
    by_type: SenderType,
    text: Seq<char>,
    now: u64,
)
    requires
        id < u64::MAX,
    ensures
        ({
            let e = new_entry(id, room, by, by_type, text, now);
            &&& e.id == id
            &&& e.room == room
            &&& e.by == by
            &&& e.by_type == by_type
            &&& e.text == text
            &&& e.at == now
            &&& journal_written(r, e) == (RoomView {
                journal: r.journal.push(e),
                next_journal_id: (id + 1) as u64,
                tx: r.tx.push(ServerFrameView::Journal { entry: e }),
                ..r
            })
        }),
{
}

/// A lead who is named leads, and a lead who is cleared does not; the room is told of it
/// in words, and to whom it concerns. Nothing else about the settings changes.
pub proof fn lead_is_as_named(
    r: RoomView,
    room: Seq<char>,
    lead: Option<Seq<char>>,
    by: Seq<char>,
    id: u64,
    now: u64,
)
    ensures
        ({
            let m = lead_notice(room, lead, by, id, now);
            let out = lead_set(r, lead, m);
            &&& out.settings.lead == lead
            &&& out.settings == (RoomSettingsView { lead, ..r.settings })
            &&& out.history == r.history.push(m)
            &&& out.tx == r.tx.push(ServerFrameView::Settings { settings: out.settings }).push(
                ServerFrameView::Msg { message: m },
            )
            &&& out == (RoomView {
                settings: out.settings,
                history: out.history,
                tx: out.tx,
                ..r
            })
            &&& m.id == id
            &&& m.room == room
            &&& m.sender == "loca"@
            &&& m.sender_type == SenderType::User
            &&& m.kind == MessageKind::Announce
            &&& m.ts == now
            &&& m.reply_to is None
            &&& m.reply_to_sender is None
            &&& m.attachments.len() == 0
            &&& lead is Some ==> m.target == lead && m.text == by + " set @lead "@ + lead->0 + "."@
            &&& lead is None ==> m.target == Some("all"@) && m.text == by + " set @lead none."@
        }),
{
}

// ---- reactions ----

/// The author of a message is found among the messages at hand: of the first that bears
/// its number; of none where none does.
pub proof fn author_is_found(history: Seq<MessageView>, id: u64, i: int)
    ensures
        (forall|k: int| 0 <= k < history.len() ==> (#[trigger] history[k]).id != id) ==> sender_of(
            history,
            id,
        ) is None,
        (0 <= i < history.len() && history[i].id == id && forall|k: int|
            0 <= k < i ==> (#[trigger] history[k]).id != id) ==> sender_of(history, id) == Some(
            history[i].sender,
        ),
    decreases history.len(),
{
    if history.len() > 0 {
        let rest = history.skip(1);
        author_is_found(rest, id, i - 1);
        if forall|k: int| 0 <= k < history.len() ==> (#[trigger] history[k]).id != id {
            assert(history[0].id != id);
            assert forall|k: int| 0 <= k < rest.len() implies (#[trigger] rest[k]).id != id by {
                assert(rest[k] == history[k + 1]);
            }
        }
        if 0 < i < history.len() && history[i].id == id && forall|k: int|
            0 <= k < i ==> (#[trigger] history[k]).id != id {
            assert(history[0].id != id);
            assert(rest[i - 1] == history[i]);
            assert forall|k: int| 0 <= k < i - 1 implies (#[trigger] rest[k]).id != id by {
                assert(rest[k] == history[k + 1]);
            }
        }
    }
}

/// Who reacted is what the record says of the message and the emoji; where it says
/// nothing, the one who just did.
pub proof fn reactors_are_named(
    stored: Seq<MessageReactionView>,
    message_id: u64,
    emoji: Seq<char>,
    reactor: Seq<char>,
    active: bool,
    i: int,
)
    ensures
        (forall|k: int|
            0 <= k < stored.len() ==> !((#[trigger] stored[k]).message_id == message_id
                && stored[k].emoji == emoji)) ==> reaction_actors(
            stored,
            message_id,
            emoji,
            reactor,
            active,
        ) == (if active {
            seq![reactor]
        } else {
            Seq::empty()
        }),
        (0 <= i < stored.len() && stored[i].message_id == message_id && stored[i].emoji == emoji
            && forall|k: int|
            0 <= k < i ==> !((#[trigger] stored[k]).message_id == message_id && stored[k].emoji
                == emoji)) ==> reaction_actors(stored, message_id, emoji, reactor, active)
            == stored[i].actors,
    decreases stored.len(),
{
    if stored.len() > 0 {
        let rest = stored.skip(1);
        reactors_are_named(rest, message_id, emoji, reactor, active, i - 1);
        if forall|k: int|
            0 <= k < stored.len() ==> !((#[trigger] stored[k]).message_id == message_id
                && stored[k].emoji == emoji) {
            assert(!(stored[0].message_id == message_id && stored[0].emoji == emoji));
            assert forall|k: int| 0 <= k < rest.len() implies !((#[trigger] rest[k]).message_id
                == message_id && rest[k].emoji == emoji) by {
                assert(rest[k] == stored[k + 1]);
            }
        }
        if 0 < i < stored.len() && stored[i].message_id == message_id && stored[i].emoji == emoji
            && forall|k: int|
            0 <= k < i ==> !((#[trigger] stored[k]).message_id == message_id && stored[k].emoji
                == emoji) {
            assert(!(stored[0].message_id == message_id && stored[0].emoji == emoji));
            assert(rest[i - 1] == stored[i]);
            assert forall|k: int| 0 <= k < i - 1 implies !((#[trigger] rest[k]).message_id
                == message_id && rest[k].emoji == emoji) by {
                assert(rest[k] == stored[k + 1]);
            }
        }
    }
}

// ---- settings and mode ----

/// Settings are as they were asked for: each that is named has the value that was named
/// where that lies within its bounds, and each that is not keeps its own. The longest
/// wait is raised to the idle time where it would be shorter.
pub proof fn settings_are_as_asked(s: RoomSettingsView, c: SetSettingsView)
    ensures
        ({
            let n = changed_settings(s, c);
            &&& n.rate_limit == named_or_old(c.rate_limit, s.rate_limit)
            &&& (c.rate_window_secs is None || c.rate_window_secs->0 > 0) ==> n.rate_window_secs
                == named_or_old(c.rate_window_secs, s.rate_window_secs)
            &&& c.rate_window_secs == Some(0u32) ==> n.rate_window_secs == 1
            &&& n.live == named_or_old(c.live, s.live)
            &&& n.archived == named_or_old(c.archived, s.archived)
            &&& n.live_timeout_secs == named_or_old(c.live_timeout_secs, s.live_timeout_secs)
            &&& n.operators == named_or_old(c.operators, s.operators)
            &&& (c.turn_max_messages is None || 1 <= c.turn_max_messages->0 <= 16)
                ==> n.turn_max_messages == named_or_old(c.turn_max_messages, s.turn_max_messages)
            &&& c.turn_max_messages == Some(0u32) ==> n.turn_max_messages == 1
            &&& c.turn_max_messages is Some && c.turn_max_messages->0 > 16 ==> n.turn_max_messages
                == 16
            &&& (c.turn_idle_ms is None || 100 <= c.turn_idle_ms->0 <= 30000) ==> n.turn_idle_ms
                == named_or_old(c.turn_idle_ms, s.turn_idle_ms)
            &&& c.turn_idle_ms is Some && c.turn_idle_ms->0 < 100 ==> n.turn_idle_ms == 100
            &&& c.turn_idle_ms is Some && c.turn_idle_ms->0 > 30000 ==> n.turn_idle_ms == 30000
            &&& (c.turn_max_wait_ms is None || 100 <= c.turn_max_wait_ms->0 <= 60000) ==> {
                let wait = named_or_old(c.turn_max_wait_ms, s.turn_max_wait_ms);
                n.turn_max_wait_ms == if wait < n.turn_idle_ms {
                    n.turn_idle_ms
                } else {
                    wait
                }
            }
            &&& c.turn_max_wait_ms is Some && c.turn_max_wait_ms->0 > 60000
                && n.turn_idle_ms <= 60000 ==> n.turn_max_wait_ms == 60000
            &&& n.care_wait_secs == named_or_old(c.care_wait_secs, s.care_wait_secs)
            &&& n.care_cooldown_secs == named_or_old(c.care_cooldown_secs, s.care_cooldown_secs)
            &&& (c.care_max_attempts is None || 1 <= c.care_max_attempts->0 <= 10)
                ==> n.care_max_attempts == named_or_old(c.care_max_attempts, s.care_max_attempts)
            &&& c.care_max_attempts == Some(0u32) ==> n.care_max_attempts == 1
            &&& c.care_max_attempts is Some && c.care_max_attempts->0 > 10 ==> n.care_max_attempts
                == 10
            &&& (c.care_context_messages is None || c.care_context_messages->0 <= 20)
                ==> n.care_context_messages == named_or_old(
                c.care_context_messages,
                s.care_context_messages,
            )
            &&& c.care_context_messages is Some && c.care_context_messages->0 > 20
                ==> n.care_context_messages == 20
            &&& n.care_recipient == named_or_old(c.care_recipient, s.care_recipient)
            &&& n.care_goal_secs == named_or_old(c.care_goal_secs, s.care_goal_secs)
            &&& n.care_task_secs == named_or_old(c.care_task_secs, s.care_task_secs)
            &&& n.care_silence_secs == named_or_old(c.care_silence_secs, s.care_silence_secs)
            &&& n.lead == s.lead
        }),
{
}

/// A change of settings is told to the room. A room that closes forgets what it
/// signalled; a room that goes live is idle from now on.
pub proof fn settings_are_told(r: RoomView, c: SetSettingsView, now: u64)
    ensures
        ({
            let out = configured(r, c, now);
            &&& out.settings == changed_settings(r.settings, c)
            &&& out.tx == r.tx.push(ServerFrameView::Settings { settings: out.settings })
            &&& !r.settings.archived && c.archived == Some(true) ==> out.care_marks.dom()
                == Set::<Seq<char>>::empty()
            &&& (r.settings.archived || c.archived != Some(true)) ==> out.care_marks == r.care_marks
            &&& c.live == Some(true) ==> out.last_msg_ms == now
            &&& c.live != Some(true) ==> out.last_msg_ms == r.last_msg_ms
            &&& out == (RoomView {
                settings: out.settings,
                care_marks: out.care_marks,
                last_msg_ms: out.last_msg_ms,
                tx: out.tx,
                ..r
            })
        }),
{
    if !r.settings.archived && c.archived == Some(true) {
        assert(configured(r, c, now).care_marks.dom() =~= Set::empty());
    }
}

/// The mode of a room is the one that was asked for; a turn beyond the order is the
/// first one's. The room is told.
pub proof fn mode_is_as_asked(r: RoomView, m: ChatModeView)
    ensures
        ({
            let out = mode_set(r, m);
            &&& (m matches ChatModeView::RoundRobin { order, turn } && turn >= order.len()) ==> (
            out.mode == ChatModeView::RoundRobin { order: m->order, turn: 0 })
            &&& !(m matches ChatModeView::RoundRobin { order, turn } && turn >= order.len()) ==> out.mode
                == m
            &&& out == (RoomView {
                mode: out.mode,
                tx: r.tx.push(ServerFrameView::Mode { mode: out.mode }),
                ..r
            })
        }),
{
}

/// A live room that was idle for too long is live no more, and everybody is told; one
/// that was not, or has no such limit, stays as it is.
pub proof fn live_ends_in_time(r: RoomView, now: u64)
    ensures
        ({
            let over = r.settings.live && r.settings.live_timeout_secs > 0 && r.last_msg_ms > 0
                && now > r.last_msg_ms + r.settings.live_timeout_secs * 1000;
            let out = live_ended(r, now, true);
            &&& over ==> !out.settings.live && out.settings == (RoomSettingsView {
                live: false,
                ..r.settings
            }) && out.tx == r.tx.push(ServerFrameView::Settings { settings: out.settings }).push(
                ServerFrameView::Control {
                    cmd: "live-expired:"@ + numeral(r.settings.live_timeout_secs as nat),
                },
            ) && out == (RoomView { settings: out.settings, tx: out.tx, ..r })
            &&& !over ==> out == r
            &&& live_ended(r, now, false).settings == r.settings
        }),
{
}

// ---- seats and moderation ----

/// Whoever comes in has a seat under their name, and the room is told who sits in it. A
/// person who is there already sits there once more; anybody else who comes again takes
/// the place of the one who was there, who is told.
pub proof fn whoever_comes_has_a_seat(
    r: RoomView,
    identity: Seq<char>,
    name: Seq<char>,
    kind: SenderType,
    session: u64,
)
    requires
        r.members.dom().contains(identity) || r.members.dom().len() < LOCA_KAPASITE,
    ensures
        ({
            let out = joined(r, identity, name, kind, session)->0;
            let was = r.members[identity];
            let again = r.members.dom().contains(identity);
            let same = again && was.name == name && was.kind == SenderType::User && kind
                == SenderType::User;
            &&& joined(r, identity, name, kind, session) is Some
            &&& out.members == r.members.insert(identity, out.members[identity])
            &&& out.members[identity].name == name
            &&& out.members[identity].kind == kind
            &&& !same ==> out.members[identity].connections == 1
            &&& same && was.connections < usize::MAX ==> out.members[identity].connections
                == was.connections + 1
            &&& again && !same ==> out.tx == r.tx.push(
                ServerFrameView::Evicted { name, identity, session },
            ).push(ServerFrameView::Members { members: roster(out.members) })
            &&& !again || same ==> out.tx == r.tx.push(
                ServerFrameView::Members { members: roster(out.members) },
            )
            &&& out == (RoomView { members: out.members, tx: out.tx, ..r })
        }),
{
}

/// Whoever leaves with their last connection leaves their seat; with another they keep
/// it. Everybody else keeps theirs, and the room is told who sits in it.
pub proof fn whoever_leaves_is_gone(r: RoomView, identity: Seq<char>)
    ensures
        ({
            let out = left(r, identity);
            let was = r.members[identity];
            &&& r.members.dom().contains(identity) && was.connections <= 1 ==> out.members
                == r.members.remove(identity)
            &&& r.members.dom().contains(identity) && was.connections > 1 ==> out.members.dom()
                == r.members.dom() && out.members[identity] == (SeatView {
                connections: (was.connections - 1) as usize,
                ..was
            })
            &&& forall|k: Seq<char>|
                k != identity && r.members.dom().contains(k) ==> out.members.dom().contains(k) && (
                #[trigger] out.members[k]) == r.members[k]
            &&& !r.members.dom().contains(identity) ==> out.members == r.members
            &&& out == (RoomView {
                members: out.members,
                tx: r.tx.push(ServerFrameView::Members { members: roster(out.members) }),
                ..r
            })
        }),
{
    let out = left(r, identity);
    if r.members.dom().contains(identity) && r.members[identity].connections > 1 {
        assert(out.members.dom() =~= r.members.dom());
    }
}

proof fn lemma_placed_holds(s: Seq<MemberView>, x: MemberView, y: MemberView)
    ensures
        placed(s, x).contains(y) == (y == x || s.contains(y)),
    decreases s.len(),
{
    let out = placed(s, x);
    if s.len() == 0 || !before(x.name, s.last().name) {
        if s.contains(y) {
            let i = choose|i: int| 0 <= i < s.len() && s[i] == y;
            assert(out[i] == y);
        }
        assert(out[s.len() as int] == x);
    } else {
        let p = placed(s.drop_last(), x);
        lemma_placed_holds(s.drop_last(), x, y);
        if p.contains(y) {
            let i = choose|i: int| 0 <= i < p.len() && p[i] == y;
            assert(out[i] == y);
        }
        if s.drop_last().contains(y) {
            let i = choose|i: int| 0 <= i < s.drop_last().len() && s.drop_last()[i] == y;
            assert(s[i] == y);
        }
        if s.contains(y) && !s.drop_last().contains(y) {
            let i = choose|i: int| 0 <= i < s.len() && s[i] == y;
            if i < s.len() - 1 {
                assert(s.drop_last()[i] == y);
            }
        }
        assert(out[p.len() as int] == s.last());
        assert(s[s.len() - 1] == s.last());
        if out.contains(y) {
            let i = choose|i: int| 0 <= i < out.len() && out[i] == y;
            if i < p.len() {
                assert(p[i] == y);
            }
        }
    }
}

proof fn lemma_roster_holds(seats: Seq<SeatView>, i: int)
    requires
        0 <= i < seats.len(),
    ensures
        roster_of(seats).contains(MemberView { name: seats[i].name, kind: seats[i].kind }),
    decreases seats.len(),
{
    let y = MemberView { name: seats[i].name, kind: seats[i].kind };
    let last = MemberView { name: seats.last().name, kind: seats.last().kind };
    if i < seats.len() - 1 {
        lemma_roster_holds(seats.drop_last(), i);
        assert(seats.drop_last()[i] == seats[i]);
    }
    lemma_placed_holds(roster_of(seats.drop_last()), last, y);
}

proof fn lemma_roster_only(seats: Seq<SeatView>, y: MemberView)
    requires
        roster_of(seats).contains(y),
    ensures
        exists|i: int|
            0 <= i < seats.len() && (#[trigger] seats[i]).name == y.name && seats[i].kind == y.kind,
    decreases seats.len(),
{
    if seats.len() > 0 {
        let last = MemberView { name: seats.last().name, kind: seats.last().kind };
        let d = seats.drop_last();
        lemma_placed_holds(roster_of(d), last, y);
        if y == last {
            assert(seats[seats.len() - 1].name == y.name);
        } else {
            lemma_roster_only(d, y);
            let i = choose|i: int|
                0 <= i < d.len() && (#[trigger] d[i]).name == y.name && d[i].kind == y.kind;
            assert(seats[i] == d[i]);
        }
    }
}

/// The roster names everybody who sits in the room, and nobody else.
pub proof fn roster_names_everybody(members: Map<Seq<char>, SeatView>, y: MemberView)
    requires
        members.dom().finite(),
    ensures
        roster(members).contains(y) == (exists|k: Seq<char>|
            members.dom().contains(k) && (#[trigger] members[k]).name == y.name && members[k].kind
                == y.kind),
{
    let keys = sorted_keys(members);
    let seats = sorted_values(members);
    lemma_sorted(members.dom());
    assert(seats.len() == keys.len());
    if roster(members).contains(y) {
        lemma_roster_only(seats, y);
        let i = choose|i: int|
            0 <= i < seats.len() && (#[trigger] seats[i]).name == y.name && seats[i].kind == y.kind;
        assert(keys.to_set().contains(keys[i]));
        assert(members.dom().contains(keys[i]));
        assert(members[keys[i]] == seats[i]);
    }
    if exists|k: Seq<char>|
        members.dom().contains(k) && (#[trigger] members[k]).name == y.name && members[k].kind
            == y.kind {
        let k = choose|k: Seq<char>|
            members.dom().contains(k) && (#[trigger] members[k]).name == y.name && members[k].kind
                == y.kind;
        assert(keys.to_set().contains(k));
        let i = choose|i: int| 0 <= i < keys.len() && keys[i] == k;
        assert(seats[i] == members[k]);
        lemma_roster_holds(seats, i);
        assert(MemberView { name: seats[i].name, kind: seats[i].kind } == y);
    }
}

/// Moderation does what it says: it mutes, unmutes, bans, unbans and puts out whom it
/// names, and nobody else, and the room is told.
pub proof fn moderation_is_as_asked(r: RoomView, action: ModAction, name: Seq<char>)
    ensures
        ({
            let out = moderated(r, action, name);
            &&& out.muted == match action {
                ModAction::Mute => r.muted.insert(name),
                ModAction::Unmute => r.muted.remove(name),
                _ => r.muted,
            }
            &&& out.banned == match action {
                ModAction::Ban => r.banned.insert(name),
                ModAction::Unban => r.banned.remove(name),
                _ => r.banned,
            }
            &&& (action == ModAction::Mute || action == ModAction::Unmute || action
                == ModAction::Unban) ==> out.members == r.members && out.tx == r.tx.push(
                ServerFrameView::Mod {
                    state: ModStateView {
                        muted: sorted_set(out.muted),
                        banned: sorted_set(out.banned),
                    },
                },
            )
            &&& (action == ModAction::Kick || action == ModAction::Release || action
                == ModAction::Ban) ==> out.tx == r.tx.push(
                ServerFrameView::Kicked { name, banned: action == ModAction::Ban },
            ).push(ServerFrameView::Members { members: roster(out.members) })
            &&& out == (RoomView {
                muted: out.muted,
                banned: out.banned,
                members: out.members,
                tx: out.tx,
                ..r
            })
        }),
{
}

} // verus!
