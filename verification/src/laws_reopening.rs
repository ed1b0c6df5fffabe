//! What a building that opens again gives back of what was saved.
use crate::authority::{BuildingRole, PrincipalIdentityView, SessionIdentityView};
use crate::hub::{AdminPairingView, HubConfigView, HubView, LobbyEventView};
use crate::keys::{member_named, picked};
use crate::laws_door::numbers_go_on;
use crate::protocol::{
    Attention, AttentionView, ChatModeView, Goal, GoalView, Invite, InviteView, Membership,
    MembershipView, MessageView, Note, NoteView, RoomSettingsView, ServerFrameView, Task, TaskView,
    WaitState, WaitStateView,
};
use crate::restore::{
    AdoptionView, adopted, adopted_one, are_adoptions, banned_all, cleared, homed, is_adoption,
    largest_generation, largest_id, loaded, orphaned, orphans, reopened, restored_keys,
    restored_marks, restored_room, restored_rooms, restored_sessions, room_countable,
    room_generation, saved_countable,
};
use crate::room::{CareMark, OperationView, RoomView, SeatView};
use crate::saved::{
    Keyed, Numbered, SavedBanView, SavedKeyView, SavedMarkView, SavedRoomView, SavedSessionView,
    SavedView, Stamped, keyed, latest, numbered_by,
};
use crate::table::{lemma_sorted, sorted_keys};
use vstd::prelude::*;

verus! {

// ---- what stands under a name ----

/// Whether a saved entry is the last under its name, so that it stands.
pub open spec fn stands(names: Seq<Seq<char>>, j: int) -> bool {
    0 <= j < names.len() && forall|k: int| j < k < names.len() ==> #[trigger] names[k] != names[j]
}

/// Whether a saved entry is the last under its number, so that it stands.
pub open spec fn number_stands(numbers: Seq<u64>, j: int) -> bool {
    0 <= j < numbers.len() && forall|k: int|
        j < k < numbers.len() ==> #[trigger] numbers[k] != numbers[j]
}

/// Whether what came back under names is what was saved under them: each entry that
/// stands is there, and nothing else is.
pub open spec fn gives_back<V>(out: Map<Seq<char>, V>, names: Seq<Seq<char>>, entries: Seq<V>) -> bool {
    &&& forall|j: int| #[trigger]
        stands(names, j) ==> out.dom().contains(names[j]) && out[names[j]] == entries[j]
    &&& forall|k: Seq<char>| #[trigger] out.dom().contains(k) ==> names.contains(k)
}

/// The same for what was saved under numbers.
pub open spec fn gives_numbered_back<V>(out: Map<u64, V>, numbers: Seq<u64>, entries: Seq<V>) -> bool {
    &&& forall|j: int| #[trigger]
        number_stands(numbers, j) ==> out.dom().contains(numbers[j]) && out[numbers[j]]
            == entries[j]
    &&& forall|k: u64| #[trigger] out.dom().contains(k) ==> numbers.contains(k)
}

proof fn lemma_stands_before(names: Seq<Seq<char>>, j: int)
    requires
        stands(names, j),
        j < names.len() - 1,
    ensures
        stands(names.drop_last(), j),
        names.last() != names[j],
{
    let d = names.drop_last();
    assert(names[names.len() - 1] != names[j]);
    assert forall|k: int| j < k < d.len() implies #[trigger] d[k] != d[j] by {
        assert(names[k] != names[j]);
    }
}

proof fn lemma_number_stands_before(numbers: Seq<u64>, j: int)
    requires
        number_stands(numbers, j),
        j < numbers.len() - 1,
    ensures
        number_stands(numbers.drop_last(), j),
        numbers.last() != numbers[j],
{
    let d = numbers.drop_last();
    assert(numbers[numbers.len() - 1] != numbers[j]);
    assert forall|k: int| j < k < d.len() implies #[trigger] d[k] != d[j] by {
        assert(numbers[k] != numbers[j]);
    }
}

proof fn lemma_one_more<V>(
    before: Map<Seq<char>, V>,
    out: Map<Seq<char>, V>,
    names: Seq<Seq<char>>,
    entries: Seq<V>,
)
    requires
        names.len() == entries.len(),
        names.len() > 0,
        gives_back(before, names.drop_last(), entries.drop_last()),
        out == before.insert(names.last(), entries.last()),
    ensures
        gives_back(out, names, entries),
{
    let d = names.drop_last();
    assert forall|j: int| #[trigger] stands(names, j) implies out.dom().contains(names[j])
        && out[names[j]] == entries[j] by {
        if j < names.len() - 1 {
            lemma_stands_before(names, j);
            assert(d[j] == names[j]);
            assert(entries.drop_last()[j] == entries[j]);
        }
    }
    assert forall|k: Seq<char>| #[trigger] out.dom().contains(k) implies names.contains(k) by {
        if k == names.last() {
            assert(names[names.len() - 1] == k);
        } else {
            assert(before.dom().contains(k));
            assert(d.contains(k));
            let i = choose|i: int| 0 <= i < d.len() && d[i] == k;
            assert(names[i] == k);
        }
    }
}

proof fn lemma_one_number_more<V>(
    before: Map<u64, V>,
    out: Map<u64, V>,
    numbers: Seq<u64>,
    entries: Seq<V>,
)
    requires
        numbers.len() == entries.len(),
        numbers.len() > 0,
        gives_numbered_back(before, numbers.drop_last(), entries.drop_last()),
        out == before.insert(numbers.last(), entries.last()),
    ensures
        gives_numbered_back(out, numbers, entries),
{
    let d = numbers.drop_last();
    assert forall|j: int| #[trigger] number_stands(numbers, j) implies out.dom().contains(numbers[j])
        && out[numbers[j]] == entries[j] by {
        if j < numbers.len() - 1 {
            lemma_number_stands_before(numbers, j);
            assert(d[j] == numbers[j]);
            assert(entries.drop_last()[j] == entries[j]);
        }
    }
    assert forall|k: u64| #[trigger] out.dom().contains(k) implies numbers.contains(k) by {
        if k == numbers.last() {
            assert(numbers[numbers.len() - 1] == k);
        } else {
            assert(before.dom().contains(k));
            assert(d.contains(k));
            let i = choose|i: int| 0 <= i < d.len() && d[i] == k;
            assert(numbers[i] == k);
        }
    }
}

proof fn lemma_keyed<T: Keyed>(s: Seq<T::V>, names: Seq<Seq<char>>)
    requires
        names.len() == s.len(),
        forall|i: int| 0 <= i < s.len() ==> #[trigger] names[i] == T::key_of(s[i]),
    ensures
        gives_back(keyed::<T>(s), names, s),
    decreases s.len(),
{
    if s.len() > 0 {
        assert forall|i: int| 0 <= i < s.len() - 1 implies #[trigger] names.drop_last()[i]
            == T::key_of(s.drop_last()[i]) by {
            assert(names[i] == T::key_of(s[i]));
        }
        lemma_keyed::<T>(s.drop_last(), names.drop_last());
        assert(names[s.len() - 1] == T::key_of(s[s.len() - 1]));
        lemma_one_more(keyed::<T>(s.drop_last()), keyed::<T>(s), names, s);
    }
}

proof fn lemma_numbered<T: Numbered>(s: Seq<T::V>, numbers: Seq<u64>)
    requires
        numbers.len() == s.len(),
        forall|i: int| 0 <= i < s.len() ==> #[trigger] numbers[i] == T::number_of(s[i]),
    ensures
        gives_numbered_back(numbered_by::<T>(s), numbers, s),
    decreases s.len(),
{
    if s.len() > 0 {
        assert forall|i: int| 0 <= i < s.len() - 1 implies #[trigger] numbers.drop_last()[i]
            == T::number_of(s.drop_last()[i]) by {
            assert(numbers[i] == T::number_of(s[i]));
        }
        lemma_numbered::<T>(s.drop_last(), numbers.drop_last());
        assert(numbers[s.len() - 1] == T::number_of(s[s.len() - 1]));
        lemma_one_number_more(numbered_by::<T>(s.drop_last()), numbered_by::<T>(s), numbers, s);
    }
}

proof fn lemma_marks_back(s: Seq<SavedMarkView>)
    ensures
        gives_back(
            restored_marks(s),
            s.map_values(|m: SavedMarkView| m.key),
            s.map_values(
                |m: SavedMarkView|
                    CareMark { last_signal_at: m.last_signal_at, signal_count: m.signal_count },
            ),
        ),
    decreases s.len(),
{
    if s.len() > 0 {
        let d = s.drop_last();
        lemma_marks_back(d);
        let names = s.map_values(|m: SavedMarkView| m.key);
        let marks = s.map_values(
            |m: SavedMarkView|
                CareMark { last_signal_at: m.last_signal_at, signal_count: m.signal_count },
        );
        assert(names.drop_last() =~= d.map_values(|m: SavedMarkView| m.key));
        assert(marks.drop_last() =~= d.map_values(
            |m: SavedMarkView|
                CareMark { last_signal_at: m.last_signal_at, signal_count: m.signal_count },
        ));
        lemma_one_more(restored_marks(d), restored_marks(s), names, marks);
    }
}

proof fn lemma_rooms_back(s: Seq<SavedRoomView>)
    ensures
        gives_back(
            restored_rooms(s),
            s.map_values(|r: SavedRoomView| r.room),
            s.map_values(|r: SavedRoomView| restored_room(r)),
        ),
    decreases s.len(),
{
    if s.len() > 0 {
        let d = s.drop_last();
        lemma_rooms_back(d);
        let names = s.map_values(|r: SavedRoomView| r.room);
        let rooms = s.map_values(|r: SavedRoomView| restored_room(r));
        assert(names.drop_last() =~= d.map_values(|r: SavedRoomView| r.room));
        assert(rooms.drop_last() =~= d.map_values(|r: SavedRoomView| restored_room(r)));
        lemma_one_more(restored_rooms(d), restored_rooms(s), names, rooms);
    }
}

// ---- bans ----

/// Whether a saved ban or mute is for somebody in a room.
pub open spec fn is_barred(bans: Seq<SavedBanView>, room: Seq<char>, name: Seq<char>, kind: Seq<char>) -> bool {
    bans.contains(SavedBanView { room, name, kind })
}

proof fn lemma_bans_in_force(h: HubView, s: Seq<SavedBanView>, room: Seq<char>)
    requires
        h.rooms.dom().contains(room),
    ensures
        ({
            let out = banned_all(h, s).rooms[room];
            &&& banned_all(h, s).rooms.dom().contains(room)
            &&& out == (RoomView { banned: out.banned, muted: out.muted, ..h.rooms[room] })
            &&& forall|name: Seq<char>| #[trigger]
                out.banned.contains(name) <==> h.rooms[room].banned.contains(name) || is_barred(
                    s,
                    room,
                    name,
                    "ban"@,
                )
            &&& forall|name: Seq<char>| #[trigger]
                out.muted.contains(name) <==> h.rooms[room].muted.contains(name) || is_barred(
                    s,
                    room,
                    name,
                    "mute"@,
                )
        }),
    decreases s.len(),
{
    if s.len() > 0 {
        let d = s.drop_last();
        let b = s.last();
        lemma_bans_in_force(h, d, room);
        reveal_strlit("ban");
        reveal_strlit("mute");
        assert("ban"@.len() != "mute"@.len());
        assert forall|name: Seq<char>, kind: Seq<char>| #[trigger]
            is_barred(s, room, name, kind) <==> is_barred(d, room, name, kind) || b == (
            SavedBanView { room, name, kind }) by {
            let x = SavedBanView { room, name, kind };
            if s.contains(x) {
                let i = choose|i: int| 0 <= i < s.len() && s[i] == x;
                if i < s.len() - 1 {
                    assert(d[i] == x);
                }
            }
            if d.contains(x) {
                let i = choose|i: int| 0 <= i < d.len() && d[i] == x;
                assert(s[i] == x);
            }
            if b == x {
                assert(s[s.len() - 1] == x);
            }
        }
        let mid = banned_all(h, d).rooms[room];
        let out = banned_all(h, s).rooms[room];
        assert forall|name: Seq<char>| #[trigger]
            out.banned.contains(name) <==> h.rooms[room].banned.contains(name) || is_barred(
                s,
                room,
                name,
                "ban"@,
            ) by {
            assert(mid.banned.contains(name) <==> h.rooms[room].banned.contains(name) || is_barred(
                d,
                room,
                name,
                "ban"@,
            ));
        }
        assert forall|name: Seq<char>| #[trigger]
            out.muted.contains(name) <==> h.rooms[room].muted.contains(name) || is_barred(
                s,
                room,
                name,
                "mute"@,
            ) by {
            assert(mid.muted.contains(name) <==> h.rooms[room].muted.contains(name) || is_barred(
                d,
                room,
                name,
                "mute"@,
            ));
        }
    }
}

proof fn lemma_bans_elsewhere(h: HubView, s: Seq<SavedBanView>)
    ensures
        banned_all(h, s) == (HubView { rooms: banned_all(h, s).rooms, ..h }),
    decreases s.len(),
{
    if s.len() > 0 {
        lemma_bans_elsewhere(h, s.drop_last());
    }
}

proof fn lemma_davets_elsewhere(h: HubView, list: Seq<AdoptionView>)
    ensures
        adopted(h, list) == (HubView {
            invites: adopted(h, list).invites,
            members: adopted(h, list).members,
            ..h
        }),
    decreases list.len(),
{
    if list.len() > 0 {
        lemma_davets_elsewhere(h, list.drop_last());
    }
}

// ---- rooms ----

/// A saved room comes back as it was saved: its messages in their order, its notes,
/// tasks, goals, waits, marks and attentions under their names and numbers, its journal,
/// its mode and its settings. Bans and mutes are in force again. Nobody sits in it yet,
/// and it has told nothing. The home room has the building's journal where it has none
/// of its own.
#[verifier::spinoff_prover]
#[verifier::rlimit(40)]
pub proof fn saved_room_comes_back(
    config: HubConfigView,
    s: SavedView,
    settings: RoomSettingsView,
    epoch: u64,
    pairing: AdminPairingView,
    list: Seq<AdoptionView>,
    i: int,
)
    requires
        0 <= i < s.rooms.len(),
        forall|j: int| i < j < s.rooms.len() ==> (#[trigger] s.rooms[j]).room != s.rooms[i].room,
    ensures
        ({
            let saved = s.rooms[i];
            let h = reopened(loaded(config, s, settings, epoch, pairing), s, list);
            let out = h.rooms[saved.room];
            &&& h.rooms.dom().contains(saved.room)
            &&& out.history == saved.messages
            &&& out.mode == saved.mode
            &&& out.settings == saved.settings
            &&& gives_back(out.notes, saved.notes.map_values(|n: NoteView| n.key), saved.notes)
            &&& gives_numbered_back(
                out.tasks,
                saved.tasks.map_values(|t: TaskView| t.id),
                saved.tasks,
            )
            &&& gives_numbered_back(
                out.goals,
                saved.goals.map_values(|g: GoalView| g.id),
                saved.goals,
            )
            &&& gives_back(
                out.waits,
                saved.waits.map_values(|w: WaitStateView| w.waiter),
                saved.waits,
            )
            &&& gives_back(
                out.attentions,
                saved.attentions.map_values(|a: AttentionView| a.id),
                saved.attentions,
            )
            &&& gives_back(
                out.care_marks,
                saved.care_marks.map_values(|m: SavedMarkView| m.key),
                saved.care_marks.map_values(
                    |m: SavedMarkView|
                        CareMark { last_signal_at: m.last_signal_at, signal_count: m.signal_count },
                ),
            )
            &&& out.journal == if saved.journal.len() > 0 || saved.room != config.home_room {
                saved.journal
            } else {
                s.home_journal
            }
            &&& saved.messages.len() > 0 ==> out.last_msg_ms == saved.messages.last().ts
            &&& saved.messages.len() == 0 ==> out.last_msg_ms == 0
            &&& forall|name: Seq<char>| #[trigger]
                out.banned.contains(name) <==> is_barred(s.bans, saved.room, name, "ban"@)
            &&& forall|name: Seq<char>| #[trigger]
                out.muted.contains(name) <==> is_barred(s.bans, saved.room, name, "mute"@)
            &&& out.members == Map::<Seq<char>, SeatView>::empty()
            &&& out.tx == Seq::<ServerFrameView>::empty()
            &&& out.operations == Seq::<OperationView>::empty()
            &&& out.post_times == Map::<Seq<char>, Seq<u64>>::empty()
        }),
{
    let saved = s.rooms[i];
    let h0 = loaded(config, s, settings, epoch, pairing);
    lemma_rooms_back(s.rooms);
    let names = s.rooms.map_values(|r: SavedRoomView| r.room);
    assert(stands(names, i));
    assert(names[i] == saved.room);
    lemma_davets_elsewhere(h0, list);
    let h1 = homed(cleared(adopted(h0, list)), s.home_journal);
    assert(h1.rooms.dom().contains(saved.room));
    lemma_bans_in_force(h1, s.bans, saved.room);
    lemma_keyed::<Note>(saved.notes, saved.notes.map_values(|n: NoteView| n.key));
    lemma_numbered::<Task>(saved.tasks, saved.tasks.map_values(|t: TaskView| t.id));
    lemma_numbered::<Goal>(saved.goals, saved.goals.map_values(|g: GoalView| g.id));
    lemma_keyed::<WaitState>(saved.waits, saved.waits.map_values(|w: WaitStateView| w.waiter));
    lemma_keyed::<Attention>(
        saved.attentions,
        saved.attentions.map_values(|a: AttentionView| a.id),
    );
    lemma_marks_back(saved.care_marks);
}

/// The rooms of a building that opens again go on where they stopped: what comes next
/// has a number past every number that was saved.
pub proof fn saved_room_goes_on(
    config: HubConfigView,
    s: SavedView,
    settings: RoomSettingsView,
    epoch: u64,
    pairing: AdminPairingView,
    list: Seq<AdoptionView>,
    i: int,
)
    requires
        saved_countable(s),
        0 <= i < s.rooms.len(),
        forall|j: int| i < j < s.rooms.len() ==> (#[trigger] s.rooms[j]).room != s.rooms[i].room,
    ensures
        ({
            let saved = s.rooms[i];
            let h = reopened(loaded(config, s, settings, epoch, pairing), s, list);
            let out = h.rooms[saved.room];
            &&& out.next_rev == saved.max_rev + 1
            &&& saved.journal.len() > 0 ==> out.next_journal_id == saved.journal.last().id + 1
            &&& saved.journal.len() == 0 && saved.room != config.home_room ==> out.next_journal_id
                == 1
            &&& saved.journal.len() == 0 && saved.room == config.home_room && s.home_journal.len()
                > 0 ==> out.next_journal_id == s.home_journal.last().id + 1
            &&& forall|j: int|
                0 <= j < saved.tasks.len() ==> (#[trigger] saved.tasks[j]).id < out.next_task_id
            &&& forall|j: int|
                0 <= j < saved.goals.len() ==> (#[trigger] saved.goals[j]).id < out.next_goal_id
            &&& saved.tasks.len() == 0 ==> out.next_task_id == 1
            &&& saved.goals.len() == 0 ==> out.next_goal_id == 1
            &&& saved.max_msg_id < h.next_id
        }),
{
    let saved = s.rooms[i];
    let h0 = loaded(config, s, settings, epoch, pairing);
    lemma_rooms_back(s.rooms);
    let names = s.rooms.map_values(|r: SavedRoomView| r.room);
    assert(stands(names, i));
    assert(names[i] == saved.room);
    lemma_davets_elsewhere(h0, list);
    let h1 = homed(cleared(adopted(h0, list)), s.home_journal);
    lemma_bans_in_force(h1, s.bans, saved.room);
    lemma_bans_elsewhere(h1, s.bans);
    assert(room_countable(s.rooms[i]));
    numbers_go_on(saved, 0);
    assert forall|j: int| 0 <= j < saved.tasks.len() implies (#[trigger] saved.tasks[j]).id
        < restored_room(saved).next_task_id by {
        numbers_go_on(saved, j);
    }
    assert forall|j: int| 0 <= j < saved.goals.len() implies (#[trigger] saved.goals[j]).id
        < restored_room(saved).next_goal_id by {
        numbers_go_on(saved, j);
    }
    lemma_message_numbers(s.rooms, i);
}

proof fn lemma_message_numbers(s: Seq<SavedRoomView>, i: int)
    requires
        0 <= i < s.len(),
        forall|k: int| 0 <= k < s.len() ==> room_countable(#[trigger] s[k]),
    ensures
        s[i].max_msg_id <= largest_id(s) < u64::MAX,
    decreases s.len(),
{
    let d = s.drop_last();
    assert(room_countable(s[s.len() - 1]));
    if s.len() > 1 {
        assert forall|k: int| 0 <= k < d.len() implies room_countable(#[trigger] d[k]) by {
            assert(d[k] == s[k]);
        }
        let k = if i < d.len() {
            i
        } else {
            0
        };
        lemma_message_numbers(d, k);
        assert(d[k] == s[k]);
    } else {
        assert(d.len() == 0);
        assert(largest_id(d) == 0);
        assert(i == 0);
    }
}

/// The home room is there when the building opens, whether it was saved or not.
pub proof fn home_is_open(
    config: HubConfigView,
    s: SavedView,
    settings: RoomSettingsView,
    epoch: u64,
    pairing: AdminPairingView,
    list: Seq<AdoptionView>,
)
    ensures
        ({
            let h = reopened(loaded(config, s, settings, epoch, pairing), s, list);
            let out = h.rooms[config.home_room];
            &&& h.rooms.dom().contains(config.home_room)
            &&& (forall|j: int|
                0 <= j < s.rooms.len() ==> (#[trigger] s.rooms[j]).room != config.home_room) ==> {
                &&& out.journal == s.home_journal
                &&& out.settings == settings
                &&& out.mode == ChatModeView::Free
                &&& out.history == Seq::<MessageView>::empty()
            }
        }),
{
    let h0 = loaded(config, s, settings, epoch, pairing);
    lemma_davets_elsewhere(h0, list);
    let h1 = homed(cleared(adopted(h0, list)), s.home_journal);
    lemma_bans_in_force(h1, s.bans, config.home_room);
    lemma_rooms_back(s.rooms);
    let names = s.rooms.map_values(|r: SavedRoomView| r.room);
    if h0.rooms.dom().contains(config.home_room) {
        assert(names.contains(config.home_room));
        let j = choose|j: int| 0 <= j < names.len() && names[j] == config.home_room;
        assert(s.rooms[j].room == config.home_room);
    }
}

// ---- the building ----

/// The building that opens again is the one that was closed: its keys and rules are those
/// of its configuration, sealed rooms stay sealed, members, smasters and the master's
/// sessions are there again, each under its key.
#[verifier::spinoff_prover]
#[verifier::rlimit(40)]
pub proof fn saved_building_comes_back(
    config: HubConfigView,
    s: SavedView,
    settings: RoomSettingsView,
    epoch: u64,
    pairing: AdminPairingView,
    list: Seq<AdoptionView>,
)
    ensures
        ({
            let h = reopened(loaded(config, s, settings, epoch, pairing), s, list);
            &&& h.admin_token == config.admin_token
            &&& h.room_token == config.room_token
            &&& h.require_sessions == config.require_sessions
            &&& h.require_invite == config.require_invite
            &&& h.home_room == config.home_room
            &&& h.reserved_room == config.reserved_room
            &&& h.caretakers == config.caretakers
            &&& h.default_settings == settings
            &&& h.epoch == epoch
            &&& h.admin_pairing == pairing
            &&& forall|room: Seq<char>| #[trigger] h.deleted.contains(room) <==> s.sealed.contains(room)
            &&& gives_back(
                h.smasters,
                s.smasters.map_values(|k: SavedKeyView| k.token),
                s.smasters.map_values(|k: SavedKeyView| k.name),
            )
            &&& gives_back(
                h.sessions,
                s.sessions.map_values(|k: SavedSessionView| k.token),
                s.sessions.map_values(|k: SavedSessionView| masters_session(k, s.master)),
            )
            &&& h.join_create_times == Map::<Seq<char>, Seq<u64>>::empty()
            &&& h.lobby_tx == Seq::<LobbyEventView>::empty()
            &&& h.lobby_online.dom() == Set::<Seq<char>>::empty()
            &&& h.runtime_health.dom() == Set::<Seq<char>>::empty()
            &&& h.care_deliveries.dom() == Set::<Seq<char>>::empty()
        }),
{
    let h0 = loaded(config, s, settings, epoch, pairing);
    lemma_davets_elsewhere(h0, list);
    let h1 = homed(cleared(adopted(h0, list)), s.home_journal);
    lemma_bans_elsewhere(h1, s.bans);
    lemma_smasters_back(s.smasters);
    lemma_sessions_back(s.sessions, s.master);
    assert(h0.lobby_online.dom() =~= Set::empty());
    assert(h0.runtime_health.dom() =~= Set::empty());
    assert(h0.care_deliveries.dom() =~= Set::empty());
}

/// A session of the master: under the name and until the time that were saved, with the
/// master's authority everywhere and a seat nowhere.
pub open spec fn masters_session(k: SavedSessionView, master: Option<PrincipalIdentityView>) -> SessionIdentityView {
    SessionIdentityView {
        principal_id: if master is Some {
            Some(master->0.id)
        } else {
            None
        },
        building_role: BuildingRole::Master,
        name: k.name,
        kind: k.kind,
        loca: None,
        member: None,
        admin: true,
        expires_at: k.expires_at,
    }
}

proof fn lemma_smasters_back(s: Seq<SavedKeyView>)
    ensures
        gives_back(
            restored_keys(s),
            s.map_values(|k: SavedKeyView| k.token),
            s.map_values(|k: SavedKeyView| k.name),
        ),
    decreases s.len(),
{
    if s.len() > 0 {
        let d = s.drop_last();
        lemma_smasters_back(d);
        let names = s.map_values(|k: SavedKeyView| k.token);
        let entries = s.map_values(|k: SavedKeyView| k.name);
        assert(names.drop_last() =~= d.map_values(|k: SavedKeyView| k.token));
        assert(entries.drop_last() =~= d.map_values(|k: SavedKeyView| k.name));
        lemma_one_more(restored_keys(d), restored_keys(s), names, entries);
    }
}

proof fn lemma_sessions_back(s: Seq<SavedSessionView>, master: Option<PrincipalIdentityView>)
    ensures
        gives_back(
            restored_sessions(s, master),
            s.map_values(|k: SavedSessionView| k.token),
            s.map_values(|k: SavedSessionView| masters_session(k, master)),
        ),
    decreases s.len(),
{
    if s.len() > 0 {
        let d = s.drop_last();
        lemma_sessions_back(d, master);
        let names = s.map_values(|k: SavedSessionView| k.token);
        let entries = s.map_values(|k: SavedSessionView| masters_session(k, master));
        assert(names.drop_last() =~= d.map_values(|k: SavedSessionView| k.token));
        assert(entries.drop_last() =~= d.map_values(
            |k: SavedSessionView| masters_session(k, master),
        ));
        assert(entries.last() == masters_session(s.last(), master));
        lemma_one_more(restored_sessions(d, master), restored_sessions(s, master), names, entries);
    }
}


// ---- davets and members ----

/// A davet that belongs to a member comes back as it was saved, unless it is for the
/// reserved room and not a caretaker's: then it is gone.
pub proof fn saved_davet_comes_back(
    config: HubConfigView,
    s: SavedView,
    settings: RoomSettingsView,
    epoch: u64,
    pairing: AdminPairingView,
    list: Seq<AdoptionView>,
    now: u64,
    i: int,
)
    requires
        are_adoptions(loaded(config, s, settings, epoch, pairing), now, list),
        0 <= i < s.invites.len(),
        forall|j: int| i < j < s.invites.len() ==> (#[trigger] s.invites[j]).token
            != s.invites[i].token,
        s.invites[i].member.len() > 0,
    ensures
        ({
            let saved = s.invites[i];
            let h = reopened(loaded(config, s, settings, epoch, pairing), s, list);
            let intrudes = config.reserved_room.len() > 0 && saved.room == config.reserved_room
                && !config.caretakers.contains(saved.name);
            if intrudes {
                !h.invites.dom().contains(saved.token)
            } else {
                h.invites.dom().contains(saved.token) && h.invites[saved.token] == saved
            }
        }),
{
    let saved = s.invites[i];
    let h0 = loaded(config, s, settings, epoch, pairing);
    let names = s.invites.map_values(|d: InviteView| d.token);
    lemma_keyed::<Invite>(s.invites, names);
    assert(stands(names, i));
    assert(names[i] == saved.token);
    lemma_bans_elsewhere(homed(cleared(adopted(h0, list)), s.home_journal), s.bans);
    lemma_davets_elsewhere(h0, list);
    lemma_own_token::<Invite>(s.invites);
    lemma_keyed_finite::<Invite>(s.invites);
    assert forall|j: int| 0 <= j < list.len() implies (#[trigger] list[j]).invite.token
        != saved.token by {
        assert(is_adoption(adopted(h0, list.take(j)), orphans(h0)[j], now, list[j]));
        assert(list[j].invite.token == orphans(h0)[j].token);
        lemma_orphan_token(h0, j);
    }
    lemma_bound_elsewhere(h0, list, saved.token);
}

/// A davet of nobody comes back bound to a member of its name, who is a member of the
/// building; nothing else about it changes. It too is gone where it is for the reserved
/// room and not a caretaker's.
pub proof fn saved_orphan_is_bound(
    config: HubConfigView,
    s: SavedView,
    settings: RoomSettingsView,
    epoch: u64,
    pairing: AdminPairingView,
    list: Seq<AdoptionView>,
    now: u64,
    i: int,
)
    requires
        are_adoptions(loaded(config, s, settings, epoch, pairing), now, list),
        0 <= i < s.invites.len(),
        forall|j: int| i < j < s.invites.len() ==> (#[trigger] s.invites[j]).token
            != s.invites[i].token,
        s.invites[i].member.len() == 0,
    ensures
        ({
            let saved = s.invites[i];
            let h = reopened(loaded(config, s, settings, epoch, pairing), s, list);
            let out = h.invites[saved.token];
            let intrudes = config.reserved_room.len() > 0 && saved.room == config.reserved_room
                && !config.caretakers.contains(saved.name);
            if intrudes {
                !h.invites.dom().contains(saved.token)
            } else {
                &&& h.invites.dom().contains(saved.token)
                &&& out == (InviteView { member: out.member, ..saved })
                &&& h.members.dom().contains(out.member)
            }
        }),
{
    let saved = s.invites[i];
    let h0 = loaded(config, s, settings, epoch, pairing);
    let names = s.invites.map_values(|d: InviteView| d.token);
    lemma_keyed::<Invite>(s.invites, names);
    assert(stands(names, i));
    assert(names[i] == saved.token);
    lemma_bans_elsewhere(homed(cleared(adopted(h0, list)), s.home_journal), s.bans);
    lemma_davets_elsewhere(h0, list);
    lemma_own_token::<Invite>(s.invites);
    lemma_keyed_finite::<Invite>(s.invites);
    let keys = sorted_keys(h0.invites);
    lemma_sorted(h0.invites.dom());
    assert(keys.to_set().contains(saved.token));
    assert(keys.contains(saved.token));
    let p = lemma_orphan_place(h0, keys, saved.token);
    assert(is_adoption(adopted(h0, list.take(p)), orphans(h0)[p], now, list[p]));
    lemma_keyed_finite::<Membership>(s.members);
    lemma_own_token::<Membership>(s.members);
    assert(under_own_token(h0));
    lemma_bound(h0, now, list, p, list.len() as int);
    assert(list.take(list.len() as int) =~= list);
}

/// Whether every member stands under its own token.
pub open spec fn under_own_token(h: HubView) -> bool {
    &&& h.members.dom().finite()
    &&& forall|k: Seq<char>| #[trigger] h.members.dom().contains(k) ==> h.members[k].token == k
}

proof fn lemma_own_token<T: Keyed>(s: Seq<T::V>)
    ensures
        forall|k: Seq<char>| #[trigger]
            keyed::<T>(s).dom().contains(k) ==> T::key_of(keyed::<T>(s)[k]) == k,
    decreases s.len(),
{
    if s.len() > 0 {
        lemma_own_token::<T>(s.drop_last());
        let prev = keyed::<T>(s.drop_last());
        assert(keyed::<T>(s) == prev.insert(T::key_of(s.last()), s.last()));
        assert forall|k: Seq<char>| #[trigger] keyed::<T>(s).dom().contains(k) implies T::key_of(
            keyed::<T>(s)[k],
        ) == k by {
            if k != T::key_of(s.last()) {
                assert(prev.dom().contains(k));
            }
        }
    }
}

proof fn lemma_keyed_finite<T: Keyed>(s: Seq<T::V>)
    ensures
        keyed::<T>(s).dom().finite(),
    decreases s.len(),
{
    if s.len() > 0 {
        lemma_keyed_finite::<T>(s.drop_last());
    }
}

proof fn lemma_orphan(h: HubView, keys: Seq<Seq<char>>, j: int)
    requires
        0 <= j < picked(h.invites, keys, orphaned()).len(),
    ensures
        picked(h.invites, keys, orphaned())[j].member.len() == 0,
        exists|k: int|
            0 <= k < keys.len() && picked(h.invites, keys, orphaned())[j] == h.invites[#[trigger] keys[k]],
    decreases keys.len(),
{
    if keys.len() > 0 {
        let d = keys.drop_last();
        let prev = picked(h.invites, d, orphaned());
        if j < prev.len() {
            lemma_orphan(h, d, j);
            let k = choose|k: int|
                0 <= k < d.len() && picked(h.invites, d, orphaned())[j] == h.invites[#[trigger] d[k]];
            assert(keys[k] == d[k]);
        } else {
            assert(keys[keys.len() - 1] == keys.last());
        }
    }
}

proof fn lemma_orphan_place(h: HubView, keys: Seq<Seq<char>>, token: Seq<char>) -> (p: int)
    requires
        keys.contains(token),
        h.invites[token].member.len() == 0,
    ensures
        0 <= p < picked(h.invites, keys, orphaned()).len(),
        picked(h.invites, keys, orphaned())[p] == h.invites[token],
    decreases keys.len(),
{
    let d = keys.drop_last();
    let prev = picked(h.invites, d, orphaned());
    if keys.last() == token {
        prev.len() as int
    } else {
        let k = choose|k: int| 0 <= k < keys.len() && keys[k] == token;
        assert(d[k] == token);
        lemma_orphan_place(h, d, token)
    }
}

proof fn lemma_bound_elsewhere(h: HubView, list: Seq<AdoptionView>, token: Seq<char>)
    requires
        forall|j: int| 0 <= j < list.len() ==> (#[trigger] list[j]).invite.token != token,
    ensures
        adopted(h, list).invites.dom().contains(token) == h.invites.dom().contains(token),
        adopted(h, list).invites[token] == h.invites[token],
    decreases list.len(),
{
    if list.len() > 0 {
        let d = list.drop_last();
        assert forall|j: int| 0 <= j < d.len() implies (#[trigger] d[j]).invite.token != token by {
            assert(d[j] == list[j]);
        }
        assert(list[list.len() - 1].invite.token != token);
        lemma_bound_elsewhere(h, d, token);
    }
}


proof fn lemma_bound(h: HubView, now: u64, list: Seq<AdoptionView>, p: int, n: int)
    requires
        under_own_token(h),
        forall|k: Seq<char>| #[trigger] h.invites.dom().contains(k) ==> h.invites[k].token == k,
        h.invites.dom().finite(),
        are_adoptions(h, now, list),
        0 <= p < list.len(),
        0 <= n <= list.len(),
    ensures
        ({
            let out = adopted(h, list.take(n));
            let orphan = orphans(h)[p];
            &&& under_own_token(out)
            &&& p < n ==> {
                &&& out.invites.dom().contains(orphan.token)
                &&& out.invites[orphan.token] == (InviteView {
                    member: out.invites[orphan.token].member,
                    ..orphan
                })
                &&& out.members.dom().contains(out.invites[orphan.token].member)
            }
        }),
    decreases n,
{
    if n > 0 {
        lemma_bound(h, now, list, p, n - 1);
        let mid = adopted(h, list.take(n - 1));
        assert(list.take(n).drop_last() =~= list.take(n - 1));
        assert(list.take(n).last() == list[n - 1]);
        assert(is_adoption(mid, orphans(h)[n - 1], now, list[n - 1]));
        lemma_orphan_token(h, p);
        lemma_orphan_token(h, n - 1);
        lemma_bound_step(mid, orphans(h)[n - 1], now, list[n - 1]);
        assert(adopted(h, list.take(n)) == adopted_one(mid, list[n - 1]));
    }
}

proof fn lemma_orphan_token(h: HubView, j: int)
    requires
        forall|k: Seq<char>| #[trigger] h.invites.dom().contains(k) ==> h.invites[k].token == k,
        h.invites.dom().finite(),
        0 <= j < orphans(h).len(),
    ensures
        h.invites.dom().contains(orphans(h)[j].token),
        h.invites[orphans(h)[j].token] == orphans(h)[j],
        orphans(h)[j].member.len() == 0,
{
    let keys = sorted_keys(h.invites);
    lemma_sorted(h.invites.dom());
    lemma_orphan(h, keys, j);
    let a = choose|k: int|
        0 <= k < keys.len() && picked(h.invites, keys, orphaned())[j] == h.invites[#[trigger] keys[k]];
    assert(keys.to_set().contains(keys[a]));
    assert(h.invites.dom().contains(keys[a]));
}

proof fn lemma_bound_step(mid: HubView, orphan: InviteView, now: u64, a: AdoptionView)
    requires
        under_own_token(mid),
        is_adoption(mid, orphan, now, a),
    ensures
        ({
            let out = adopted_one(mid, a);
            &&& under_own_token(out)
            &&& out.invites == mid.invites.insert(orphan.token, a.invite)
            &&& a.invite == (InviteView { member: a.invite.member, ..orphan })
            &&& out.members.dom().contains(a.invite.member)
            &&& forall|k: Seq<char>| #[trigger]
                mid.members.dom().contains(k) ==> out.members.dom().contains(k)
        }),
{
    let keys = sorted_keys(mid.members);
    lemma_sorted(mid.members.dom());
    assert forall|k: int| 0 <= k < keys.len() implies mid.members.dom().contains(
        #[trigger] keys[k],
    ) by {
        assert(keys.to_set().contains(keys[k]));
    }
    lemma_member_of_name(mid, keys, orphan.name);
}

proof fn lemma_member_of_name(h: HubView, keys: Seq<Seq<char>>, name: Seq<char>)
    requires
        under_own_token(h),
        forall|k: int| 0 <= k < keys.len() ==> h.members.dom().contains(#[trigger] keys[k]),
    ensures
        member_named(h.members, keys, name) matches Some(m) ==> h.members.dom().contains(m.token)
            && m.name == name && h.members[m.token] == m,
    decreases keys.len(),
{
    if keys.len() > 0 {
        assert(h.members.dom().contains(keys[0]));
        let rest = keys.skip(1);
        assert forall|k: int| 0 <= k < rest.len() implies h.members.dom().contains(
            #[trigger] rest[k],
        ) by {
            assert(rest[k] == keys[k + 1]);
        }
        lemma_member_of_name(h, rest, name);
    }
}

/// A member comes back as they were saved: where the binding of davets made new
/// memberships, those stand beside them, each under its own token.
pub proof fn saved_member_comes_back(
    config: HubConfigView,
    s: SavedView,
    settings: RoomSettingsView,
    epoch: u64,
    pairing: AdminPairingView,
    list: Seq<AdoptionView>,
    i: int,
)
    requires
        0 <= i < s.members.len(),
        forall|j: int| i < j < s.members.len() ==> (#[trigger] s.members[j]).token
            != s.members[i].token,
        forall|j: int|
            0 <= j < list.len() ==> ((#[trigger] list[j]).member matches Some(m) ==> m.token
                != s.members[i].token),
    ensures
        ({
            let h = reopened(loaded(config, s, settings, epoch, pairing), s, list);
            h.members.dom().contains(s.members[i].token) && h.members[s.members[i].token]
                == s.members[i]
        }),
{
    let h0 = loaded(config, s, settings, epoch, pairing);
    let names = s.members.map_values(|m: MembershipView| m.token);
    lemma_keyed::<Membership>(s.members, names);
    assert(stands(names, i));
    assert(names[i] == s.members[i].token);
    lemma_bans_elsewhere(homed(cleared(adopted(h0, list)), s.home_journal), s.bans);
    lemma_members_stay(h0, list, s.members[i].token);
}

proof fn lemma_members_stay(h: HubView, list: Seq<AdoptionView>, token: Seq<char>)
    requires
        forall|j: int|
            0 <= j < list.len() ==> ((#[trigger] list[j]).member matches Some(m) ==> m.token
                != token),
    ensures
        adopted(h, list).members.dom().contains(token) == h.members.dom().contains(token),
        adopted(h, list).members[token] == h.members[token],
    decreases list.len(),
{
    if list.len() > 0 {
        let d = list.drop_last();
        assert forall|j: int| 0 <= j < d.len() implies ((#[trigger] d[j]).member matches Some(m)
            ==> m.token != token) by {
            assert(d[j] == list[j]);
        }
        assert(list[list.len() - 1] == list.last());
        lemma_members_stay(h, d, token);
    }
}

// ---- generations ----

proof fn lemma_latest_stamp<T: Stamped>(s: Seq<T::V>, i: int)
    requires
        0 <= i < s.len(),
    ensures
        T::stamp_of(s[i]) <= latest::<T>(s),
    decreases s.len(),
{
    if i < s.len() - 1 {
        lemma_latest_stamp::<T>(s.drop_last(), i);
        assert(s.drop_last()[i] == s[i]);
    }
}

proof fn lemma_latest_room(s: Seq<SavedRoomView>, i: int)
    requires
        0 <= i < s.len(),
    ensures
        room_generation(s[i]) <= largest_generation(s),
    decreases s.len(),
{
    if i < s.len() - 1 {
        lemma_latest_room(s.drop_last(), i);
        assert(s.drop_last()[i] == s[i]);
    }
}

/// A building that opens again goes on from the latest time that any of its records bears:
/// of the last message, of progress of a task or a goal, of a wait.
pub proof fn time_does_not_go_back(
    config: HubConfigView,
    s: SavedView,
    settings: RoomSettingsView,
    epoch: u64,
    pairing: AdminPairingView,
    list: Seq<AdoptionView>,
    i: int,
    j: int,
)
    requires
        0 <= i < s.rooms.len(),
    ensures
        ({
            let r = s.rooms[i];
            let g = reopened(loaded(config, s, settings, epoch, pairing), s, list).generation;
            &&& r.messages.len() > 0 ==> r.messages.last().ts <= g
            &&& 0 <= j < r.tasks.len() ==> r.tasks[j].progress_at <= g
            &&& 0 <= j < r.goals.len() ==> r.goals[j].progress_at <= g
            &&& 0 <= j < r.waits.len() ==> r.waits[j].since <= g
            &&& 0 <= j < r.attentions.len() ==> r.attentions[j].created_at <= g
        }),
{
    let r = s.rooms[i];
    let h0 = loaded(config, s, settings, epoch, pairing);
    lemma_davets_elsewhere(h0, list);
    lemma_bans_elsewhere(homed(cleared(adopted(h0, list)), s.home_journal), s.bans);
    lemma_latest_room(s.rooms, i);
    if 0 <= j < r.tasks.len() {
        lemma_latest_stamp::<Task>(r.tasks, j);
    }
    if 0 <= j < r.goals.len() {
        lemma_latest_stamp::<Goal>(r.goals, j);
    }
    if 0 <= j < r.waits.len() {
        lemma_latest_stamp::<WaitState>(r.waits, j);
    }
    if 0 <= j < r.attentions.len() {
        lemma_latest_stamp::<Attention>(r.attentions, j);
    }
}

} // verus!
