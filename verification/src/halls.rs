//! The rooms of the building: taking a seat, ruling and keeping a room.
//!
//! Where a change has to be stored before it counts, `saved` says whether it was.
use crate::hub::{
    Hub, HubView, hub_ok, is_deleted, lemma_fresh_ok, room_or_fresh, settings_of, with_room,
};
use crate::protocol::{
    ChatMode, ChatModeView, CreateNote, JournalEntry, Message, ModAction, Note, ReminderRecipient,
    RoomSettings, RoomSettingsView, SenderType, ServerFrame, ServerFrameView, SetSettings,
    SetSettingsView, UpdateNote,
};
use crate::record::{
    LeadError, NoteError, changed_note, journal_written, lead_notice, lead_set, make_lead_notice,
    new_entry, new_note, note_created, note_deleted, note_updated,
};
use crate::room::{
    RoomView, active_goal, changed_settings, configured, has_active, joined, left, live_ended,
    mode_set, moderated, room_ok, sane_mode, seats_after_leave, seats_without, sent,
};
use crate::text::{Dup, before, dup_vec, increasing, lemma_before_irreflexive, listed, ov, views};
use crate::work::next_id_after;
use vstd::prelude::*;

verus! {

/// A change was not stored and did not happen.
#[derive(Debug, Clone, Copy, PartialEq, Eq, Structural)]
pub struct NotSaved;

/// Why a room was not sealed.
#[derive(Debug, Clone, Copy, PartialEq, Eq, Structural)]
pub enum DeleteReject {
    NotArchived,
    Storage,
}

/// A seat taken leaves a room in order.
pub proof fn lemma_joined_ok(
    r: RoomView,
    identity: Seq<char>,
    name: Seq<char>,
    kind: SenderType,
    session: u64,
)
    requires
        room_ok(r),
    ensures
        joined(r, identity, name, kind, session) matches Some(n) ==> room_ok(n),
{
    if let Some(n) = joined(r, identity, name, kind, session) {
        assert(n.members.dom() =~= r.members.dom().insert(identity));
        assert forall|k: Seq<char>| n.members.dom().contains(k) implies (
        #[trigger] n.members[k]).connections >= 1 by {
            if k != identity {
                assert(n.members[k] == r.members[k]);
            }
        }
    }
}

/// A connection that ends leaves a room in order.
pub proof fn lemma_left_ok(r: RoomView, identity: Seq<char>)
    requires
        room_ok(r),
    ensures
        room_ok(left(r, identity)),
{
    let m = seats_after_leave(r.members, identity);
    assert forall|k: Seq<char>| m.dom().contains(k) implies (#[trigger] m[k]).connections >= 1 by {
        assert(r.members.dom().contains(k));
        if k != identity {
            assert(m[k] == r.members[k]);
        }
    }
    if r.members.dom().contains(identity) && r.members[identity].connections > 1 {
        assert(m.dom() =~= r.members.dom());
    }
}

/// Moderation leaves a room in order.
pub proof fn lemma_moderated_ok(r: RoomView, action: ModAction, name: Seq<char>)
    requires
        room_ok(r),
    ensures
        room_ok(moderated(r, action, name)),
{
    let m = seats_without(r.members, name);
    assert(m.dom().subset_of(r.members.dom()));
    vstd::set_lib::lemma_len_subset(m.dom(), r.members.dom());
    assert forall|k: Seq<char>| m.dom().contains(k) implies (#[trigger] m[k]).connections >= 1 by {
        assert(m[k] == r.members[k]);
    }
}

/// The building after live mode ran out where it was idle for too long.
pub open spec fn live_expired(h: HubView, now: u64, failed: Seq<Seq<char>>) -> HubView {
    HubView {
        rooms: Map::new(
            |k: Seq<char>| h.rooms.dom().contains(k),
            |k: Seq<char>| live_ended(h.rooms[k], now, !failed.contains(k)),
        ),
        ..h
    }
}

impl Hub {
    /// The messages that greet a connection; `None` where the room is sealed.
    pub fn subscribe(&mut self, room: &str) -> (r: Option<Vec<Message>>)
        ensures
            is_deleted(old(self)@, room@) ==> r is None && final(self)@ == old(self)@,
            !is_deleted(old(self)@, room@) ==> (r matches Some(v) && views(v@) == room_or_fresh(
                old(self)@,
                room@,
            ).history) && final(self)@ == with_room(
                old(self)@,
                room@,
                room_or_fresh(old(self)@, room@),
            ),
            hub_ok(old(self)@) ==> hub_ok(final(self)@),
    {
        if self.is_deleted(room) {
            return None;
        }
        let ghost h = self@;
        let rm = self.take_room(room);
        let ghost rv = rm@;
        let history = dup_vec(&rm.history);
        self.put_room(room, rm);
        proof {
            assert(self@.rooms =~= h.rooms.insert(room@, rv));
            lemma_fresh_ok(ChatModeView::Free, h.default_settings, 1);
        }
        Some(history)
    }

    /// Takes a seat in a room. Tells whether there was one.
    #[must_use]
    pub fn join(&mut self, room: &str, identity: &str, name: &str, kind: SenderType, session: u64) -> (r:
        bool)
        ensures
            ({
                let rm = room_or_fresh(old(self)@, room@);
                let j = joined(rm, identity@, name@, kind, session);
                if is_deleted(old(self)@, room@) {
                    !r && final(self)@ == old(self)@
                } else {
                    r == (j is Some) && final(self)@ == with_room(
                        old(self)@,
                        room@,
                        match j {
                            Some(n) => n,
                            None => rm,
                        },
                    )
                }
            }),
            hub_ok(old(self)@) ==> hub_ok(final(self)@),
    {
        if self.is_deleted(room) {
            return false;
        }
        let ghost h = self@;
        let mut rm = self.take_room(room);
        let ghost r0 = rm@;
        let r = rm.join(identity, name, kind, session);
        let ghost rv = rm@;
        self.put_room(room, rm);
        proof {
            assert(self@.rooms =~= h.rooms.insert(room@, rv));
            lemma_fresh_ok(ChatModeView::Free, h.default_settings, 1);
            if hub_ok(h) {
                lemma_joined_ok(r0, identity@, name@, kind, session);
            }
        }
        r
    }

    /// Ends one connection of a seat.
    pub fn leave(&mut self, room: &str, identity: &str)
        ensures
            final(self)@ == (if old(self)@.rooms.dom().contains(room@) {
                with_room(old(self)@, room@, left(old(self)@.rooms[room@], identity@))
            } else {
                old(self)@
            }),
            hub_ok(old(self)@) ==> hub_ok(final(self)@),
    {
        let ghost h = self@;
        match self.rooms.remove(room) {
            Some(mut rm) => {
                rm.leave(identity);
                let ghost rv = rm@;
                self.put_room(room, rm);
                proof {
                    assert(self@.rooms =~= h.rooms.insert(room@, rv));
                    if hub_ok(h) {
                        lemma_left_ok(h.rooms[room@], identity@);
                    }
                }
            },
            None => {
                assert(self@.rooms =~= h.rooms);
            },
        }
    }

    /// Names or clears the lead of a room. A lead cannot be cleared while a goal
    /// is active.
    pub fn set_lead(
        &mut self,
        room: &str,
        lead: Option<String>,
        by: &str,
        now: u64,
        saved: bool,
    ) -> (r: Result<RoomSettings, LeadError>)
        ensures
            ({
                let h = old(self)@;
                let rm = room_or_fresh(h, room@);
                let notice = lead_notice(room@, ov(lead), by@, h.next_id, now);
                let h1 = HubView { next_id: next_id_after(h.next_id), ..h };
                if is_deleted(h, room@) {
                    (r matches Ok(s) && s@ == settings_of(h, room@)) && final(self)@ == h
                } else if lead is None && has_active(rm.goals) {
                    r == Err::<RoomSettings, _>(LeadError::ActiveGoal) && final(self)@ == h
                } else if !saved {
                    r == Err::<RoomSettings, _>(LeadError::Storage) && final(self)@ == h1
                } else {
                    (r matches Ok(s) && s@ == (RoomSettingsView { lead: ov(lead), ..rm.settings }))
                        && final(self)@ == with_room(h1, room@, lead_set(rm, ov(lead), notice))
                }
            }),
            hub_ok(old(self)@) ==> hub_ok(final(self)@),
    {
        if self.is_deleted(room) {
            return Ok(self.settings(room));
        }
        let ghost h = self@;
        if lead.is_none() {
            if self.has_active_goal_in(room) {
                return Err(LeadError::ActiveGoal);
            }
            assert(!has_active(room_or_fresh(h, room@).goals));
        }
        let id: u64 = self.clock.take_id();
        if !saved {
            return Err(LeadError::Storage);
        }
        let notice = make_lead_notice(room, &lead, by, id, now);
        let mut rm = self.take_room(room);
        let ghost r0 = rm@;
        rm.put_lead(lead, notice);
        let ghost rv = rm@;
        let settings = rm.settings.dup();
        self.put_room(room, rm);
        proof {
            assert(self@.rooms =~= h.rooms.insert(room@, rv));
            lemma_fresh_ok(ChatModeView::Free, h.default_settings, 1);
        }
        Ok(settings)
    }

    /// Whether a room has an active goal.
    pub fn has_active_goal_in(&self, room: &str) -> (r: bool)
        ensures
            r == has_active(room_or_fresh(self@, room@).goals),
    {
        match self.rooms.get(room) {
            Some(r) => r.any_active_goal(),
            None => {
                proof {
                    let g = room_or_fresh(self@, room@).goals;
                    assert forall|i: u64| !#[trigger] active_goal(g, i) by {}
                }
                false
            },
        }
    }

    /// Changes the mode of a room.
    pub fn set_mode(&mut self, room: &str, mode: ChatMode, saved: bool) -> (r: Result<
        ChatMode,
        NotSaved,
    >)
        ensures
            ({
                let h = old(self)@;
                let rm = room_or_fresh(h, room@);
                if is_deleted(h, room@) {
                    (r matches Ok(m) && m@ == (if h.rooms.dom().contains(room@) {
                        h.rooms[room@].mode
                    } else {
                        ChatModeView::Free
                    })) && final(self)@ == h
                } else if !saved {
                    r == Err::<ChatMode, _>(NotSaved) && final(self)@ == with_room(h, room@, rm)
                } else {
                    (r matches Ok(m) && m@ == sane_mode(mode@)) && final(self)@ == with_room(
                        h,
                        room@,
                        mode_set(rm, mode@),
                    )
                }
            }),
            hub_ok(old(self)@) ==> hub_ok(final(self)@),
    {
        if self.is_deleted(room) {
            return Ok(self.mode(room));
        }
        let ghost h = self@;
        proof {
            lemma_fresh_ok(ChatModeView::Free, h.default_settings, 1);
        }
        let mut rm = self.take_room(room);
        let ghost r0 = rm@;
        if !saved {
            self.put_room(room, rm);
            assert(self@.rooms =~= h.rooms.insert(room@, r0));
            return Err(NotSaved);
        }
        rm.set_mode(mode);
        let ghost rv = rm@;
        let out = rm.mode.dup();
        self.put_room(room, rm);
        assert(self@.rooms =~= h.rooms.insert(room@, rv));
        Ok(out)
    }

    /// Changes settings of a room, as far as they are given.
    pub fn set_settings(
        &mut self,
        room: &str,
        rate_limit: Option<u32>,
        window: Option<u32>,
        live: Option<bool>,
        archived: Option<bool>,
        live_timeout: Option<u32>,
        operators: Option<Vec<String>>,
        turn_max_messages: Option<u32>,
        turn_idle_ms: Option<u32>,
        turn_max_wait_ms: Option<u32>,
        care_wait_secs: Option<u32>,
        care_cooldown_secs: Option<u32>,
        care_max_attempts: Option<u32>,
        care_context_messages: Option<u32>,
        care_recipient: Option<ReminderRecipient>,
        care_goal_secs: Option<u32>,
        care_task_secs: Option<u32>,
        care_silence_secs: Option<u32>,
        now: u64,
        saved: bool,
    ) -> (r: Result<RoomSettings, NotSaved>)
        ensures
            ({
                let h = old(self)@;
                let rm = room_or_fresh(h, room@);
                let c = SetSettingsView {
                    rate_limit,
                    rate_window_secs: window,
                    live,
                    archived,
                    live_timeout_secs: live_timeout,
                    operators: match operators {
                        Some(v) => Some(views(v@)),
                        None => None,
                    },
                    turn_max_messages,
                    turn_idle_ms,
                    turn_max_wait_ms,
                    care_wait_secs,
                    care_cooldown_secs,
                    care_max_attempts,
                    care_context_messages,
                    care_recipient: ov(care_recipient),
                    care_goal_secs,
                    care_task_secs,
                    care_silence_secs,
                };
                if is_deleted(h, room@) {
                    (r matches Ok(s) && s@ == settings_of(h, room@)) && final(self)@ == h
                } else if !saved {
                    r == Err::<RoomSettings, _>(NotSaved) && final(self)@ == with_room(h, room@, rm)
                } else {
                    (r matches Ok(s) && s@ == changed_settings(rm.settings, c)) && final(self)@
                        == with_room(h, room@, configured(rm, c, now))
                }
            }),
            hub_ok(old(self)@) ==> hub_ok(final(self)@),
    {
        if self.is_deleted(room) {
            return Ok(self.settings(room));
        }
        let ghost h = self@;
        proof {
            lemma_fresh_ok(ChatModeView::Free, h.default_settings, 1);
        }
        let mut rm = self.take_room(room);
        let ghost r0 = rm@;
        if !saved {
            self.put_room(room, rm);
            assert(self@.rooms =~= h.rooms.insert(room@, r0));
            return Err(NotSaved);
        }
        rm.configure(
            SetSettings {
                rate_limit,
                rate_window_secs: window,
                live,
                archived,
                live_timeout_secs: live_timeout,
                operators,
                turn_max_messages,
                turn_idle_ms,
                turn_max_wait_ms,
                care_wait_secs,
                care_cooldown_secs,
                care_max_attempts,
                care_context_messages,
                care_recipient,
                care_goal_secs,
                care_task_secs,
                care_silence_secs,
            },
            now,
        );
        let ghost rv = rm@;
        let out = rm.settings.dup();
        self.put_room(room, rm);
        assert(self@.rooms =~= h.rooms.insert(room@, rv));
        Ok(out)
    }

    /// Seals a closed room. Its last frames go to `parting`. Tells whether there
    /// was such a room.
    pub fn delete_room(&mut self, room: &str, saved: bool, parting: &mut Vec<ServerFrame>) -> (r: Result<
        bool,
        DeleteReject,
    >)
        ensures
            ({
                let h = old(self)@;
                let unchanged = final(self)@ == h && final(parting)@ == old(parting)@;
                if !h.rooms.dom().contains(room@) {
                    r == Ok::<bool, DeleteReject>(false) && unchanged
                } else if !h.rooms[room@].settings.archived {
                    r == Err::<bool, _>(DeleteReject::NotArchived) && unchanged
                } else if !saved {
                    r == Err::<bool, _>(DeleteReject::Storage) && unchanged
                } else {
                    &&& r == Ok::<bool, DeleteReject>(true)
                    &&& final(self)@ == (HubView {
                        rooms: h.rooms.remove(room@),
                        deleted: h.deleted.insert(room@),
                        ..h
                    })
                    &&& views(final(parting)@) == views(old(parting)@) + sent(
                        h.rooms[room@],
                        ServerFrameView::Control { cmd: "room-closed"@ },
                    ).tx
                }
            }),
            hub_ok(old(self)@) ==> hub_ok(final(self)@),
    {
        match self.rooms.get(room) {
            None => return Ok(false),
            Some(rm) => if !rm.settings.archived {
                return Err(DeleteReject::NotArchived);
            },
        }
        if !saved {
            return Err(DeleteReject::Storage);
        }
        if let Some(mut rm) = self.rooms.remove(room) {
            rm.send(ServerFrame::Control { cmd: "room-closed".to_owned() });
            let ghost a = parting@;
            let ghost b = rm.tx@;
            parting.append(&mut rm.tx);
            assert(views(parting@) =~= views(a) + views(b));
        }
        self.deleted.insert(room);
        Ok(true)
    }

    /// Ends live mode in the rooms where it has been idle for too long. `failed`
    /// names the rooms for which that could not be stored.
    pub fn expire_live(&mut self, now: u64, failed: &Vec<String>)
        ensures
            final(self)@ == live_expired(old(self)@, now, views(failed@)),
            hub_ok(old(self)@) ==> hub_ok(final(self)@),
    {
        let keys = self.rooms.keys();
        let ghost ks = views(keys@);
        let ghost h = self@;
        let ghost goal = live_expired(h, now, views(failed@)).rooms;
        let mut i: usize = 0;
        while i < keys.len()
            invariant
                i <= keys@.len(),
                ks == views(keys@),
                increasing(ks),
                ks.to_set() == h.rooms.dom(),
                goal == live_expired(h, now, views(failed@)).rooms,
                self@ == (HubView { rooms: self@.rooms, ..h }),
                self@.rooms.dom() =~= h.rooms.dom(),
                forall|k: Seq<char>| #[trigger]
                    h.rooms.dom().contains(k) ==> self@.rooms[k] == (if ks.take(i as int).contains(
                        k,
                    ) {
                        goal[k]
                    } else {
                        h.rooms[k]
                    }),
            decreases keys@.len() - i,
        {
            let ghost key = ks[i as int];
            let ghost t0 = ks.take(i as int);
            let ghost t1 = ks.take(i as int + 1);
            let ghost m0 = self@.rooms;
            proof {
                assert(ks.contains(key));
                assert(ks.to_set().contains(key));
                lemma_take_next(ks, i as int);
            }
            if let Some(mut rm) = self.rooms.remove(keys[i].as_str()) {
                let saved = !listed(failed, keys[i].as_str());
                rm.expire_live(now, saved);
                let ghost rv = rm@;
                assert(rv == goal[key]);
                self.put_room(keys[i].as_str(), rm);
                assert(self@.rooms =~= m0.insert(key, rv));
            }
            proof {
                assert(self@.rooms.dom() =~= h.rooms.dom());
            }
            i += 1;
        }
        proof {
            assert(ks.take(ks.len() as int) =~= ks);
            assert forall|k: Seq<char>| #[trigger] h.rooms.dom().contains(k) implies self@.rooms[k]
                == goal[k] by {
                assert(ks.to_set().contains(k));
            }
            assert(self@.rooms =~= goal);
        }
    }

    /// Writes a line into the journal of a room.
    pub fn append_journal(
        &mut self,
        room: &str,
        by: String,
        by_type: SenderType,
        text: String,
        now: u64,
        saved: bool,
    ) -> (r: Result<JournalEntry, NotSaved>)
        requires
            room_or_fresh(old(self)@, room@).next_journal_id < u64::MAX,
        ensures
            ({
                let h = old(self)@;
                let rm = room_or_fresh(h, room@);
                let e = new_entry(rm.next_journal_id, room@, by@, by_type, text@, now);
                if saved {
                    (r matches Ok(x) && x@ == e) && final(self)@ == with_room(
                        h,
                        room@,
                        journal_written(rm, e),
                    )
                } else {
                    r == Err::<JournalEntry, _>(NotSaved) && final(self)@ == h
                }
            }),
            hub_ok(old(self)@) ==> hub_ok(final(self)@),
    {
        if !saved {
            return Err(NotSaved);
        }
        let ghost h = self@;
        let mut rm = self.take_room(room);
        let e = rm.append_journal(room, by, by_type, text, now);
        let ghost rv = rm@;
        self.put_room(room, rm);
        proof {
            assert(self@.rooms =~= h.rooms.insert(room@, rv));
            lemma_fresh_ok(ChatModeView::Free, h.default_settings, 1);
        }
        Ok(e)
    }

    /// Creates a note in a room.
    pub fn create_note(&mut self, room: &str, req: CreateNote, now: u64, saved: bool) -> (r: Result<
        Note,
        NoteError,
    >)
        requires
            room_or_fresh(old(self)@, room@).next_rev < u64::MAX,
        ensures
            ({
                let h = old(self)@;
                let rm = room_or_fresh(h, room@);
                let n = new_note(req@, now, rm.next_rev);
                if rm.notes.dom().contains(req@.key) {
                    r == Err::<Note, _>(NoteError::Exists) && final(self)@ == h
                } else if !saved {
                    r == Err::<Note, _>(NoteError::Storage) && final(self)@ == h
                } else {
                    (r matches Ok(x) && x@ == n) && final(self)@ == with_room(
                        h,
                        room@,
                        note_created(rm, n),
                    )
                }
            }),
            hub_ok(old(self)@) ==> hub_ok(final(self)@),
    {
        let taken = match self.rooms.get(room) {
            Some(rm) => rm.notes.contains(req.key.as_str()),
            None => false,
        };
        if taken {
            return Err(NoteError::Exists);
        }
        if !saved {
            return Err(NoteError::Storage);
        }
        let ghost h = self@;
        let mut rm = self.take_room(room);
        let made = rm.create_note(req, now);
        let ghost rv = rm@;
        self.put_room(room, rm);
        proof {
            assert(self@.rooms =~= h.rooms.insert(room@, rv));
            lemma_fresh_ok(ChatModeView::Free, h.default_settings, 1);
        }
        match made {
            Some(n) => Ok(n),
            None => Err(NoteError::Exists),
        }
    }

    /// Changes a note of a room.
    pub fn update_note(
        &mut self,
        room: &str,
        key: &str,
        req: UpdateNote,
        is_operator: bool,
        now: u64,
        saved: bool,
    ) -> (r: Result<Note, NoteError>)
        requires
            old(self)@.rooms.dom().contains(room@) ==> old(self)@.rooms[room@].next_rev < u64::MAX,
        ensures
            ({
                let h = old(self)@;
                let rm = h.rooms[room@];
                if !h.rooms.dom().contains(room@) || !rm.notes.dom().contains(key@) {
                    r == Err::<Note, _>(NoteError::NotFound) && final(self)@ == h
                } else if !saved {
                    r == Err::<Note, _>(NoteError::Storage) && final(self)@ == h
                } else {
                    (r matches Ok(x) && x@ == changed_note(
                        rm.notes[key@],
                        req@,
                        is_operator,
                        now,
                        rm.next_rev,
                    )) && final(self)@ == with_room(
                        h,
                        room@,
                        note_updated(rm, key@, req@, is_operator, now),
                    )
                }
            }),
            hub_ok(old(self)@) ==> hub_ok(final(self)@),
    {
        let known = match self.rooms.get(room) {
            Some(rm) => rm.notes.contains(key),
            None => false,
        };
        if !known {
            return Err(NoteError::NotFound);
        }
        if !saved {
            return Err(NoteError::Storage);
        }
        let ghost h = self@;
        let mut rm = self.take_room(room);
        let made = rm.update_note(key, req, is_operator, now);
        let ghost rv = rm@;
        self.put_room(room, rm);
        assert(self@.rooms =~= h.rooms.insert(room@, rv));
        match made {
            Some(n) => Ok(n),
            None => Err(NoteError::NotFound),
        }
    }

    /// Deletes a note of a room. Tells whether there was one.
    pub fn delete_note(&mut self, room: &str, key: &str, saved: bool) -> (r: Result<bool, NotSaved>)
        ensures
            ({
                let h = old(self)@;
                if !h.rooms.dom().contains(room@) || !h.rooms[room@].notes.dom().contains(key@) {
                    r == Ok::<bool, NotSaved>(false) && final(self)@ == h
                } else if !saved {
                    r == Err::<bool, _>(NotSaved) && final(self)@ == h
                } else {
                    r == Ok::<bool, NotSaved>(true) && final(self)@ == with_room(
                        h,
                        room@,
                        note_deleted(h.rooms[room@], key@),
                    )
                }
            }),
            hub_ok(old(self)@) ==> hub_ok(final(self)@),
    {
        let known = match self.rooms.get(room) {
            Some(rm) => rm.notes.contains(key),
            None => false,
        };
        if !known {
            return Ok(false);
        }
        if !saved {
            return Err(NotSaved);
        }
        let ghost h = self@;
        let mut rm = self.take_room(room);
        rm.delete_note(key);
        let ghost rv = rm@;
        self.put_room(room, rm);
        assert(self@.rooms =~= h.rooms.insert(room@, rv));
        Ok(true)
    }
}

/// One more of a list: what is in it, and that it was not in it before.
pub proof fn lemma_take_next(ks: Seq<Seq<char>>, i: int)
    requires
        increasing(ks),
        0 <= i < ks.len(),
    ensures
        !ks.take(i).contains(ks[i]),
        forall|k: Seq<char>| #[trigger]
            ks.take(i + 1).contains(k) <==> ks.take(i).contains(k) || k == ks[i],
{
    let t0 = ks.take(i);
    let t1 = ks.take(i + 1);
    if t0.contains(ks[i]) {
        let j = choose|j: int| 0 <= j < t0.len() && t0[j] == ks[i];
        assert(before(ks[j], ks[i]));
        lemma_before_irreflexive(ks[i]);
    }
    assert forall|k: Seq<char>| #[trigger] t1.contains(k) <==> t0.contains(k) || k == ks[i] by {
        if t0.contains(k) {
            let j = choose|j: int| 0 <= j < t0.len() && t0[j] == k;
            assert(t1[j] == k);
        }
        assert(t1[i] == ks[i]);
        if t1.contains(k) && k != ks[i] {
            let j = choose|j: int| 0 <= j < t1.len() && t1[j] == k;
            assert(t0[j] == k);
        }
    }
}

} // verus!
