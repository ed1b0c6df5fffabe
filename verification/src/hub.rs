//! The hub: the building and everything in it.
use crate::authority::{SessionIdentity, SessionIdentityView, fetch, lookup};
use crate::protocol::{
    ChatMode, ChatModeView, Goal, GoalView, Invite, InviteView, JournalEntry, JournalEntryView,
    Member, MemberView, Membership, MembershipView, Message, MessageView, ModState, ModStateView,
    Note, NoteView, RoomSettings, RoomSettingsView, ServerFrame, ServerFrameView, Task, TaskView,
    WaitState, WaitStateView,
};
use crate::room::{Room, RoomView, fresh_room, mod_state, room_ok, roster, sent};
use crate::runtime::{RuntimeRecord, RuntimeRecordView};
use crate::table::{
    IdMap, StrMap, StrSet, id_sorted_values, sorted_ids, sorted_keys, sorted_set, sorted_values,
};
use crate::text::{Dup, dup_vec, increasing, lemma_views_push, opt_is, ov, same, views};
use crate::work::{Clock, next_id_after};
use vstd::prelude::*;

verus! {

/// How long a session that carries authority lasts where nobody asks otherwise.
pub const ADMIN_SESSION_TTL_MS: u64 = 43200000;

/// The shortest such session.
pub const MIN_ADMIN_SESSION_TTL_MS: u64 = 3600000;

/// The longest such session.
pub const MAX_ADMIN_SESSION_TTL_MS: u64 = 31536000000;

/// How long a pairing code is good.
pub const ADMIN_PAIRING_TTL_MS: u64 = 300000;

/// How many requests to join may be pending.
pub const MAX_PENDING_JOIN_REQUESTS: usize = 200;

/// The window in which requests to join are counted.
pub const JOIN_CREATE_WINDOW_MS: u64 = 60000;

/// How many requests to join one source may make within the window.
pub const JOIN_CREATE_MAX_IN_WINDOW: usize = 30;

/// A one-use code that opens a session of the master.
pub struct AdminPairing {
    pub code: String,
    pub session_ttl_ms: u64,
    pub expires_at_ms: u64,
}

/// The view of an [`AdminPairing`].
pub struct AdminPairingView {
    pub code: Seq<char>,
    pub session_ttl_ms: u64,
    pub expires_at_ms: u64,
}

impl View for AdminPairing {
    type V = AdminPairingView;

    open spec fn view(&self) -> AdminPairingView {
        AdminPairingView {
            code: self.code@,
            session_ttl_ms: self.session_ttl_ms,
            expires_at_ms: self.expires_at_ms,
        }
    }
}

/// What the lobby tells a member.
#[derive(Debug)]
pub enum LobbyEvent {
    /// The member was called into a room.
    Called { member: String, room: String, token: String },
    /// The membership ended.
    MembershipRevoked { member: String },
}

/// The view of a [`LobbyEvent`].
pub enum LobbyEventView {
    Called { member: Seq<char>, room: Seq<char>, token: Seq<char> },
    MembershipRevoked { member: Seq<char> },
}

impl View for LobbyEvent {
    type V = LobbyEventView;

    open spec fn view(&self) -> LobbyEventView {
        match self {
            LobbyEvent::Called { member, room, token } => LobbyEventView::Called {
                member: member@,
                room: room@,
                token: token@,
            },
            LobbyEvent::MembershipRevoked { member } => LobbyEventView::MembershipRevoked {
                member: member@,
            },
        }
    }
}

/// The member whom an event concerns.
pub open spec fn event_member(e: LobbyEventView) -> Seq<char> {
    match e {
        LobbyEventView::Called { member, .. } => member,
        LobbyEventView::MembershipRevoked { member } => member,
    }
}

impl LobbyEvent {
    /// The member whom the event concerns.
    pub fn member(&self) -> (r: &str)
        ensures
            r@ == event_member(self@),
    {
        match self {
            LobbyEvent::Called { member, .. } => member.as_str(),
            LobbyEvent::MembershipRevoked { member } => member.as_str(),
        }
    }
}

/// How the building is set up.
pub struct HubConfig {
    pub admin_token: String,
    pub room_token: String,
    pub require_sessions: bool,
    pub require_invite: bool,
    pub home_room: String,
    pub reserved_room: String,
    pub caretakers: StrSet,
}

/// The view of a [`HubConfig`].
pub struct HubConfigView {
    pub admin_token: Seq<char>,
    pub room_token: Seq<char>,
    pub require_sessions: bool,
    pub require_invite: bool,
    pub home_room: Seq<char>,
    pub reserved_room: Seq<char>,
    pub caretakers: Set<Seq<char>>,
}

impl View for HubConfig {
    type V = HubConfigView;

    open spec fn view(&self) -> HubConfigView {
        HubConfigView {
            admin_token: self.admin_token@,
            room_token: self.room_token@,
            require_sessions: self.require_sessions,
            require_invite: self.require_invite,
            home_room: self.home_room@,
            reserved_room: self.reserved_room@,
            caretakers: self.caretakers@,
        }
    }
}

/// The building. `lobby_tx` holds the events that were sent to the lobby and
/// have not been handed out.
pub struct Hub {
    pub rooms: StrMap<Room>,
    pub deleted: StrSet,
    pub clock: Clock,
    pub admin_token: String,
    pub room_token: String,
    pub default_settings: RoomSettings,
    pub epoch: u64,
    pub members: StrMap<Membership>,
    pub smasters: StrMap<String>,
    pub sessions: StrMap<SessionIdentity>,
    pub admin_pairing: AdminPairing,
    pub join_create_times: StrMap<Vec<u64>>,
    pub require_sessions: bool,
    pub require_invite: bool,
    pub invites: StrMap<Invite>,
    pub lobby_tx: Vec<LobbyEvent>,
    pub lobby_online: StrMap<usize>,
    pub runtime_health: StrMap<RuntimeRecord>,
    pub care_deliveries: StrMap<String>,
    pub home_room: String,
    pub reserved_room: String,
    pub caretakers: StrSet,
}

/// The view of a [`Hub`].
pub struct HubView {
    pub rooms: Map<Seq<char>, RoomView>,
    pub deleted: Set<Seq<char>>,
    pub next_id: u64,
    pub generation: u64,
    pub admin_token: Seq<char>,
    pub room_token: Seq<char>,
    pub default_settings: RoomSettingsView,
    pub epoch: u64,
    pub members: Map<Seq<char>, MembershipView>,
    pub smasters: Map<Seq<char>, Seq<char>>,
    pub sessions: Map<Seq<char>, SessionIdentityView>,
    pub admin_pairing: AdminPairingView,
    pub join_create_times: Map<Seq<char>, Seq<u64>>,
    pub require_sessions: bool,
    pub require_invite: bool,
    pub invites: Map<Seq<char>, InviteView>,
    pub lobby_tx: Seq<LobbyEventView>,
    pub lobby_online: Map<Seq<char>, usize>,
    pub runtime_health: Map<Seq<char>, RuntimeRecordView>,
    pub care_deliveries: Map<Seq<char>, Seq<char>>,
    pub home_room: Seq<char>,
    pub reserved_room: Seq<char>,
    pub caretakers: Set<Seq<char>>,
}

impl View for Hub {
    type V = HubView;

    open spec fn view(&self) -> HubView {
        HubView {
            rooms: self.rooms@,
            deleted: self.deleted@,
            next_id: self.clock.next_id,
            generation: self.clock.generation,
            admin_token: self.admin_token@,
            room_token: self.room_token@,
            default_settings: self.default_settings@,
            epoch: self.epoch,
            members: self.members@,
            smasters: self.smasters@,
            sessions: self.sessions@,
            admin_pairing: self.admin_pairing@,
            join_create_times: self.join_create_times@,
            require_sessions: self.require_sessions,
            require_invite: self.require_invite,
            invites: self.invites@,
            lobby_tx: views(self.lobby_tx@),
            lobby_online: self.lobby_online@,
            runtime_health: self.runtime_health@,
            care_deliveries: self.care_deliveries@,
            home_room: self.home_room@,
            reserved_room: self.reserved_room@,
            caretakers: self.caretakers@,
        }
    }
}

/// What the building keeps at all times: every room is in order.
pub open spec fn hub_ok(h: HubView) -> bool {
    forall|k: Seq<char>| h.rooms.dom().contains(k) ==> room_ok(#[trigger] h.rooms[k])
}

/// A room, or the fresh one that takes its place where there is none.
pub open spec fn room_or_fresh(h: HubView, room: Seq<char>) -> RoomView {
    if h.rooms.dom().contains(room) {
        h.rooms[room]
    } else {
        fresh_room(ChatModeView::Free, h.default_settings, 1)
    }
}

/// The building with a room as given.
pub open spec fn with_room(h: HubView, room: Seq<char>, r: RoomView) -> HubView {
    HubView { rooms: h.rooms.insert(room, r), ..h }
}

/// Whether a room was sealed. The home room cannot be.
pub open spec fn is_deleted(h: HubView, room: Seq<char>) -> bool {
    room != h.home_room && h.deleted.contains(room)
}

/// Whether a room is closed.
pub open spec fn is_archived(h: HubView, room: Seq<char>) -> bool {
    h.rooms.dom().contains(room) && h.rooms[room].settings.archived
}

/// Whether a room takes writes.
pub open spec fn is_writable(h: HubView, room: Seq<char>) -> bool {
    !is_deleted(h, room) && !is_archived(h, room)
}

/// The settings of a room, or those that it would begin with.
pub open spec fn settings_of(h: HubView, room: Seq<char>) -> RoomSettingsView {
    if h.rooms.dom().contains(room) {
        h.rooms[room].settings
    } else {
        h.default_settings
    }
}

/// A fresh room is in order.
pub proof fn lemma_fresh_ok(mode: ChatModeView, settings: RoomSettingsView, next_rev: u64)
    ensures
        room_ok(fresh_room(mode, settings, next_rev)),
{
}

impl Hub {
    /// Takes a room out, to be put back changed.
    pub(crate) fn take_room(&mut self, room: &str) -> (r: Room)
        ensures
            r@ == room_or_fresh(old(self)@, room@),
            final(self)@ == (HubView { rooms: old(self)@.rooms.remove(room@), ..old(self)@ }),
    {
        match self.rooms.remove(room) {
            Some(r) => r,
            None => Room::with(ChatMode::Free, self.default_settings.dup(), 1),
        }
    }

    /// Puts a room in.
    pub(crate) fn put_room(&mut self, room: &str, r: Room)
        ensures
            final(self)@ == with_room(old(self)@, room@, r@),
    {
        self.rooms.insert(room.to_owned(), r);
    }

    /// Whether a room was sealed.
    pub fn is_deleted(&self, room: &str) -> (r: bool)
        ensures
            r == is_deleted(self@, room@),
    {
        !same(room, self.home_room.as_str()) && self.deleted.contains(room)
    }

    /// Whether a room is closed.
    pub fn is_archived(&self, room: &str) -> (r: bool)
        ensures
            r == is_archived(self@, room@),
    {
        match self.rooms.get(room) {
            Some(r) => r.settings.archived,
            None => false,
        }
    }

    /// Whether a room takes writes.
    pub fn is_writable(&self, room: &str) -> (r: bool)
        ensures
            r == is_writable(self@, room@),
    {
        !self.is_deleted(room) && !self.is_archived(room)
    }

    /// Opens a sealed room again.
    pub fn revive(&mut self, room: &str)
        ensures
            final(self)@ == (HubView { deleted: old(self)@.deleted.remove(room@), ..old(self)@ }),
    {
        self.deleted.remove(room);
    }

    /// The home of the caretakers.
    pub fn home_room(&self) -> (r: &str)
        ensures
            r@ == self@.home_room,
    {
        self.home_room.as_str()
    }

    /// Whether a room is kept for the building's own people.
    pub fn is_reserved_room(&self, room: &str) -> (r: bool)
        ensures
            r == (self@.reserved_room.len() > 0 && room@ == self@.reserved_room),
    {
        !self.reserved_room.as_str().is_empty() && same(room, self.reserved_room.as_str())
    }

    /// Whether somebody is a caretaker.
    pub fn is_caretaker(&self, name: &str) -> (r: bool)
        ensures
            r == self@.caretakers.contains(name@),
    {
        self.caretakers.contains(name)
    }

    /// The caretakers, in order.
    pub fn caretaker_names(&self) -> (r: Vec<String>)
        ensures
            views(r@) == sorted_set(self@.caretakers),
            increasing(views(r@)),
            views(r@).to_set() == self@.caretakers,
    {
        self.caretakers.list()
    }

    /// When the building was started.
    pub fn epoch(&self) -> (r: u64)
        ensures
            r == self@.epoch,
    {
        self.epoch
    }

    /// Whether one must have a session to speak.
    pub fn require_sessions(&self) -> (r: bool)
        ensures
            r == self@.require_sessions,
    {
        self.require_sessions
    }

    /// Takes a number that names a connection.
    pub fn next_session_id(&mut self) -> (r: u64)
        ensures
            r == old(self)@.next_id,
            final(self)@ == (HubView { next_id: next_id_after(old(self)@.next_id), ..old(self)@ }),
    {
        self.clock.take_id()
    }

    /// The mode of a room.
    pub fn mode(&self, room: &str) -> (r: ChatMode)
        ensures
            r@ == (if self@.rooms.dom().contains(room@) {
                self@.rooms[room@].mode
            } else {
                ChatModeView::Free
            }),
    {
        match self.rooms.get(room) {
            Some(r) => r.mode.dup(),
            None => ChatMode::Free,
        }
    }

    /// Whether a room is live.
    pub fn is_live(&self, room: &str) -> (r: bool)
        ensures
            r == (self@.rooms.dom().contains(room@) && self@.rooms[room@].settings.live),
    {
        match self.rooms.get(room) {
            Some(r) => r.settings.live,
            None => false,
        }
    }

    /// Whether somebody leads a room.
    pub fn is_lead(&self, room: &str, name: &str) -> (r: bool)
        ensures
            r == (self@.rooms.dom().contains(room@) && self@.rooms[room@].settings.lead == Some(
                name@,
            )),
    {
        match self.rooms.get(room) {
            Some(r) => opt_is(&r.settings.lead, name),
            None => false,
        }
    }

    /// The settings of a room.
    pub fn settings(&self, room: &str) -> (r: RoomSettings)
        ensures
            r@ == settings_of(self@, room@),
    {
        match self.rooms.get(room) {
            Some(r) => r.settings.dup(),
            None => self.default_settings.dup(),
        }
    }

    /// Whether somebody is banned from a room.
    pub fn is_banned(&self, room: &str, name: &str) -> (r: bool)
        ensures
            r == (self@.rooms.dom().contains(room@) && self@.rooms[room@].banned.contains(name@)),
    {
        match self.rooms.get(room) {
            Some(r) => r.banned.contains(name),
            None => false,
        }
    }

    /// The roster of a room.
    pub fn members(&self, room: &str) -> (r: Vec<Member>)
        ensures
            views(r@) == (if self@.rooms.dom().contains(room@) {
                roster(self@.rooms[room@].members)
            } else {
                Seq::empty()
            }),
    {
        match self.rooms.get(room) {
            Some(r) => r.member_list(),
            None => {
                let none: Vec<Member> = Vec::new();
                assert(views(none@) =~= Seq::<MemberView>::empty());
                none
            },
        }
    }

    /// Who is muted and who is banned in a room.
    pub fn mod_state(&self, room: &str) -> (r: ModState)
        ensures
            self@.rooms.dom().contains(room@) ==> r@ == mod_state(self@.rooms[room@]),
            !self@.rooms.dom().contains(room@) ==> r@ == (ModStateView {
                muted: Seq::empty(),
                banned: Seq::empty(),
            }),
    {
        match self.rooms.get(room) {
            Some(r) => r.mod_state(),
            None => ModState::default(),
        }
    }

    /// The messages that a room has at hand.
    pub fn recent_messages(&self, room: &str) -> (r: Vec<Message>)
        ensures
            views(r@) == (if self@.rooms.dom().contains(room@) {
                self@.rooms[room@].history
            } else {
                Seq::empty()
            }),
    {
        match self.rooms.get(room) {
            Some(r) => dup_vec(&r.history),
            None => {
                let none: Vec<Message> = Vec::new();
                assert(views(none@) =~= Seq::<MessageView>::empty());
                none
            },
        }
    }

    /// The journal of a room.
    pub fn journal(&self, room: &str) -> (r: Vec<JournalEntry>)
        ensures
            views(r@) == (if self@.rooms.dom().contains(room@) {
                self@.rooms[room@].journal
            } else {
                Seq::empty()
            }),
    {
        match self.rooms.get(room) {
            Some(r) => dup_vec(&r.journal),
            None => {
                let none: Vec<JournalEntry> = Vec::new();
                assert(views(none@) =~= Seq::<JournalEntryView>::empty());
                none
            },
        }
    }

    /// A note of a room.
    pub fn note(&self, room: &str, key: &str) -> (r: Option<Note>)
        ensures
            ov(r) == (if self@.rooms.dom().contains(room@) {
                lookup(self@.rooms[room@].notes, key@)
            } else {
                None
            }),
    {
        match self.rooms.get(room) {
            Some(r) => fetch(&r.notes, key),
            None => None,
        }
    }

    /// The notes of a room, ordered by key.
    pub fn notes(&self, room: &str) -> (r: Vec<Note>)
        ensures
            views(r@) == (if self@.rooms.dom().contains(room@) {
                sorted_values(self@.rooms[room@].notes)
            } else {
                Seq::empty()
            }),
    {
        match self.rooms.get(room) {
            Some(r) => values_of(&r.notes),
            None => {
                let none: Vec<Note> = Vec::new();
                assert(views(none@) =~= Seq::<NoteView>::empty());
                none
            },
        }
    }

    /// The waits of a room, ordered by waiter.
    pub fn waits(&self, room: &str) -> (r: Vec<WaitState>)
        ensures
            views(r@) == (if self@.rooms.dom().contains(room@) {
                sorted_values(self@.rooms[room@].waits)
            } else {
                Seq::empty()
            }),
    {
        match self.rooms.get(room) {
            Some(r) => values_of(&r.waits),
            None => {
                let none: Vec<WaitState> = Vec::new();
                assert(views(none@) =~= Seq::<WaitStateView>::empty());
                none
            },
        }
    }

    /// The tasks of a room, ordered by number.
    pub fn tasks(&self, room: &str) -> (r: Vec<Task>)
        ensures
            views(r@) == (if self@.rooms.dom().contains(room@) {
                id_sorted_values(self@.rooms[room@].tasks)
            } else {
                Seq::empty()
            }),
    {
        match self.rooms.get(room) {
            Some(r) => numbered_values(&r.tasks),
            None => {
                let none: Vec<Task> = Vec::new();
                assert(views(none@) =~= Seq::<TaskView>::empty());
                none
            },
        }
    }

    /// The goals of a room, ordered by number.
    pub fn goals(&self, room: &str) -> (r: Vec<Goal>)
        ensures
            views(r@) == (if self@.rooms.dom().contains(room@) {
                id_sorted_values(self@.rooms[room@].goals)
            } else {
                Seq::empty()
            }),
    {
        match self.rooms.get(room) {
            Some(r) => numbered_values(&r.goals),
            None => {
                let none: Vec<Goal> = Vec::new();
                assert(views(none@) =~= Seq::<GoalView>::empty());
                none
            },
        }
    }

    /// Sends a control word to a room.
    pub fn control(&mut self, room: &str, cmd: &str)
        ensures
            final(self)@ == told(old(self)@, room@, ServerFrameView::Control { cmd: cmd@ }),
    {
        self.tell(room, ServerFrame::Control { cmd: cmd.to_owned() });
    }

    /// Tells a room that somebody types.
    pub fn typing(&mut self, room: &str, name: &str, on: bool)
        ensures
            final(self)@ == told(old(self)@, room@, ServerFrameView::Typing { name: name@, on }),
    {
        self.tell(room, ServerFrame::Typing { name: name.to_owned(), on });
    }

    /// Sends a frame to a room, where there is one.
    pub(crate) fn tell(&mut self, room: &str, f: ServerFrame)
        ensures
            final(self)@ == told(old(self)@, room@, f@),
    {
        match self.rooms.remove(room) {
            Some(mut r) => {
                r.send(f);
                self.put_room(room, r);
                assert(self@.rooms =~= old(self)@.rooms.insert(room@, r@));
            },
            None => {
                assert(self@.rooms =~= old(self)@.rooms);
            },
        }
    }

    /// Hands out the frames that a room has sent.
    pub fn take_frames(&mut self, room: &str) -> (r: Vec<ServerFrame>)
        ensures
            views(r@) == (if old(self)@.rooms.dom().contains(room@) {
                old(self)@.rooms[room@].tx
            } else {
                Seq::empty()
            }),
            final(self)@ == (if old(self)@.rooms.dom().contains(room@) {
                with_room(
                    old(self)@,
                    room@,
                    RoomView { tx: Seq::empty(), ..old(self)@.rooms[room@] },
                )
            } else {
                old(self)@
            }),
    {
        match self.rooms.remove(room) {
            Some(mut r) => {
                let mut out: Vec<ServerFrame> = Vec::new();
                std::mem::swap(&mut r.tx, &mut out);
                assert(r@.tx =~= Seq::<ServerFrameView>::empty());
                self.put_room(room, r);
                assert(self@.rooms =~= old(self)@.rooms.insert(room@, r@));
                out
            },
            None => {
                let none: Vec<ServerFrame> = Vec::new();
                assert(views(none@) =~= Seq::<ServerFrameView>::empty());
                assert(self@.rooms =~= old(self)@.rooms);
                none
            },
        }
    }

    /// Hands out the events that were sent to the lobby.
    pub fn take_lobby_events(&mut self) -> (r: Vec<LobbyEvent>)
        ensures
            views(r@) == old(self)@.lobby_tx,
            final(self)@ == (HubView { lobby_tx: Seq::empty(), ..old(self)@ }),
    {
        let mut out: Vec<LobbyEvent> = Vec::new();
        std::mem::swap(&mut self.lobby_tx, &mut out);
        assert(self@.lobby_tx =~= Seq::<LobbyEventView>::empty());
        out
    }
}

/// The building after a frame was sent to a room.
pub open spec fn told(h: HubView, room: Seq<char>, f: ServerFrameView) -> HubView {
    if h.rooms.dom().contains(room) {
        with_room(h, room, sent(h.rooms[room], f))
    } else {
        h
    }
}

/// Copies of the values of a map, in the order of their keys.
pub fn values_of<T: Dup>(m: &StrMap<T>) -> (r: Vec<T>)
    ensures
        views(r@) == sorted_values(m@),
{
    let n = m.len();
    let mut r: Vec<T> = Vec::new();
    let mut i: usize = 0;
    while i < n
        invariant
            i <= n == sorted_keys(m@).len(),
            views(r@) =~= sorted_values(m@).take(i as int),
        decreases n - i,
    {
        let v = m.at(i).1.dup();
        proof {
            lemma_views_push(r@, v);
        }
        r.push(v);
        i += 1;
        assert(sorted_values(m@).take(i as int) =~= sorted_values(m@).take(i as int - 1).push(
            sorted_values(m@)[i as int - 1],
        ));
    }
    assert(sorted_values(m@).take(n as int) =~= sorted_values(m@));
    r
}

/// Copies of the values of a map, in the order of their numbers.
pub fn numbered_values<T: Dup>(m: &IdMap<T>) -> (r: Vec<T>)
    ensures
        views(r@) == id_sorted_values(m@),
{
    let n = m.len();
    let mut r: Vec<T> = Vec::new();
    let mut i: usize = 0;
    while i < n
        invariant
            i <= n == sorted_ids(m@).len(),
            views(r@) =~= id_sorted_values(m@).take(i as int),
        decreases n - i,
    {
        let v = m.at(i).1.dup();
        proof {
            lemma_views_push(r@, v);
        }
        r.push(v);
        i += 1;
        assert(id_sorted_values(m@).take(i as int) =~= id_sorted_values(m@).take(
            i as int - 1,
        ).push(id_sorted_values(m@)[i as int - 1]));
    }
    assert(id_sorted_values(m@).take(n as int) =~= id_sorted_values(m@));
    r
}

} // verus!
