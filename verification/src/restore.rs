//! Opening the building again from what was recorded.
use crate::authority::{
    BuildingRole, PrincipalIdentity, PrincipalIdentityView, SessionIdentity, SessionIdentityView,
};
use crate::door::sv;
use crate::hub::{
    ADMIN_SESSION_TTL_MS, AdminPairingView, Hub, HubConfig, HubConfigView, HubView, LobbyEventView,
    hub_ok, lemma_fresh_ok, room_or_fresh, with_room,
};
use crate::keys::{member_named, new_membership, picked, unpicked};
use crate::protocol::{
    Attention, ChatModeView, Goal, Invite, InviteView, JournalEntry, JournalEntryView, Membership,
    MembershipView, Message, MessageView, Note, RoomSettings, RoomSettingsView, Task, WaitState,
};
use crate::room::{CareMark, Room, RoomView, fresh_room, has_active, one_active, room_ok};
use crate::saved::{
    Numbered, Saved, SavedBan, SavedBanView, SavedKey, SavedKeyView, SavedMark, SavedMarkView,
    SavedRoom, SavedRoomView, SavedSession, SavedSessionView, SavedView, by_key, by_number,
    countable, keyed, latest, latest_of, next_number, number_after, numbered_by,
};
use crate::sessions::{fresh_pairing, new_pairing};
use crate::table::{StrMap, StrSet, sorted_keys};
use crate::text::{Dup, dup_vec, lemma_views_push, ov, same, trim, trimmed, views};
use crate::token::is_token;
use crate::work::{Clock, larger, max_of};
use vstd::prelude::*;

verus! {

/// The room that a record gives back.
pub open spec fn restored_room(s: SavedRoomView) -> RoomView {
    RoomView {
        history: s.messages,
        notes: keyed::<Note>(s.notes),
        tasks: numbered_by::<Task>(s.tasks),
        next_task_id: next_number::<Task>(s.tasks),
        goals: numbered_by::<Goal>(s.goals),
        next_goal_id: next_number::<Goal>(s.goals),
        waits: keyed::<WaitState>(s.waits),
        care_marks: restored_marks(s.care_marks),
        attentions: keyed::<Attention>(s.attentions),
        last_msg_ms: last_spoken(s.messages),
        journal: s.journal,
        next_journal_id: after_journal(s.journal),
        ..fresh_room(s.mode, s.settings, (s.max_rev + 1) as u64)
    }
}

/// When the last message was sent.
pub open spec fn last_spoken(history: Seq<MessageView>) -> u64 {
    if history.len() == 0 {
        0
    } else {
        history.last().ts
    }
}

/// The number of the journal entry that comes next.
pub open spec fn after_journal(journal: Seq<JournalEntryView>) -> u64 {
    if journal.len() == 0 {
        1
    } else {
        (journal.last().id + 1) as u64
    }
}

/// The marks that a record gives back.
pub open spec fn restored_marks(s: Seq<SavedMarkView>) -> Map<Seq<char>, CareMark>
    decreases s.len(),
{
    if s.len() == 0 {
        Map::empty()
    } else {
        restored_marks(s.drop_last()).insert(
            s.last().key,
            CareMark { last_signal_at: s.last().last_signal_at, signal_count: s.last().signal_count },
        )
    }
}

/// The rooms that a record gives back.
pub open spec fn restored_rooms(s: Seq<SavedRoomView>) -> Map<Seq<char>, RoomView>
    decreases s.len(),
{
    if s.len() == 0 {
        Map::empty()
    } else {
        restored_rooms(s.drop_last()).insert(s.last().room, restored_room(s.last()))
    }
}

/// The largest number of a message.
pub open spec fn largest_id(s: Seq<SavedRoomView>) -> u64
    decreases s.len(),
{
    if s.len() == 0 {
        0
    } else {
        larger(largest_id(s.drop_last()), s.last().max_msg_id)
    }
}

/// The latest generation that shows in a room.
pub open spec fn room_generation(s: SavedRoomView) -> u64 {
    larger(
        larger(
            larger(
                larger(last_spoken(s.messages), latest::<Task>(s.tasks)),
                latest::<Goal>(s.goals),
            ),
            latest::<WaitState>(s.waits),
        ),
        latest::<Attention>(s.attentions),
    )
}

/// The latest generation that shows anywhere.
pub open spec fn largest_generation(s: Seq<SavedRoomView>) -> u64
    decreases s.len(),
{
    if s.len() == 0 {
        0
    } else {
        larger(largest_generation(s.drop_last()), room_generation(s.last()))
    }
}

/// Whether every number in a record has one that follows it.
pub open spec fn room_countable(s: SavedRoomView) -> bool {
    &&& s.max_rev < u64::MAX
    &&& s.max_msg_id < u64::MAX
    &&& countable::<Task>(s.tasks)
    &&& countable::<Goal>(s.goals)
    &&& journal_countable(s.journal)
}

/// Whether the last entry of a journal has one that follows it.
pub open spec fn journal_countable(journal: Seq<JournalEntryView>) -> bool {
    journal.len() > 0 ==> journal.last().id < u64::MAX
}

/// Whether every number in the records has one that follows it.
pub open spec fn saved_countable(s: SavedView) -> bool {
    &&& forall|i: int| 0 <= i < s.rooms.len() ==> room_countable(#[trigger] s.rooms[i])
    &&& journal_countable(s.home_journal)
}

/// Whether a record holds at most one active goal, and a lead where it holds one.
pub open spec fn saved_room_ok(s: SavedRoomView) -> bool {
    &&& one_active(numbered_by::<Goal>(s.goals))
    &&& (has_active(numbered_by::<Goal>(s.goals)) ==> s.settings.lead is Some)
}

/// Whether every room was recorded in order.
pub open spec fn saved_ok(s: SavedView) -> bool {
    forall|i: int| 0 <= i < s.rooms.len() ==> saved_room_ok(#[trigger] s.rooms[i])
}

/// The keys of the smasters.
pub open spec fn restored_keys(s: Seq<SavedKeyView>) -> Map<Seq<char>, Seq<char>>
    decreases s.len(),
{
    if s.len() == 0 {
        Map::empty()
    } else {
        restored_keys(s.drop_last()).insert(s.last().token, s.last().name)
    }
}

/// A session of the master that a record gives back.
pub open spec fn restored_session(
    s: SavedSessionView,
    master: Option<PrincipalIdentityView>,
) -> SessionIdentityView {
    SessionIdentityView {
        principal_id: match master {
            Some(p) => Some(p.id),
            None => None,
        },
        building_role: BuildingRole::Master,
        name: s.name,
        kind: s.kind,
        loca: None,
        member: None,
        admin: true,
        expires_at: s.expires_at,
    }
}

/// The sessions that a record gives back.
pub open spec fn restored_sessions(
    s: Seq<SavedSessionView>,
    master: Option<PrincipalIdentityView>,
) -> Map<Seq<char>, SessionIdentityView>
    decreases s.len(),
{
    if s.len() == 0 {
        Map::empty()
    } else {
        restored_sessions(s.drop_last(), master).insert(
            s.last().token,
            restored_session(s.last(), master),
        )
    }
}

/// The building as the records alone give it back.
pub open spec fn loaded(
    config: HubConfigView,
    s: SavedView,
    default_settings: RoomSettingsView,
    epoch: u64,
    pairing: AdminPairingView,
) -> HubView {
    HubView {
        rooms: restored_rooms(s.rooms),
        deleted: Set::empty(),
        next_id: (largest_id(s.rooms) + 1) as u64,
        generation: largest_generation(s.rooms),
        admin_token: config.admin_token,
        room_token: config.room_token,
        default_settings,
        epoch,
        members: keyed::<Membership>(s.members),
        smasters: restored_keys(s.smasters),
        sessions: restored_sessions(s.sessions, s.master),
        admin_pairing: pairing,
        join_create_times: Map::empty(),
        require_sessions: config.require_sessions,
        require_invite: config.require_invite,
        invites: keyed::<Invite>(s.invites),
        lobby_tx: Seq::empty(),
        lobby_online: Map::empty(),
        runtime_health: Map::empty(),
        care_deliveries: Map::empty(),
        home_room: config.home_room,
        reserved_room: config.reserved_room,
        caretakers: config.caretakers,
    }
}

// ---- davets of nobody ----

/// A davet that was bound to a member, and the membership that was made for it.
pub struct Adoption {
    pub invite: Invite,
    pub member: Option<Membership>,
}

/// The view of an [`Adoption`].
pub struct AdoptionView {
    pub invite: InviteView,
    pub member: Option<MembershipView>,
}

impl View for Adoption {
    type V = AdoptionView;

    open spec fn view(&self) -> AdoptionView {
        AdoptionView { invite: self.invite@, member: ov(self.member) }
    }
}

/// The davets that belong to no member, in the order of their tokens.
pub open spec fn orphans(h: HubView) -> Seq<InviteView> {
    picked(h.invites, sorted_keys(h.invites), orphaned())
}

/// The test of a davet that belongs to no member.
pub open spec fn orphaned() -> spec_fn(InviteView) -> bool {
    |i: InviteView| i.member.len() == 0
}

/// Whether a davet of nobody was bound as it should be: to the member of its
/// name, or to a membership that was made for it.
pub open spec fn is_adoption(h: HubView, orphan: InviteView, now: u64, a: AdoptionView) -> bool {
    match member_named(h.members, sorted_keys(h.members), orphan.name) {
        Some(m) => a.member is None && a.invite == (InviteView { member: m.token, ..orphan }),
        None => a.member matches Some(m) && m == new_membership(
            m.token,
            orphan.name,
            orphan.kind,
            "migration:legacy-invite"@,
            now,
        ) && is_token(m.token, "mb_"@, 32) && a.invite == (InviteView { member: m.token, ..orphan }),
    }
}

/// The building after a davet was bound.
pub open spec fn adopted_one(h: HubView, a: AdoptionView) -> HubView {
    HubView {
        invites: h.invites.insert(a.invite.token, a.invite),
        members: match a.member {
            Some(m) => h.members.insert(m.token, m),
            None => h.members,
        },
        ..h
    }
}

/// The building after some davets were bound.
pub open spec fn adopted(h: HubView, list: Seq<AdoptionView>) -> HubView
    decreases list.len(),
{
    if list.len() == 0 {
        h
    } else {
        adopted_one(adopted(h, list.drop_last()), list.last())
    }
}

/// Whether all davets of nobody were bound as they should be, one after another.
pub open spec fn are_adoptions(h: HubView, now: u64, list: Seq<AdoptionView>) -> bool {
    &&& list.len() == orphans(h).len()
    &&& forall|i: int|
        0 <= i < list.len() ==> is_adoption(
            adopted(h, list.take(i)),
            orphans(h)[i],
            now,
            #[trigger] list[i],
        )
}

/// Binding davets leaves everything but davets and members as it was.
proof fn lemma_adopted_rest(h: HubView, list: Seq<AdoptionView>)
    ensures
        adopted(h, list) == (HubView {
            invites: adopted(h, list).invites,
            members: adopted(h, list).members,
            ..h
        }),
    decreases list.len(),
{
    if list.len() > 0 {
        lemma_adopted_rest(h, list.drop_last());
    }
}

// ---- seats that do not belong ----

/// The test of a davet for the reserved room that is not a caretaker's.
pub open spec fn intruding(reserved: Seq<char>, caretakers: Set<Seq<char>>) -> spec_fn(InviteView) -> bool {
    |i: InviteView| reserved.len() > 0 && i.room == reserved && !caretakers.contains(i.name)
}

/// The building without them.
pub open spec fn cleared(h: HubView) -> HubView {
    HubView { invites: unpicked(h.invites, intruding(h.reserved_room, h.caretakers)), ..h }
}

/// The building with its home room, which has its journal.
pub open spec fn homed(h: HubView, journal: Seq<JournalEntryView>) -> HubView {
    let r = room_or_fresh(h, h.home_room);
    with_room(
        h,
        h.home_room,
        if r.journal.len() == 0 {
            RoomView { journal, next_journal_id: after_journal(journal), ..r }
        } else {
            r
        },
    )
}

/// The building with one ban or mute in force.
pub open spec fn banned_one(h: HubView, b: SavedBanView) -> HubView {
    let r = room_or_fresh(h, b.room);
    with_room(
        h,
        b.room,
        if b.kind == "ban"@ {
            RoomView { banned: r.banned.insert(b.name), ..r }
        } else if b.kind == "mute"@ {
            RoomView { muted: r.muted.insert(b.name), ..r }
        } else {
            r
        },
    )
}

/// The building with bans and mutes in force.
pub open spec fn banned_all(h: HubView, s: Seq<SavedBanView>) -> HubView
    decreases s.len(),
{
    if s.len() == 0 {
        h
    } else {
        banned_one(banned_all(h, s.drop_last()), s.last())
    }
}

/// The building that opens again.
pub open spec fn reopened(h: HubView, s: SavedView, list: Seq<AdoptionView>) -> HubView {
    let out = banned_all(homed(cleared(adopted(h, list)), s.home_journal), s.bans);
    HubView { deleted: s.sealed.to_set(), ..out }
}

/// A building that opens: the davets that were bound on the way, and the seats of
/// the reserved room that were taken back, both of which are yet to be recorded.
pub struct Opening {
    pub hub: Hub,
    pub adoptions: Vec<Adoption>,
    pub evicted: Vec<Invite>,
}

// ---- reading back ----

fn marks_of(v: &Vec<SavedMark>) -> (r: StrMap<CareMark>)
    ensures
        r@ == restored_marks(views(v@)),
{
    let ghost s = views(v@);
    let mut r: StrMap<CareMark> = StrMap::new();
    let mut i: usize = 0;
    assert(s.take(0) =~= Seq::<SavedMarkView>::empty());
    while i < v.len()
        invariant
            i <= v@.len(),
            s == views(v@),
            r@ == restored_marks(s.take(i as int)),
        decreases v@.len() - i,
    {
        assert(s.take(i as int + 1).drop_last() =~= s.take(i as int));
        let m = &v[i];
        r.insert(
            m.key.clone(),
            CareMark { last_signal_at: m.last_signal_at, signal_count: m.signal_count },
        );
        i += 1;
    }
    assert(s.take(s.len() as int) =~= s);
    r
}

fn spoken_last(history: &Vec<Message>) -> (r: u64)
    ensures
        r == last_spoken(views(history@)),
{
    if history.len() == 0 {
        0
    } else {
        history[history.len() - 1].ts
    }
}

fn journal_after(journal: &Vec<JournalEntry>) -> (r: u64)
    requires
        journal_countable(views(journal@)),
    ensures
        r == after_journal(views(journal@)),
{
    if journal.len() == 0 {
        1
    } else {
        assert(views(journal@).last() == journal@.last()@);
        journal[journal.len() - 1].id + 1
    }
}

impl Room {
    /// The room that a record gives back.
    pub fn restore(s: &SavedRoom) -> (r: Self)
        requires
            room_countable(s@),
        ensures
            r@ == restored_room(s@),
    {
        let r = Room::with(s.mode.dup(), s.settings.dup(), s.max_rev + 1);
        Room {
            history: dup_vec(&s.messages),
            notes: by_key(&s.notes),
            tasks: by_number(&s.tasks),
            next_task_id: number_after(&s.tasks),
            goals: by_number(&s.goals),
            next_goal_id: number_after(&s.goals),
            waits: by_key(&s.waits),
            care_marks: marks_of(&s.care_marks),
            attentions: by_key(&s.attentions),
            last_msg_ms: spoken_last(&s.messages),
            journal: dup_vec(&s.journal),
            next_journal_id: journal_after(&s.journal),
            ..r
        }
    }
}

fn generation_of(s: &SavedRoom) -> (r: u64)
    ensures
        r == room_generation(s@),
{
    max_of(
        max_of(
            max_of(
                max_of(spoken_last(&s.messages), latest_of(&s.tasks)),
                latest_of(&s.goals),
            ),
            latest_of(&s.waits),
        ),
        latest_of(&s.attentions),
    )
}

fn rooms_of(v: &Vec<SavedRoom>) -> (r: (StrMap<Room>, u64, u64))
    requires
        forall|i: int| 0 <= i < v@.len() ==> room_countable(#[trigger] views(v@)[i]),
    ensures
        r.0@ == restored_rooms(views(v@)),
        r.1 == largest_id(views(v@)),
        r.1 < u64::MAX,
        r.2 == largest_generation(views(v@)),
{
    let ghost s = views(v@);
    let mut rooms: StrMap<Room> = StrMap::new();
    let mut id: u64 = 0;
    let mut generation: u64 = 0;
    let mut i: usize = 0;
    assert(s.take(0) =~= Seq::<SavedRoomView>::empty());
    while i < v.len()
        invariant
            i <= v@.len(),
            s == views(v@),
            forall|i: int| 0 <= i < v@.len() ==> room_countable(#[trigger] s[i]),
            rooms@ == restored_rooms(s.take(i as int)),
            id == largest_id(s.take(i as int)),
            id < u64::MAX,
            generation == largest_generation(s.take(i as int)),
        decreases v@.len() - i,
    {
        assert(s.take(i as int + 1).drop_last() =~= s.take(i as int));
        assert(s[i as int] == v@[i as int]@);
        rooms.insert(v[i].room.clone(), Room::restore(&v[i]));
        id = max_of(id, v[i].max_msg_id);
        generation = max_of(generation, generation_of(&v[i]));
        i += 1;
    }
    assert(s.take(s.len() as int) =~= s);
    (rooms, id, generation)
}

fn keys_of_smasters(v: &Vec<SavedKey>) -> (r: StrMap<String>)
    ensures
        r@ == restored_keys(views(v@)),
{
    let ghost s = views(v@);
    let mut r: StrMap<String> = StrMap::new();
    let mut i: usize = 0;
    assert(s.take(0) =~= Seq::<SavedKeyView>::empty());
    while i < v.len()
        invariant
            i <= v@.len(),
            s == views(v@),
            r@ == restored_keys(s.take(i as int)),
        decreases v@.len() - i,
    {
        assert(s.take(i as int + 1).drop_last() =~= s.take(i as int));
        r.insert(v[i].token.clone(), v[i].name.clone());
        i += 1;
    }
    assert(s.take(s.len() as int) =~= s);
    r
}

fn sessions_of(v: &Vec<SavedSession>, master: &Option<PrincipalIdentity>) -> (r: StrMap<SessionIdentity>)
    ensures
        r@ == restored_sessions(views(v@), ov(*master)),
{
    let ghost s = views(v@);
    let mut r: StrMap<SessionIdentity> = StrMap::new();
    let mut i: usize = 0;
    assert(s.take(0) =~= Seq::<SavedSessionView>::empty());
    while i < v.len()
        invariant
            i <= v@.len(),
            s == views(v@),
            r@ == restored_sessions(s.take(i as int), ov(*master)),
        decreases v@.len() - i,
    {
        assert(s.take(i as int + 1).drop_last() =~= s.take(i as int));
        let principal_id: Option<String> = match master {
            Some(p) => Some(p.id.clone()),
            None => None,
        };
        let session = SessionIdentity {
            principal_id,
            building_role: BuildingRole::Master,
            name: v[i].name.clone(),
            kind: v[i].kind,
            loca: None,
            member: None,
            admin: true,
            expires_at: v[i].expires_at,
        };
        assert(session@ == restored_session(s[i as int], ov(*master)));
        r.insert(v[i].token.clone(), session);
        i += 1;
    }
    assert(s.take(s.len() as int) =~= s);
    r
}

proof fn lemma_numbered_ids<T: Numbered>(s: Seq<T::V>)
    ensures
        forall|i: u64|
            numbered_by::<T>(s).dom().contains(i) ==> T::number_of(#[trigger] numbered_by::<T>(s)[i])
                == i,
    decreases s.len(),
{
    if s.len() > 0 {
        lemma_numbered_ids::<T>(s.drop_last());
        let p = numbered_by::<T>(s.drop_last());
        assert forall|i: u64| numbered_by::<T>(s).dom().contains(i) implies T::number_of(
            #[trigger] numbered_by::<T>(s)[i],
        ) == i by {
            if i != T::number_of(s.last()) {
                assert(p.dom().contains(i) && p[i] == numbered_by::<T>(s)[i]);
            }
        }
    }
}

proof fn lemma_restored_ok(s: Seq<SavedRoomView>)
    requires
        forall|i: int| 0 <= i < s.len() ==> saved_room_ok(#[trigger] s[i]),
    ensures
        forall|k: Seq<char>|
            restored_rooms(s).dom().contains(k) ==> room_ok(#[trigger] restored_rooms(s)[k]),
    decreases s.len(),
{
    if s.len() > 0 {
        let p = s.drop_last();
        assert forall|i: int| 0 <= i < p.len() implies saved_room_ok(#[trigger] p[i]) by {
            assert(p[i] == s[i]);
        }
        lemma_restored_ok(p);
        let l = s.last();
        assert(saved_room_ok(s[s.len() - 1]));
        lemma_numbered_ids::<Task>(l.tasks);
        lemma_numbered_ids::<Goal>(l.goals);
        assert(room_ok(restored_room(l)));
        let q = restored_rooms(p);
        assert forall|k: Seq<char>| restored_rooms(s).dom().contains(k) implies room_ok(
            #[trigger] restored_rooms(s)[k],
        ) by {
            if k != l.room {
                assert(q.dom().contains(k) && q[k] == restored_rooms(s)[k]);
            }
        }
    }
}

proof fn lemma_banned_ok(h: HubView, s: Seq<SavedBanView>)
    requires
        hub_ok(h),
    ensures
        hub_ok(banned_all(h, s)),
    decreases s.len(),
{
    if s.len() > 0 {
        lemma_banned_ok(h, s.drop_last());
        let p = banned_all(h, s.drop_last());
        lemma_fresh_ok(ChatModeView::Free, p.default_settings, 1);
        assert(room_ok(room_or_fresh(p, s.last().room)));
    }
}

impl Hub {
    /// The davets that belong to no member, in the order of their tokens.
    fn orphan_invites(&self) -> (r: Vec<Invite>)
        ensures
            views(r@) == orphans(self@),
    {
        let n = self.invites.len();
        let ghost ks = sorted_keys(self@.invites);
        let mut out: Vec<Invite> = Vec::new();
        let mut i: usize = 0;
        assert(ks.take(0) =~= Seq::<Seq<char>>::empty());
        assert(views(out@) =~= Seq::<InviteView>::empty());
        while i < n
            invariant
                i <= n == ks.len(),
                ks == sorted_keys(self@.invites),
                views(out@) == picked(self@.invites, ks.take(i as int), orphaned()),
            decreases n - i,
        {
            assert(ks.take(i as int + 1).drop_last() =~= ks.take(i as int));
            let (token, inv) = self.invites.at(i);
            if inv.member.as_str().is_empty() {
                let x = inv.dup();
                proof {
                    lemma_views_push(out@, x);
                }
                out.push(x);
            }
            i += 1;
        }
        assert(ks.take(ks.len() as int) =~= ks);
        out
    }

    /// Binds a davet of nobody.
    fn adopt(&mut self, orphan: &Invite, now: u64) -> (r: Adoption)
        ensures
            is_adoption(old(self)@, orphan@, now, r@),
            final(self)@ == adopted_one(old(self)@, r@),
    {
        let known = self.member_by_name(orphan.name.as_str());
        let fresh = known.is_none();
        let m = self.plan_member(
            orphan.name.as_str(),
            orphan.kind.as_str(),
            "migration:legacy-invite",
            now,
        );
        let invite = Invite { member: m.token.clone(), ..orphan.dup() };
        self.invites.insert(invite.token.clone(), invite.dup());
        if fresh {
            self.members.insert(m.token.clone(), m.dup());
            Adoption { invite, member: Some(m) }
        } else {
            Adoption { invite, member: None }
        }
    }

    /// Binds the davets of nobody: each to the member of its name, who is made
    /// where there is none.
    fn adopt_orphans(&mut self, now: u64) -> (r: Vec<Adoption>)
        ensures
            are_adoptions(old(self)@, now, views(r@)),
            final(self)@ == adopted(old(self)@, views(r@)),
    {
        let ghost h = self@;
        let list = self.orphan_invites();
        let mut out: Vec<Adoption> = Vec::new();
        let mut i: usize = 0;
        assert(views(out@) =~= Seq::<AdoptionView>::empty());
        while i < list.len()
            invariant
                i <= list@.len(),
                views(list@) == orphans(h),
                out@.len() == i,
                self@ == adopted(h, views(out@)),
                forall|j: int|
                    0 <= j < i ==> is_adoption(
                        adopted(h, views(out@).take(j)),
                        orphans(h)[j],
                        now,
                        #[trigger] views(out@)[j],
                    ),
            decreases list@.len() - i,
        {
            let ghost p = views(out@);
            assert(orphans(h)[i as int] == list@[i as int]@);
            let a = self.adopt(&list[i], now);
            proof {
                lemma_views_push(out@, a);
            }
            out.push(a);
            proof {
                let q = views(out@);
                assert(q.drop_last() =~= p);
                assert forall|j: int| 0 <= j < i + 1 implies is_adoption(
                    adopted(h, q.take(j)),
                    orphans(h)[j],
                    now,
                    #[trigger] q[j],
                ) by {
                    if j < i {
                        assert(q[j] == p[j]);
                        assert(q.take(j) =~= p.take(j));
                    } else {
                        assert(q.take(j) =~= p);
                    }
                }
            }
            i += 1;
        }
        out
    }

    /// Whether a davet is for the reserved room and not a caretaker's.
    fn is_intruding(&self, i: &Invite) -> (r: bool)
        ensures
            r == intruding(self@.reserved_room, self@.caretakers)(i@),
    {
        self.is_reserved_room(i.room.as_str()) && !self.is_caretaker(i.name.as_str())
    }

    /// Takes back the seats of the reserved room that are not a caretaker's.
    fn clear_reserved(&mut self) -> (r: Vec<Invite>)
        ensures
            views(r@) == picked(
                old(self)@.invites,
                sorted_keys(old(self)@.invites),
                intruding(old(self)@.reserved_room, old(self)@.caretakers),
            ),
            final(self)@ == cleared(old(self)@),
    {
        let ghost h = self@;
        let ghost f = intruding(h.reserved_room, h.caretakers);
        let n = self.invites.len();
        let ghost ks = sorted_keys(h.invites);
        let mut out: Vec<Invite> = Vec::new();
        let mut doomed: Vec<String> = Vec::new();
        let mut i: usize = 0;
        assert(ks.take(0) =~= Seq::<Seq<char>>::empty());
        assert(views(out@) =~= Seq::<InviteView>::empty());
        while i < n
            invariant
                i <= n == ks.len(),
                self@ == h,
                f == intruding(h.reserved_room, h.caretakers),
                ks == sorted_keys(h.invites),
                views(out@) == picked(h.invites, ks.take(i as int), f),
                forall|k: Seq<char>| #[trigger]
                    views(doomed@).contains(k) ==> exists|j: int|
                        0 <= j < i && #[trigger] ks[j] == k && f(h.invites[k]),
                forall|j: int|
                    0 <= j < i && f(h.invites[#[trigger] ks[j]]) ==> views(doomed@).contains(ks[j]),
            decreases n - i,
        {
            assert(ks.take(i as int + 1).drop_last() =~= ks.take(i as int));
            let (token, inv) = self.invites.at(i);
            let ghost d0 = views(doomed@);
            if self.is_intruding(inv) {
                let x = inv.dup();
                let t = token.clone();
                proof {
                    lemma_views_push(out@, x);
                    lemma_views_push(doomed@, t);
                }
                out.push(x);
                doomed.push(t);
                proof {
                    let d1 = views(doomed@);
                    assert(d1[d0.len() as int] == ks[i as int]);
                    assert forall|k: Seq<char>| d0.contains(k) implies d1.contains(k) by {
                        let m = choose|m: int| 0 <= m < d0.len() && d0[m] == k;
                        assert(d1[m] == k);
                    }
                    assert forall|k: Seq<char>| #[trigger] d1.contains(k) implies exists|j: int|
                        0 <= j < i + 1 && #[trigger] ks[j] == k && f(h.invites[k]) by {
                        let m = choose|m: int| 0 <= m < d1.len() && d1[m] == k;
                        if m < d0.len() {
                            assert(d0[m] == k);
                            assert(d0.contains(k));
                        } else {
                            assert(ks[i as int] == k);
                        }
                    }
                }
            }
            i += 1;
        }
        assert(ks.take(ks.len() as int) =~= ks);
        self.invites.remove_all(&doomed);
        proof {
            let want = unpicked(h.invites, f);
            assert forall|k: Seq<char>| self@.invites.dom().contains(k) <==> want.dom().contains(k) by {
                if h.invites.dom().contains(k) {
                    assert(ks.to_set().contains(k));
                    let j = choose|j: int| 0 <= j < ks.len() && ks[j] == k;
                    assert(views(doomed@).to_set().contains(k) <==> views(doomed@).contains(k));
                }
            }
            assert(self@.invites =~= want);
        }
        out
    }

    /// Opens the home room, with its journal.
    fn open_home(&mut self, journal: &Vec<JournalEntry>)
        requires
            journal_countable(views(journal@)),
        ensures
            final(self)@ == homed(old(self)@, views(journal@)),
    {
        let ghost h = self@;
        let home = self.home_room.clone();
        let mut r = self.take_room(home.as_str());
        if r.journal.len() == 0 {
            r.journal = dup_vec(journal);
            r.next_journal_id = journal_after(journal);
        }
        let ghost rv = r@;
        self.put_room(home.as_str(), r);
        assert(self@.rooms =~= h.rooms.insert(home@, rv));
    }

    /// Puts a ban or a mute in force.
    fn reinstate(&mut self, b: &SavedBan)
        ensures
            final(self)@ == banned_one(old(self)@, b@),
    {
        let ghost h = self@;
        let mut r = self.take_room(b.room.as_str());
        if same(b.kind.as_str(), "ban") {
            r.banned.insert(b.name.as_str());
        } else if same(b.kind.as_str(), "mute") {
            r.muted.insert(b.name.as_str());
        }
        let ghost rv = r@;
        self.put_room(b.room.as_str(), r);
        assert(self@.rooms =~= h.rooms.insert(b.room@, rv));
    }

    fn reinstate_all(&mut self, bans: &Vec<SavedBan>)
        ensures
            final(self)@ == banned_all(old(self)@, views(bans@)),
    {
        let ghost h = self@;
        let ghost s = views(bans@);
        let mut i: usize = 0;
        assert(s.take(0) =~= Seq::<SavedBanView>::empty());
        while i < bans.len()
            invariant
                i <= bans@.len(),
                s == views(bans@),
                self@ == banned_all(h, s.take(i as int)),
            decreases bans@.len() - i,
        {
            assert(s.take(i as int + 1).drop_last() =~= s.take(i as int));
            self.reinstate(&bans[i]);
            i += 1;
        }
        assert(s.take(s.len() as int) =~= s);
    }

    fn seal_all(&mut self, sealed: &Vec<String>)
        requires
            old(self)@.deleted == Set::<Seq<char>>::empty(),
        ensures
            final(self)@ == (HubView { deleted: views(sealed@).to_set(), ..old(self)@ }),
    {
        let ghost h = self@;
        let ghost s = views(sealed@);
        let mut i: usize = 0;
        assert(s.take(0).to_set() =~= Set::<Seq<char>>::empty());
        while i < sealed.len()
            invariant
                i <= sealed@.len(),
                s == views(sealed@),
                self@ == (HubView { deleted: s.take(i as int).to_set(), ..h }),
            decreases sealed@.len() - i,
        {
            self.deleted.insert(sealed[i].as_str());
            proof {
                let a = s.take(i as int);
                let b = s.take(i as int + 1);
                assert(b =~= a.push(s[i as int]));
                assert forall|x: Seq<char>| b.to_set().contains(x) <==> a.to_set().insert(
                    s[i as int],
                ).contains(x) by {
                    if a.contains(x) {
                        let m = choose|m: int| 0 <= m < a.len() && a[m] == x;
                        assert(b[m] == x);
                    }
                    assert(b[i as int] == s[i as int]);
                    if b.contains(x) && x != s[i as int] {
                        let m = choose|m: int| 0 <= m < b.len() && b[m] == x;
                        assert(a[m] == x);
                    }
                }
                assert(b.to_set() =~= a.to_set().insert(s[i as int]));
            }
            i += 1;
        }
        assert(s.take(s.len() as int) =~= s);
    }

    /// The building as the records alone give it back.
    fn load(config: HubConfig, saved: &Saved, default_settings: RoomSettings, epoch: u64, now: u64) -> (r:
        Self)
        requires
            saved_countable(saved@),
        ensures
            r@ == loaded(config@, saved@, default_settings@, epoch, r@.admin_pairing),
            fresh_pairing(r@.admin_pairing, ADMIN_SESSION_TTL_MS, now),
    {
        let (rooms, id, generation) = rooms_of(&saved.rooms);
        let r = Hub {
            rooms,
            deleted: StrSet::new(),
            clock: Clock { next_id: id + 1, generation },
            admin_token: config.admin_token,
            room_token: config.room_token,
            default_settings,
            epoch,
            members: by_key(&saved.members),
            smasters: keys_of_smasters(&saved.smasters),
            sessions: sessions_of(&saved.sessions, &saved.master),
            admin_pairing: new_pairing(ADMIN_SESSION_TTL_MS, now),
            join_create_times: StrMap::new(),
            require_sessions: config.require_sessions,
            require_invite: config.require_invite,
            invites: by_key(&saved.invites),
            lobby_tx: Vec::new(),
            lobby_online: StrMap::new(),
            runtime_health: StrMap::new(),
            care_deliveries: StrMap::new(),
            home_room: config.home_room,
            reserved_room: config.reserved_room,
            caretakers: config.caretakers,
        };
        assert(r@.lobby_tx =~= Seq::<LobbyEventView>::empty());
        r
    }

    /// Opens a building from what was recorded: rooms, davets, members, smasters
    /// and sessions as they stood, counters past everything that was handed out,
    /// davets of nobody bound, the reserved room cleared, the home room open, bans
    /// and seals in force.
    pub fn build(
        config: HubConfig,
        saved: &Saved,
        default_settings: RoomSettings,
        epoch: u64,
        now: u64,
    ) -> (r: Opening)
        requires
            saved_countable(saved@),
        ensures
            fresh_pairing(r.hub@.admin_pairing, ADMIN_SESSION_TTL_MS, now),
            ({
                let h = loaded(config@, saved@, default_settings@, epoch, r.hub@.admin_pairing);
                let mid = adopted(h, views(r.adoptions@));
                &&& are_adoptions(h, now, views(r.adoptions@))
                &&& views(r.evicted@) == picked(
                    mid.invites,
                    sorted_keys(mid.invites),
                    intruding(h.reserved_room, h.caretakers),
                )
                &&& r.hub@ == reopened(h, saved@, views(r.adoptions@))
            }),
            saved_ok(saved@) ==> hub_ok(r.hub@),
    {
        let mut hub = Hub::load(config, saved, default_settings, epoch, now);
        let ghost h = hub@;
        let adoptions = hub.adopt_orphans(now);
        proof {
            lemma_adopted_rest(h, views(adoptions@));
        }
        let evicted = hub.clear_reserved();
        hub.open_home(&saved.home_journal);
        let ghost h3 = hub@;
        hub.reinstate_all(&saved.bans);
        proof {
            lemma_banned_rest(h3, views(saved.bans@));
            if saved_ok(saved@) {
                lemma_restored_ok(saved@.rooms);
                lemma_fresh_ok(ChatModeView::Free, h.default_settings, 1);
                assert(hub_ok(h));
                assert(room_ok(room_or_fresh(h, h.home_room)));
                assert(hub_ok(h3));
                lemma_banned_ok(h3, saved@.bans);
            }
        }
        hub.seal_all(&saved.sealed);
        Opening { hub, adoptions, evicted }
    }
}

proof fn lemma_banned_rest(h: HubView, s: Seq<SavedBanView>)
    ensures
        banned_all(h, s) == (HubView { rooms: banned_all(h, s).rooms, ..h }),
    decreases s.len(),
{
    if s.len() > 0 {
        lemma_banned_rest(h, s.drop_last());
    }
}

// ---- operators named in settings ----

/// What becomes of operators that a room's settings name.
pub enum Migration {
    /// The room has its operator; the settings name nobody from now on.
    Clear,
    /// This principal is to be appointed by that one.
    Appoint { principal: String, by: String },
    /// Who is meant is not certain; nobody gains authority.
    Withheld,
}

/// The view of a [`Migration`].
pub enum MigrationView {
    Clear,
    Appoint { principal: Seq<char>, by: Seq<char> },
    Withheld,
}

impl View for Migration {
    type V = MigrationView;

    open spec fn view(&self) -> MigrationView {
        match self {
            Migration::Clear => MigrationView::Clear,
            Migration::Appoint { principal, by } => MigrationView::Appoint {
                principal: principal@,
                by: by@,
            },
            Migration::Withheld => MigrationView::Withheld,
        }
    }
}

/// What becomes of operators that settings name: nothing where the room has an
/// operator; an appointment where they name one person, exactly one principal
/// bears that name, and there is a master to appoint them.
pub open spec fn migration(
    existing: bool,
    operators: Seq<Seq<char>>,
    named: Seq<PrincipalIdentityView>,
    master: Option<PrincipalIdentityView>,
) -> MigrationView {
    if existing {
        MigrationView::Clear
    } else if operators.len() != 1 || named.len() != 1 {
        MigrationView::Withheld
    } else {
        match master {
            Some(m) => MigrationView::Appoint { principal: named[0].id, by: m.id },
            None => MigrationView::Withheld,
        }
    }
}

/// What becomes of operators that settings name, given whether the room has an
/// operator, and the human principals who bear the name.
pub fn operator_migration(
    existing: bool,
    operators: &Vec<String>,
    named: &Vec<PrincipalIdentity>,
    master: &Option<PrincipalIdentity>,
) -> (r: Migration)
    ensures
        r@ == migration(existing, views(operators@), views(named@), ov(*master)),
{
    if existing {
        Migration::Clear
    } else if operators.len() != 1 || named.len() != 1 {
        Migration::Withheld
    } else {
        match master {
            Some(m) => Migration::Appoint { principal: named[0].id.clone(), by: m.id.clone() },
            None => Migration::Withheld,
        }
    }
}

/// The rooms whose settings name operators, in order.
pub open spec fn with_operators(rooms: Map<Seq<char>, RoomView>, keys: Seq<Seq<char>>) -> Seq<Seq<char>>
    decreases keys.len(),
{
    if keys.len() == 0 {
        Seq::empty()
    } else {
        let prev = with_operators(rooms, keys.drop_last());
        if rooms[keys.last()].settings.operators.len() > 0 {
            prev.push(keys.last())
        } else {
            prev
        }
    }
}

/// The settings with no operator named.
pub open spec fn without_operators(s: RoomSettingsView) -> RoomSettingsView {
    RoomSettingsView { operators: Seq::empty(), ..s }
}

impl Hub {
    /// The rooms whose settings name operators, in order.
    pub fn rooms_with_operators(&self) -> (r: Vec<String>)
        ensures
            views(r@) == with_operators(self@.rooms, sorted_keys(self@.rooms)),
    {
        let n = self.rooms.len();
        let ghost ks = sorted_keys(self@.rooms);
        let mut out: Vec<String> = Vec::new();
        let mut i: usize = 0;
        assert(ks.take(0) =~= Seq::<Seq<char>>::empty());
        assert(views(out@) =~= Seq::<Seq<char>>::empty());
        while i < n
            invariant
                i <= n == ks.len(),
                ks == sorted_keys(self@.rooms),
                views(out@) == with_operators(self@.rooms, ks.take(i as int)),
            decreases n - i,
        {
            assert(ks.take(i as int + 1).drop_last() =~= ks.take(i as int));
            let (name, r) = self.rooms.at(i);
            if r.settings.operators.len() > 0 {
                let x = name.clone();
                proof {
                    lemma_views_push(out@, x);
                }
                out.push(x);
            }
            i += 1;
        }
        assert(ks.take(ks.len() as int) =~= ks);
        out
    }

    /// Drops the operators that a room's settings name, once that was recorded.
    pub fn drop_named_operators(&mut self, room: &str, saved: bool)
        ensures
            final(self)@ == (if saved && old(self)@.rooms.dom().contains(room@) {
                with_room(
                    old(self)@,
                    room@,
                    (RoomView {
                        settings: without_operators(old(self)@.rooms[room@].settings),
                        ..old(self)@.rooms[room@]
                    }),
                )
            } else {
                old(self)@
            }),
            hub_ok(old(self)@) ==> hub_ok(final(self)@),
    {
        if !saved || !self.rooms.contains(room) {
            return;
        }
        let ghost h = self@;
        let mut r = self.take_room(room);
        r.settings.operators = Vec::new();
        assert(r@.settings.operators =~= Seq::<Seq<char>>::empty());
        let ghost rv = r@;
        self.put_room(room, r);
        assert(self@.rooms =~= h.rooms.insert(room@, rv));
    }
}

/// The name of the master: the one given, trimmed, or the usual one.
pub open spec fn master_named(given: Option<Seq<char>>) -> Seq<char> {
    match given {
        Some(n) => if trimmed(n).len() > 0 {
            trimmed(n)
        } else {
            "Master"@
        },
        None => "Master"@,
    }
}

/// The name of the master: the one given, trimmed, or the usual one.
pub fn master_name(given: Option<&str>) -> (r: String)
    ensures
        r@ == master_named(sv(given)),
{
    match given {
        Some(n) => {
            let name = trim(n);
            if name.as_str().is_empty() {
                "Master".to_owned()
            } else {
                name
            }
        },
        None => "Master".to_owned(),
    }
}

} // verus!
