//! A room: its seats, its talk, its rules and its record.
use crate::protocol::{
    Attention, AttentionView, ChatMode, ChatModeView, Goal, GoalStatus, GoalView, JournalEntry,
    JournalEntryView, Member, MemberView, Message, MessageView, ModAction, ModState, ModStateView,
    Note, NoteView, RoomSettings, RoomSettingsView, SenderType, ServerFrame, ServerFrameView,
    SetSettings, SetSettingsView, Task, TaskView, WaitState, WaitStateView,
};
use crate::table::{IdMap, StrMap, StrSet, sorted_keys, sorted_set, sorted_values};
use crate::text::{
    Dup, before, decimal, increasing, is_before, lemma_before_irreflexive, lemma_views_push,
    numeral, same, views,
};
use vstd::prelude::*;

verus! {

/// How many seats a room has.
pub const LOCA_KAPASITE: usize = 7;

/// How many messages a room keeps at hand.
pub const HISTORY_LIMIT: usize = 200;

/// A seat: who sits there, and over how many connections.
pub struct Seat {
    pub name: String,
    pub kind: SenderType,
    pub connections: usize,
}

/// The view of a [`Seat`].
pub struct SeatView {
    pub name: Seq<char>,
    pub kind: SenderType,
    pub connections: usize,
}

impl View for Seat {
    type V = SeatView;

    open spec fn view(&self) -> SeatView {
        SeatView { name: self.name@, kind: self.kind, connections: self.connections }
    }
}

/// How often a condition has been signalled, and when last.
#[derive(Clone, Copy)]
pub struct CareMark {
    pub last_signal_at: u64,
    pub signal_count: u32,
}

impl View for CareMark {
    type V = CareMark;

    open spec fn view(&self) -> CareMark {
        *self
    }
}

/// A posted message, under the name that its sender gave the operation.
pub struct Operation {
    pub principal: String,
    pub op_id: String,
    pub message: Message,
}

/// The view of an [`Operation`].
pub struct OperationView {
    pub principal: Seq<char>,
    pub op_id: Seq<char>,
    pub message: MessageView,
}

impl View for Operation {
    type V = OperationView;

    open spec fn view(&self) -> OperationView {
        OperationView {
            principal: self.principal@,
            op_id: self.op_id@,
            message: self.message@,
        }
    }
}

/// A room. `tx` holds the frames that were sent to the room's connections and
/// have not been handed out.
pub struct Room {
    pub history: Vec<Message>,
    pub operations: Vec<Operation>,
    pub tx: Vec<ServerFrame>,
    pub members: StrMap<Seat>,
    pub notes: StrMap<Note>,
    pub journal: Vec<JournalEntry>,
    pub next_journal_id: u64,
    pub next_rev: u64,
    pub mode: ChatMode,
    pub settings: RoomSettings,
    pub post_times: StrMap<Vec<u64>>,
    pub muted: StrSet,
    pub banned: StrSet,
    pub last_msg_ms: u64,
    pub tasks: IdMap<Task>,
    pub next_task_id: u64,
    pub goals: IdMap<Goal>,
    pub next_goal_id: u64,
    pub waits: StrMap<WaitState>,
    pub care_marks: StrMap<CareMark>,
    pub attentions: StrMap<Attention>,
}

/// The view of a [`Room`].
pub struct RoomView {
    pub history: Seq<MessageView>,
    pub operations: Seq<OperationView>,
    pub tx: Seq<ServerFrameView>,
    pub members: Map<Seq<char>, SeatView>,
    pub notes: Map<Seq<char>, NoteView>,
    pub journal: Seq<JournalEntryView>,
    pub next_journal_id: u64,
    pub next_rev: u64,
    pub mode: ChatModeView,
    pub settings: RoomSettingsView,
    pub post_times: Map<Seq<char>, Seq<u64>>,
    pub muted: Set<Seq<char>>,
    pub banned: Set<Seq<char>>,
    pub last_msg_ms: u64,
    pub tasks: Map<u64, TaskView>,
    pub next_task_id: u64,
    pub goals: Map<u64, GoalView>,
    pub next_goal_id: u64,
    pub waits: Map<Seq<char>, WaitStateView>,
    pub care_marks: Map<Seq<char>, CareMark>,
    pub attentions: Map<Seq<char>, AttentionView>,
}

impl View for Room {
    type V = RoomView;

    open spec fn view(&self) -> RoomView {
        RoomView {
            history: views(self.history@),
            operations: views(self.operations@),
            tx: views(self.tx@),
            members: self.members@,
            notes: self.notes@,
            journal: views(self.journal@),
            next_journal_id: self.next_journal_id,
            next_rev: self.next_rev,
            mode: self.mode@,
            settings: self.settings@,
            post_times: self.post_times@,
            muted: self.muted@,
            banned: self.banned@,
            last_msg_ms: self.last_msg_ms,
            tasks: self.tasks@,
            next_task_id: self.next_task_id,
            goals: self.goals@,
            next_goal_id: self.next_goal_id,
            waits: self.waits@,
            care_marks: self.care_marks@,
            attentions: self.attentions@,
        }
    }
}

/// A room in which nothing has happened yet.
pub open spec fn fresh_room(
    mode: ChatModeView,
    settings: RoomSettingsView,
    next_rev: u64,
) -> RoomView {
    RoomView {
        history: Seq::empty(),
        operations: Seq::empty(),
        tx: Seq::empty(),
        members: Map::empty(),
        notes: Map::empty(),
        journal: Seq::empty(),
        next_journal_id: 1,
        next_rev,
        mode,
        settings,
        post_times: Map::empty(),
        muted: Set::empty(),
        banned: Set::empty(),
        last_msg_ms: 0,
        tasks: Map::empty(),
        next_task_id: 1,
        goals: Map::empty(),
        next_goal_id: 1,
        waits: Map::empty(),
        care_marks: Map::empty(),
        attentions: Map::empty(),
    }
}

/// A room after it sent a frame.
pub open spec fn sent(r: RoomView, f: ServerFrameView) -> RoomView {
    RoomView { tx: r.tx.push(f), ..r }
}

/// What a room keeps at all times: no more seats than it has, every seat
/// connected, goals and tasks under their own numbers, at most one active goal,
/// and a lead while there is one.
pub open spec fn room_ok(r: RoomView) -> bool {
    &&& r.members.dom().finite()
    &&& r.members.dom().len() <= LOCA_KAPASITE
    &&& forall|k: Seq<char>|
        r.members.dom().contains(k) ==> (#[trigger] r.members[k]).connections >= 1
    &&& (forall|i: u64| r.goals.dom().contains(i) ==> (#[trigger] r.goals[i]).id == i)
    &&& (forall|i: u64| r.tasks.dom().contains(i) ==> (#[trigger] r.tasks[i]).id == i)
    &&& one_active(r.goals)
    &&& (has_active(r.goals) ==> r.settings.lead is Some)
}

/// Whether a goal is active.
pub open spec fn active_goal(goals: Map<u64, GoalView>, i: u64) -> bool {
    goals.dom().contains(i) && goals[i].status == GoalStatus::Active
}

/// Whether any goal is active.
pub open spec fn has_active(goals: Map<u64, GoalView>) -> bool {
    exists|i: u64| #[trigger] active_goal(goals, i)
}

/// Whether no two goals are active.
pub open spec fn one_active(goals: Map<u64, GoalView>) -> bool {
    forall|i: u64, j: u64| #[trigger]
        active_goal(goals, i) && #[trigger] active_goal(goals, j) ==> i == j
}

/// A roster with one more entry, which follows the entries that its name does
/// not come before.
pub open spec fn placed(s: Seq<MemberView>, x: MemberView) -> Seq<MemberView>
    decreases s.len(),
{
    if s.len() == 0 || !before(x.name, s.last().name) {
        s.push(x)
    } else {
        placed(s.drop_last(), x).push(s.last())
    }
}

/// The entries of the first `n` seats, ordered by name.
pub open spec fn roster_of(seats: Seq<SeatView>) -> Seq<MemberView>
    decreases seats.len(),
{
    if seats.len() == 0 {
        Seq::empty()
    } else {
        placed(
            roster_of(seats.drop_last()),
            MemberView { name: seats.last().name, kind: seats.last().kind },
        )
    }
}

/// The roster of a room: one entry for each seat, ordered by name.
pub open spec fn roster(members: Map<Seq<char>, SeatView>) -> Seq<MemberView> {
    roster_of(sorted_values(members))
}

proof fn lemma_placed(s: Seq<MemberView>, x: MemberView, p: int)
    requires
        0 <= p <= s.len(),
        p > 0 ==> !before(x.name, s[p - 1].name),
        forall|j: int| p <= j < s.len() ==> before(x.name, s[j].name),
    ensures
        placed(s, x) == s.insert(p, x),
    decreases s.len(),
{
    if p == s.len() {
        assert(s.insert(p, x) =~= s.push(x));
    } else {
        lemma_placed(s.drop_last(), x, p);
        assert(s.insert(p, x) =~= s.drop_last().insert(p, x).push(s.last()));
    }
}

/// A room after somebody took a seat; `None` where none is free.
///
/// The holder of a seat keeps it: a person who connects again under the same
/// name adds a connection; anybody else evicts the connection that was there.
pub open spec fn joined(
    r: RoomView,
    identity: Seq<char>,
    name: Seq<char>,
    kind: SenderType,
    session: u64,
) -> Option<RoomView> {
    let seated = r.members.dom().contains(identity);
    if !seated && r.members.dom().len() >= LOCA_KAPASITE {
        None
    } else {
        let seat = r.members[identity];
        let reader = seated && seat.name == name && seat.kind == SenderType::User && kind
            == SenderType::User;
        let connections: usize = if reader {
            if seat.connections < usize::MAX {
                (seat.connections + 1) as usize
            } else {
                usize::MAX
            }
        } else {
            1
        };
        let members = r.members.insert(identity, SeatView { name, kind, connections });
        let told = if seated && !reader {
            sent(r, ServerFrameView::Evicted { name, identity, session })
        } else {
            r
        };
        Some(sent(RoomView { members, ..told }, ServerFrameView::Members { members: roster(members) }))
    }
}

/// The seats after one connection of `identity` ended.
pub open spec fn seats_after_leave(
    members: Map<Seq<char>, SeatView>,
    identity: Seq<char>,
) -> Map<Seq<char>, SeatView> {
    if !members.dom().contains(identity) {
        members
    } else if members[identity].connections <= 1 {
        members.remove(identity)
    } else {
        members.insert(
            identity,
            SeatView {
                connections: (members[identity].connections - 1) as usize,
                ..members[identity]
            },
        )
    }
}

/// A room after one connection of `identity` ended.
pub open spec fn left(r: RoomView, identity: Seq<char>) -> RoomView {
    let members = seats_after_leave(r.members, identity);
    sent(RoomView { members, ..r }, ServerFrameView::Members { members: roster(members) })
}

/// The seats that nobody of that name holds.
pub open spec fn seats_without(
    members: Map<Seq<char>, SeatView>,
    name: Seq<char>,
) -> Map<Seq<char>, SeatView> {
    Map::new(
        |k: Seq<char>| members.dom().contains(k) && members[k].name != name,
        |k: Seq<char>| members[k],
    )
}

/// Who is muted and who is banned, in order.
pub open spec fn mod_state(r: RoomView) -> ModStateView {
    ModStateView { muted: sorted_set(r.muted), banned: sorted_set(r.banned) }
}

/// A room after everybody of that name was put out.
pub open spec fn put_out(r: RoomView, name: Seq<char>, banned: bool) -> RoomView {
    let members = seats_without(r.members, name);
    sent(
        sent(RoomView { members, ..r }, ServerFrameView::Kicked { name, banned }),
        ServerFrameView::Members { members: roster(members) },
    )
}

/// A room after moderation.
pub open spec fn moderated(r: RoomView, action: ModAction, name: Seq<char>) -> RoomView {
    match action {
        ModAction::Mute => {
            let n = RoomView { muted: r.muted.insert(name), ..r };
            sent(n, ServerFrameView::Mod { state: mod_state(n) })
        },
        ModAction::Unmute => {
            let n = RoomView { muted: r.muted.remove(name), ..r };
            sent(n, ServerFrameView::Mod { state: mod_state(n) })
        },
        ModAction::Unban => {
            let n = RoomView { banned: r.banned.remove(name), ..r };
            sent(n, ServerFrameView::Mod { state: mod_state(n) })
        },
        ModAction::Kick => put_out(r, name, false),
        ModAction::Release => put_out(r, name, false),
        ModAction::Ban => put_out(RoomView { banned: r.banned.insert(name), ..r }, name, true),
    }
}

/// `v` brought into `lo..=hi`.
pub open spec fn clamped(v: u32, lo: u32, hi: u32) -> u32 {
    if v < lo {
        lo
    } else if v > hi {
        hi
    } else {
        v
    }
}

/// Brings `v` into `lo..=hi`.
pub fn clamp(v: u32, lo: u32, hi: u32) -> (r: u32)
    requires
        lo <= hi,
    ensures
        r == clamped(v, lo, hi),
{
    if v < lo {
        lo
    } else if v > hi {
        hi
    } else {
        v
    }
}

/// The new value of a setting: the requested one where there is one.
pub open spec fn or_kept<T>(requested: Option<T>, kept: T) -> T {
    match requested {
        Some(v) => v,
        None => kept,
    }
}

/// Settings after a request: what it names, brought into range; the rest as it was.
pub open spec fn changed_settings(s: RoomSettingsView, c: SetSettingsView) -> RoomSettingsView {
    let idle = match c.turn_idle_ms {
        Some(v) => clamped(v, 100, 30000),
        None => s.turn_idle_ms,
    };
    let wait = match c.turn_max_wait_ms {
        Some(v) => clamped(v, 100, 60000),
        None => s.turn_max_wait_ms,
    };
    RoomSettingsView {
        lead: s.lead,
        rate_limit: or_kept(c.rate_limit, s.rate_limit),
        rate_window_secs: match c.rate_window_secs {
            Some(v) => if v == 0 {
                1
            } else {
                v
            },
            None => s.rate_window_secs,
        },
        live: or_kept(c.live, s.live),
        archived: or_kept(c.archived, s.archived),
        live_timeout_secs: or_kept(c.live_timeout_secs, s.live_timeout_secs),
        operators: or_kept(c.operators, s.operators),
        turn_max_messages: match c.turn_max_messages {
            Some(v) => clamped(v, 1, 16),
            None => s.turn_max_messages,
        },
        turn_idle_ms: idle,
        turn_max_wait_ms: if wait < idle {
            idle
        } else {
            wait
        },
        care_wait_secs: or_kept(c.care_wait_secs, s.care_wait_secs),
        care_cooldown_secs: or_kept(c.care_cooldown_secs, s.care_cooldown_secs),
        care_max_attempts: match c.care_max_attempts {
            Some(v) => clamped(v, 1, 10),
            None => s.care_max_attempts,
        },
        care_context_messages: match c.care_context_messages {
            Some(v) => clamped(v, 0, 20),
            None => s.care_context_messages,
        },
        care_recipient: or_kept(c.care_recipient, s.care_recipient),
        care_goal_secs: or_kept(c.care_goal_secs, s.care_goal_secs),
        care_task_secs: or_kept(c.care_task_secs, s.care_task_secs),
        care_silence_secs: or_kept(c.care_silence_secs, s.care_silence_secs),
    }
}

/// A room after its settings changed. Closing it forgets how often its
/// conditions were signalled; turning live on starts its idle clock.
pub open spec fn configured(r: RoomView, c: SetSettingsView, now: u64) -> RoomView {
    let settings = changed_settings(r.settings, c);
    sent(
        RoomView {
            care_marks: if !r.settings.archived && settings.archived {
                Map::empty()
            } else {
                r.care_marks
            },
            last_msg_ms: if c.live == Some(true) {
                now
            } else {
                r.last_msg_ms
            },
            settings,
            ..r
        },
        ServerFrameView::Settings { settings },
    )
}

/// A mode with its turn inside the order.
pub open spec fn sane_mode(m: ChatModeView) -> ChatModeView {
    match m {
        ChatModeView::RoundRobin { order, turn } => ChatModeView::RoundRobin {
            order,
            turn: if turn >= order.len() {
                0
            } else {
                turn
            },
        },
        _ => m,
    }
}

/// A room after its mode changed.
pub open spec fn mode_set(r: RoomView, m: ChatModeView) -> RoomView {
    sent(RoomView { mode: sane_mode(m), ..r }, ServerFrameView::Mode { mode: sane_mode(m) })
}

/// Whether live mode has been idle for longer than the room allows.
pub open spec fn live_over(r: RoomView, now: u64) -> bool {
    &&& r.settings.live
    &&& r.settings.live_timeout_secs > 0
    &&& r.last_msg_ms > 0
    &&& now - r.last_msg_ms > r.settings.live_timeout_secs * 1000
}

/// A room after its live mode ran out. The frames are sent in any case; the
/// setting stays off only where that was `saved`.
pub open spec fn live_ended(r: RoomView, now: u64, saved: bool) -> RoomView {
    if live_over(r, now) {
        let settings = RoomSettingsView { live: false, ..r.settings };
        sent(
            sent(
                RoomView {
                    settings: if saved {
                        settings
                    } else {
                        r.settings
                    },
                    ..r
                },
                ServerFrameView::Settings { settings },
            ),
            ServerFrameView::Control {
                cmd: "live-expired:"@ + numeral(r.settings.live_timeout_secs as nat),
            },
        )
    } else {
        r
    }
}

/// Takes out of a map what a person of that name holds.
fn remove_seats(m: &mut StrMap<Seat>, name: &str)
    ensures
        final(m)@ == seats_without(old(m)@, name@),
{
    let keys = m.keys();
    let ghost o = m@;
    let ghost ks = views(keys@);
    let mut i: usize = 0;
    while i < keys.len()
        invariant
            i <= keys@.len(),
            ks == views(keys@),
            ks.to_set() == o.dom(),
            increasing(ks),
            forall|k: Seq<char>| #[trigger]
                m@.dom().contains(k) <==> o.dom().contains(k) && !(ks.take(i as int).contains(k)
                    && o[k].name == name@),
            forall|k: Seq<char>| #[trigger] m@.dom().contains(k) ==> m@[k] == o[k],
        decreases keys@.len() - i,
    {
        let ghost before_m = m@;
        let ghost key = ks[i as int];
        proof {
            assert(ks.contains(key));
            assert(o.dom().contains(key));
            if ks.take(i as int).contains(key) {
                let j = choose|j: int| 0 <= j < i && ks.take(i as int)[j] == key;
                assert(before(ks[j], ks[i as int]));
                lemma_before_irreflexive(key);
            }
            assert(before_m.dom().contains(key));
        }
        let hit = match m.get(keys[i].as_str()) {
            Some(seat) => same(seat.name.as_str(), name),
            None => false,
        };
        if hit {
            let gone = m.remove(keys[i].as_str());
        }
        i += 1;
        proof {
            assert forall|k: Seq<char>| #[trigger]
                m@.dom().contains(k) <==> o.dom().contains(k) && !(ks.take(i as int).contains(k)
                    && o[k].name == name@) by {
                let t0 = ks.take(i as int - 1);
                let t1 = ks.take(i as int);
                assert(t1 =~= t0.push(key));
                if t0.contains(k) {
                    let j = choose|j: int| 0 <= j < t0.len() && t0[j] == k;
                    assert(t1[j] == k);
                }
                assert(t1[i as int - 1] == key);
                if t1.contains(k) && k != key {
                    let j = choose|j: int| 0 <= j < t1.len() && t1[j] == k;
                    assert(t0[j] == k);
                }
                assert(before_m.dom().contains(k) <==> o.dom().contains(k) && !(t0.contains(k)
                    && o[k].name == name@));
            }
        }
    }
    proof {
        assert(ks.take(ks.len() as int) =~= ks);
        assert forall|k: Seq<char>| #[trigger] m@.dom().contains(k) <==> seats_without(
            o,
            name@,
        ).dom().contains(k) by {
            if o.dom().contains(k) {
                assert(ks.to_set().contains(k));
            }
        }
        assert(m@ =~= seats_without(o, name@));
    }
}

impl Room {
    /// A room in which nothing has happened yet.
    pub fn with(mode: ChatMode, settings: RoomSettings, next_rev: u64) -> (r: Self)
        ensures
            r@ == fresh_room(mode@, settings@, next_rev),
    {
        let r = Room {
            history: Vec::new(),
            operations: Vec::new(),
            tx: Vec::new(),
            members: StrMap::new(),
            notes: StrMap::new(),
            journal: Vec::new(),
            next_journal_id: 1,
            next_rev,
            mode,
            settings,
            post_times: StrMap::new(),
            muted: StrSet::new(),
            banned: StrSet::new(),
            last_msg_ms: 0,
            tasks: IdMap::new(),
            next_task_id: 1,
            goals: IdMap::new(),
            next_goal_id: 1,
            waits: StrMap::new(),
            care_marks: StrMap::new(),
            attentions: StrMap::new(),
        };
        proof {
            let f = fresh_room(mode@, settings@, next_rev);
            assert(r@.history =~= f.history);
            assert(r@.operations =~= f.operations);
            assert(r@.tx =~= f.tx);
            assert(r@.journal =~= f.journal);
        }
        r
    }

    /// Sends a frame to the room's connections.
    pub fn send(&mut self, f: ServerFrame)
        ensures
            final(self)@ == sent(old(self)@, f@),
    {
        proof {
            lemma_views_push(self.tx@, f);
        }
        self.tx.push(f);
    }

    /// The roster, ordered by name.
    pub fn member_list(&self) -> (r: Vec<Member>)
        ensures
            views(r@) == roster(self@.members),
    {
        let n = self.members.len();
        let ghost seats = sorted_values(self.members@);
        let mut r: Vec<Member> = Vec::new();
        let mut i: usize = 0;
        assert(seats.take(0) =~= Seq::<SeatView>::empty());
        assert(views(r@) =~= Seq::<MemberView>::empty());
        while i < n
            invariant
                i <= n == seats.len() == sorted_keys(self.members@).len(),
                seats == sorted_values(self.members@),
                views(r@) == roster_of(seats.take(i as int)),
            decreases n - i,
        {
            let seat = self.members.at(i).1;
            let ghost x = MemberView { name: seat@.name, kind: seat@.kind };
            assert(seats[i as int] == seat@);
            let ghost o = views(r@);
            let mut p: usize = r.len();
            while p > 0 && is_before(seat.name.as_str(), r[p - 1].name.as_str())
                invariant
                    p <= r@.len(),
                    o == views(r@),
                    x.name == seat.name@,
                    forall|j: int| p <= j < r@.len() ==> before(x.name, o[j].name),
                decreases p,
            {
                p -= 1;
                assert(o[p as int].name == r@[p as int].name@);
            }
            proof {
                if p > 0 {
                    assert(o[p as int - 1].name == r@[p as int - 1].name@);
                }
                lemma_placed(o, x, p as int);
                assert(seats.take(i as int + 1).drop_last() =~= seats.take(i as int));
            }
            r.insert(p, Member { name: seat.name.clone(), kind: seat.kind });
            assert(views(r@) =~= o.insert(p as int, x));
            i += 1;
        }
        assert(seats.take(seats.len() as int) =~= seats);
        r
    }

    fn send_roster(&mut self)
        ensures
            final(self)@ == sent(
                old(self)@,
                ServerFrameView::Members { members: roster(old(self)@.members) },
            ),
    {
        let members = self.member_list();
        self.send(ServerFrame::Members { members });
    }

    /// Takes a seat. Tells whether there was one.
    pub fn join(&mut self, identity: &str, name: &str, kind: SenderType, session: u64) -> (r: bool)
        ensures
            r == (joined(old(self)@, identity@, name@, kind, session) is Some),
            final(self)@ == (match joined(old(self)@, identity@, name@, kind, session) {
                Some(n) => n,
                None => old(self)@,
            }),
    {
        let seats = self.members.len();
        let (seated, reader, held) = match self.members.get(identity) {
            Some(seat) => (
                true,
                same(seat.name.as_str(), name) && seat.kind == SenderType::User && kind
                    == SenderType::User,
                seat.connections,
            ),
            None => (false, false, 0),
        };
        if !seated && seats >= LOCA_KAPASITE {
            return false;
        }
        let connections: usize = if reader {
            if held < usize::MAX {
                held + 1
            } else {
                held
            }
        } else {
            1
        };
        if seated && !reader {
            self.send(
                ServerFrame::Evicted { name: name.to_owned(), identity: identity.to_owned(), session },
            );
        }
        self.members.insert(identity.to_owned(), Seat { name: name.to_owned(), kind, connections });
        self.send_roster();
        true
    }

    /// Ends one connection of a seat.
    pub fn leave(&mut self, identity: &str)
        ensures
            final(self)@ == left(old(self)@, identity@),
    {
        let held = self.members.remove(identity);
        match held {
            Some(seat) => {
                if seat.connections > 1 {
                    let kept = Seat {
                        name: seat.name,
                        kind: seat.kind,
                        connections: seat.connections - 1,
                    };
                    self.members.insert(identity.to_owned(), kept);
                    assert(self.members@ =~= seats_after_leave(old(self)@.members, identity@));
                }
            },
            None => {
                assert(self.members@ =~= old(self)@.members);
            },
        }
        self.send_roster();
    }

    /// Who is muted and who is banned, in order.
    pub fn mod_state(&self) -> (r: ModState)
        ensures
            r@ == mod_state(self@),
    {
        ModState { muted: self.muted.list(), banned: self.banned.list() }
    }

    fn send_mod_state(&mut self)
        ensures
            final(self)@ == sent(
                old(self)@,
                ServerFrameView::Mod { state: mod_state(old(self)@) },
            ),
    {
        let state = self.mod_state();
        self.send(ServerFrame::Mod { state });
    }

    fn put_out(&mut self, name: &str, banned: bool)
        ensures
            final(self)@ == put_out(old(self)@, name@, banned),
    {
        remove_seats(&mut self.members, name);
        self.send(ServerFrame::Kicked { name: name.to_owned(), banned });
        self.send_roster();
    }

    /// Moderates a participant.
    pub fn moderate(&mut self, action: ModAction, name: &str)
        ensures
            final(self)@ == moderated(old(self)@, action, name@),
    {
        match action {
            ModAction::Mute => {
                self.muted.insert(name);
                self.send_mod_state();
            },
            ModAction::Unmute => {
                self.muted.remove(name);
                self.send_mod_state();
            },
            ModAction::Unban => {
                self.banned.remove(name);
                self.send_mod_state();
            },
            ModAction::Kick => self.put_out(name, false),
            ModAction::Release => self.put_out(name, false),
            ModAction::Ban => {
                self.banned.insert(name);
                self.put_out(name, true);
            },
        }
    }

    /// Changes settings.
    pub fn configure(&mut self, c: SetSettings, now: u64)
        ensures
            final(self)@ == configured(old(self)@, c@, now),
    {
        let was_archived = self.settings.archived;
        let live_on = match c.live {
            Some(l) => l,
            None => false,
        };
        let kept = self.settings.dup();
        self.settings = apply_settings(kept, c);
        if !was_archived && self.settings.archived {
            self.care_marks = StrMap::new();
        }
        if live_on {
            self.last_msg_ms = now;
        }
        let settings = self.settings.dup();
        self.send(ServerFrame::Settings { settings });
    }

    /// Changes the mode.
    pub fn set_mode(&mut self, mode: ChatMode)
        ensures
            final(self)@ == mode_set(old(self)@, mode@),
    {
        let mode = sanitize_mode(mode);
        self.mode = mode.dup();
        self.send(ServerFrame::Mode { mode });
    }

    /// Ends live mode where it has been idle for too long.
    pub fn expire_live(&mut self, now: u64, saved: bool)
        ensures
            final(self)@ == live_ended(old(self)@, now, saved),
    {
        let t: u64 = self.settings.live_timeout_secs as u64;
        if self.settings.live && t > 0 && self.last_msg_ms > 0 && now > self.last_msg_ms && now
            - self.last_msg_ms > t * 1000 {
            let mut settings = self.settings.dup();
            settings.live = false;
            if saved {
                self.settings.live = false;
            }
            self.send(ServerFrame::Settings { settings });
            let mut cmd = "live-expired:".to_owned();
            cmd.append(decimal(t).as_str());
            self.send(ServerFrame::Control { cmd });
        }
    }
}

/// Puts the turn of a mode inside its order.
pub fn sanitize_mode(mode: ChatMode) -> (r: ChatMode)
    ensures
        r@ == sane_mode(mode@),
{
    match mode {
        ChatMode::RoundRobin { order, turn } => {
            let t: usize = if turn >= order.len() {
                0
            } else {
                turn
            };
            ChatMode::RoundRobin { order, turn: t }
        },
        other => other,
    }
}

/// The new value of a setting.
fn pick<T>(requested: Option<T>, kept: T) -> (r: T)
    ensures
        r == or_kept(requested, kept),
{
    match requested {
        Some(v) => v,
        None => kept,
    }
}

/// The new value of a setting that has a range.
fn pick_in(requested: Option<u32>, kept: u32, lo: u32, hi: u32) -> (r: u32)
    requires
        lo <= hi,
    ensures
        r == (match requested {
            Some(v) => clamped(v, lo, hi),
            None => kept,
        }),
{
    match requested {
        Some(v) => clamp(v, lo, hi),
        None => kept,
    }
}

/// Applies a request to settings.
pub fn apply_settings(s: RoomSettings, c: SetSettings) -> (r: RoomSettings)
    ensures
        r@ == changed_settings(s@, c@),
{
    let idle: u32 = pick_in(c.turn_idle_ms, s.turn_idle_ms, 100, 30000);
    let wait: u32 = pick_in(c.turn_max_wait_ms, s.turn_max_wait_ms, 100, 60000);
    RoomSettings {
        lead: s.lead,
        rate_limit: pick(c.rate_limit, s.rate_limit),
        rate_window_secs: pick_in(c.rate_window_secs, s.rate_window_secs, 1, u32::MAX),
        live: pick(c.live, s.live),
        archived: pick(c.archived, s.archived),
        live_timeout_secs: pick(c.live_timeout_secs, s.live_timeout_secs),
        operators: pick(c.operators, s.operators),
        turn_max_messages: pick_in(c.turn_max_messages, s.turn_max_messages, 1, 16),
        turn_idle_ms: idle,
        turn_max_wait_ms: if wait < idle {
            idle
        } else {
            wait
        },
        care_wait_secs: pick(c.care_wait_secs, s.care_wait_secs),
        care_cooldown_secs: pick(c.care_cooldown_secs, s.care_cooldown_secs),
        care_max_attempts: pick_in(c.care_max_attempts, s.care_max_attempts, 1, 10),
        care_context_messages: pick_in(c.care_context_messages, s.care_context_messages, 0, 20),
        care_recipient: pick(c.care_recipient, s.care_recipient),
        care_goal_secs: pick(c.care_goal_secs, s.care_goal_secs),
        care_task_secs: pick(c.care_task_secs, s.care_task_secs),
        care_silence_secs: pick(c.care_silence_secs, s.care_silence_secs),
    }
}

} // verus!
