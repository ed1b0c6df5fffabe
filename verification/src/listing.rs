//! Listings: the rooms, the residents, and what a search finds.
use crate::authority::{Directory, DirectoryView, SessionIdentity, SessionIdentityView};
use crate::door::{EnterDecision, enter, sv};
use crate::hub::{Hub, HubView};
use crate::protocol::{
    Message, MessageView, Note, NoteView, RoomSummary, RoomSummaryView, SenderType,
};
use crate::room::{Room, SeatView};
use crate::table::{sorted_keys, sorted_values};
use crate::text::{
    Dup, chars_of, lemma_views_push, lowercase, ov, string_of_range, to_lowercase, views,
};
use vstd::prelude::*;

verus! {

/// How many connected seats are of a kind.
pub open spec fn seats_of_kind(seats: Seq<SeatView>, kind: SenderType) -> nat
    decreases seats.len(),
{
    if seats.len() == 0 {
        0
    } else {
        seats_of_kind(seats.drop_last(), kind) + (if seats.last().connections > 0
            && seats.last().kind == kind {
            1nat
        } else {
            0nat
        })
    }
}

/// The beginning of a text, no more than so many characters.
pub open spec fn beginning(s: Seq<char>, n: int) -> Seq<char> {
    if s.len() <= n {
        s
    } else {
        s.take(n)
    }
}

/// A room in the list of rooms.
pub open spec fn summary(h: HubView, room: Seq<char>) -> RoomSummaryView {
    let r = h.rooms[room];
    let seats = sorted_values(r.members);
    let humans = seats_of_kind(seats, SenderType::User);
    let agents = seats_of_kind(seats, SenderType::Agent);
    RoomSummaryView {
        room,
        members: (humans + agents) as usize,
        humans: humans as usize,
        agents: agents as usize,
        mode: r.mode,
        archived: r.settings.archived,
        last: if r.history.len() == 0 {
            None
        } else {
            Some(r.history.last().sender + ": "@ + beginning(r.history.last().text, 48))
        },
        last_id: if r.history.len() == 0 {
            0
        } else {
            r.history.last().id
        },
        special: h.reserved_room.len() > 0 && room == h.reserved_room,
    }
}

/// The rooms that one reaches, in order.
pub open spec fn reached(
    h: HubView,
    dir: DirectoryView,
    rooms: Seq<Seq<char>>,
    admin: Option<Seq<char>>,
    davet: Option<Seq<char>>,
    session: Option<SessionIdentityView>,
) -> Seq<Seq<char>>
    decreases rooms.len(),
{
    if rooms.len() == 0 {
        Seq::empty()
    } else {
        let prev = reached(h, dir, rooms.drop_last(), admin, davet, session);
        if enter(h, dir, rooms.last(), admin, davet, session, None) == EnterDecision::Allowed {
            prev.push(rooms.last())
        } else {
            prev
        }
    }
}

/// The messages after a number, no more than so many.
pub open spec fn messages_since(history: Seq<MessageView>, since: u64, limit: nat) -> Seq<MessageView>
    decreases history.len(),
{
    if history.len() == 0 {
        Seq::empty()
    } else {
        let prev = messages_since(history.drop_last(), since, limit);
        if history.last().id > since && prev.len() < limit {
            prev.push(history.last())
        } else {
            prev
        }
    }
}

/// Whether a text holds another.
pub open spec fn holds_text(s: Seq<char>, part: Seq<char>) -> bool {
    exists|i: int| 0 <= i <= s.len() - part.len() && #[trigger] s.subrange(i, i + part.len()) == part
}

/// Whether a note is found: its title, body or key holds the text, small and
/// capital letters aside.
pub open spec fn note_found(n: NoteView, q: Seq<char>) -> bool {
    holds_text(lowercase(n.title), lowercase(q)) || holds_text(lowercase(n.body), lowercase(q))
        || holds_text(lowercase(n.key), lowercase(q))
}

/// The notes that are found, in order.
pub open spec fn notes_found(notes: Seq<NoteView>, q: Seq<char>) -> Seq<NoteView>
    decreases notes.len(),
{
    if notes.len() == 0 {
        Seq::empty()
    } else {
        let prev = notes_found(notes.drop_last(), q);
        if note_found(notes.last(), q) {
            prev.push(notes.last())
        } else {
            prev
        }
    }
}

/// Whether a text holds another.
pub fn text_holds(s: &str, part: &str) -> (r: bool)
    ensures
        r == holds_text(s@, part@),
{
    let a = chars_of(s);
    let b = chars_of(part);
    if b.len() > a.len() {
        return false;
    }
    let n: usize = a.len();
    let last: usize = n - b.len();
    let mut i: usize = 0;
    loop
        invariant
            a@.len() == n,
            a@ == s@,
            b@ == part@,
            last + b@.len() == a@.len(),
            i <= last,
            forall|k: int| 0 <= k < i ==> #[trigger] s@.subrange(k, k + part@.len()) != part@,
        decreases last - i,
    {
        let mut j: usize = 0;
        while j < b.len() && a[i + j] == b[j]
            invariant
                a@.len() == n,
                a@ == s@,
                b@ == part@,
                last + b@.len() == a@.len(),
                i <= last,
                j <= b@.len(),
                forall|k: int| 0 <= k < j ==> a@[i + k] == b@[k],
            decreases b@.len() - j,
        {
            j += 1;
        }
        if j == b.len() {
            assert(s@.subrange(i as int, i + part@.len()) =~= part@);
            return true;
        }
        assert(s@.subrange(i as int, i + part@.len())[j as int] != part@[j as int]);
        if i == last {
            return false;
        }
        i += 1;
    }
}

fn count_kind(r: &Room, kind: SenderType) -> (n: usize)
    ensures
        n == seats_of_kind(sorted_values(r@.members), kind),
        n <= sorted_values(r@.members).len(),
{
    let total = r.members.len();
    let ghost seats = sorted_values(r@.members);
    let mut n: usize = 0;
    let mut i: usize = 0;
    assert(seats.take(0) =~= Seq::<SeatView>::empty());
    while i < total
        invariant
            i <= total == seats.len() == sorted_keys(r@.members).len(),
            seats == sorted_values(r@.members),
            n == seats_of_kind(seats.take(i as int), kind),
            n <= i,
        decreases total - i,
    {
        assert(seats.take(i as int + 1).drop_last() =~= seats.take(i as int));
        let (key, seat) = r.members.at(i);
        assert(seats[i as int] == seat@);
        if seat.connections > 0 && seat.kind == kind {
            n += 1;
        }
        i += 1;
    }
    assert(seats.take(seats.len() as int) =~= seats);
    n
}

/// Seats of the two kinds are different seats.
proof fn lemma_kinds(seats: Seq<SeatView>)
    ensures
        seats_of_kind(seats, SenderType::User) + seats_of_kind(seats, SenderType::Agent)
            <= seats.len(),
    decreases seats.len(),
{
    if seats.len() > 0 {
        lemma_kinds(seats.drop_last());
    }
}

impl Hub {
    /// A room in the list of rooms.
    pub fn room_summary(&self, room: &str) -> (r: Option<RoomSummary>)
        ensures
            ov(r) == (if self@.rooms.dom().contains(room@) {
                Some(summary(self@, room@))
            } else {
                None
            }),
    {
        match self.rooms.get(room) {
            None => None,
            Some(rm) => {
                let humans = count_kind(rm, SenderType::User);
                let agents = count_kind(rm, SenderType::Agent);
                proof {
                    lemma_kinds(sorted_values(rm@.members));
                }
                let total = rm.members.len();
                assert(sorted_values(rm@.members).len() == total);
                let n = rm.history.len();
                let (last, last_id) = if n == 0 {
                    (None, 0u64)
                } else {
                    let m = &rm.history[n - 1];
                    let v = chars_of(m.text.as_str());
                    let cut: usize = if v.len() < 48 {
                        v.len()
                    } else {
                        48
                    };
                    let mut line = m.sender.clone();
                    line.append(": ");
                    let t = string_of_range(&v, 0, cut);
                    line.append(t.as_str());
                    proof {
                        assert(t@ =~= beginning(m.text@, 48));
                        assert(rm@.history.last() == m@);
                    }
                    (Some(line), m.id)
                };
                Some(
                    RoomSummary {
                        room: room.to_owned(),
                        members: humans + agents,
                        humans,
                        agents,
                        mode: rm.mode.dup(),
                        archived: rm.settings.archived,
                        last,
                        last_id,
                        special: self.is_reserved_room(room),
                    },
                )
            },
        }
    }

    /// The rooms that one reaches, in order.
    pub fn reachable_rooms(
        &self,
        admin: Option<&str>,
        davet: Option<&str>,
        session: Option<&SessionIdentity>,
        dir: &Directory,
    ) -> (r: Vec<String>)
        ensures
            views(r@) == reached(
                self@,
                dir@,
                sorted_keys(self@.rooms),
                sv(admin),
                sv(davet),
                (match session {
                    Some(s) => Some(s@),
                    None => None,
                }),
            ),
    {
        let names = self.rooms.keys();
        let ghost ks = views(names@);
        let ghost s: Option<SessionIdentityView> = match session {
            Some(s) => Some(s@),
            None => None,
        };
        let mut out: Vec<String> = Vec::new();
        let mut i: usize = 0;
        assert(ks.take(0) =~= Seq::<Seq<char>>::empty());
        assert(views(out@) =~= Seq::<Seq<char>>::empty());
        while i < names.len()
            invariant
                i <= names@.len(),
                ks == views(names@),
                s == (match session {
                    Some(s) => Some(s@),
                    None => None,
                }),
                views(out@) == reached(self@, dir@, ks.take(i as int), sv(admin), sv(davet), s),
            decreases names@.len() - i,
        {
            assert(ks.take(i as int + 1).drop_last() =~= ks.take(i as int));
            if self.enter_decision(names[i].as_str(), admin, davet, session, None, dir).is_allowed() {
                let x = names[i].clone();
                proof {
                    lemma_views_push(out@, x);
                }
                out.push(x);
            }
            i += 1;
        }
        assert(ks.take(ks.len() as int) =~= ks);
        out
    }

    /// The rooms that one reaches, each with its summary, in order.
    pub fn room_summaries_for(
        &self,
        admin: Option<&str>,
        davet: Option<&str>,
        session: Option<&SessionIdentity>,
        dir: &Directory,
    ) -> (r: Vec<RoomSummary>)
        ensures
            ({
                let names = reached(
                    self@,
                    dir@,
                    sorted_keys(self@.rooms),
                    sv(admin),
                    sv(davet),
                    (match session {
                        Some(s) => Some(s@),
                        None => None,
                    }),
                );
                views(r@) == names.map_values(|n: Seq<char>| summary(self@, n))
            }),
    {
        let names = self.reachable_rooms(admin, davet, session, dir);
        let ghost ns = views(names@);
        let ghost f = |n: Seq<char>| summary(self@, n);
        let rooms = self.rooms.len();
        proof {
            lemma_reached_known(
                self@,
                dir@,
                sorted_keys(self@.rooms),
                sv(admin),
                sv(davet),
                (match session {
                    Some(s) => Some(s@),
                    None => None,
                }),
            );
        }
        let mut out: Vec<RoomSummary> = Vec::new();
        let mut i: usize = 0;
        assert(views(out@) =~= ns.take(0).map_values(f));
        while i < names.len()
            invariant
                i <= names@.len(),
                ns == views(names@),
                f == (|n: Seq<char>| summary(self@, n)),
                forall|j: int| 0 <= j < ns.len() ==> self@.rooms.dom().contains(#[trigger] ns[j]),
                views(out@) == ns.take(i as int).map_values(f),
            decreases names@.len() - i,
        {
            assert(self@.rooms.dom().contains(ns[i as int]));
            if let Some(s) = self.room_summary(names[i].as_str()) {
                proof {
                    lemma_views_push(out@, s);
                    assert(ns.take(i as int + 1).map_values(f) =~= ns.take(i as int).map_values(
                        f,
                    ).push(f(ns[i as int])));
                }
                out.push(s);
            }
            i += 1;
        }
        assert(ns.take(ns.len() as int) =~= ns);
        out
    }

    /// The messages that a room has at hand after a number, no more than so many.
    pub fn messages_after(&self, room: &str, since: u64, limit: usize) -> (r: Vec<Message>)
        ensures
            views(r@) == (if self@.rooms.dom().contains(room@) {
                messages_since(self@.rooms[room@].history, since, limit as nat)
            } else {
                Seq::empty()
            }),
    {
        let mut out: Vec<Message> = Vec::new();
        assert(views(out@) =~= Seq::<MessageView>::empty());
        match self.rooms.get(room) {
            None => out,
            Some(rm) => {
                let ghost h = rm@.history;
                let mut i: usize = 0;
                assert(h.take(0) =~= Seq::<MessageView>::empty());
                while i < rm.history.len()
                    invariant
                        i <= rm.history@.len(),
                        h == rm@.history,
                        views(out@) == messages_since(h.take(i as int), since, limit as nat),
                    decreases rm.history@.len() - i,
                {
                    assert(h.take(i as int + 1).drop_last() =~= h.take(i as int));
                    assert(h[i as int] == rm.history@[i as int]@);
                    assert(views(out@).len() == out@.len());
                    if rm.history[i].id > since && out.len() < limit {
                        let x = rm.history[i].dup();
                        proof {
                            lemma_views_push(out@, x);
                        }
                        out.push(x);
                    }
                    i += 1;
                }
                assert(h.take(h.len() as int) =~= h);
                out
            },
        }
    }

    /// What a search of a room finds: the messages that the record found, and the
    /// notes whose title, body or key holds the words, ordered by key.
    pub fn search(&self, room: &str, q: &str, found: Vec<Message>) -> (r: (Vec<Message>, Vec<Note>))
        ensures
            r.0 == found,
            views(r.1@) == (if self@.rooms.dom().contains(room@) {
                notes_found(sorted_values(self@.rooms[room@].notes), q@)
            } else {
                Seq::empty()
            }),
    {
        let all = self.notes(room);
        let ghost vs = views(all@);
        let ql = to_lowercase(q);
        let mut out: Vec<Note> = Vec::new();
        let mut i: usize = 0;
        assert(vs.take(0) =~= Seq::<NoteView>::empty());
        assert(views(out@) =~= Seq::<NoteView>::empty());
        while i < all.len()
            invariant
                i <= all@.len(),
                vs == views(all@),
                ql@ == lowercase(q@),
                views(out@) == notes_found(vs.take(i as int), q@),
            decreases all@.len() - i,
        {
            assert(vs.take(i as int + 1).drop_last() =~= vs.take(i as int));
            let n = &all[i];
            let title = to_lowercase(n.title.as_str());
            let body = to_lowercase(n.body.as_str());
            let key = to_lowercase(n.key.as_str());
            if text_holds(title.as_str(), ql.as_str()) || text_holds(body.as_str(), ql.as_str())
                || text_holds(key.as_str(), ql.as_str()) {
                let x = n.dup();
                proof {
                    lemma_views_push(out@, x);
                }
                out.push(x);
            }
            i += 1;
        }
        assert(vs.take(vs.len() as int) =~= vs);
        (found, out)
    }
}

/// The rooms that one reaches are among those asked for.
pub proof fn lemma_reached_known(
    h: HubView,
    dir: DirectoryView,
    rooms: Seq<Seq<char>>,
    admin: Option<Seq<char>>,
    davet: Option<Seq<char>>,
    session: Option<SessionIdentityView>,
)
    ensures
        forall|i: int|
            0 <= i < reached(h, dir, rooms, admin, davet, session).len() ==> rooms.to_set().contains(
                #[trigger] reached(h, dir, rooms, admin, davet, session)[i],
            ),
    decreases rooms.len(),
{
    if rooms.len() > 0 {
        let rest = rooms.drop_last();
        let all = reached(h, dir, rooms, admin, davet, session);
        let prev = reached(h, dir, rest, admin, davet, session);
        lemma_reached_known(h, dir, rest, admin, davet, session);
        assert forall|i: int| 0 <= i < all.len() implies rooms.to_set().contains(
            #[trigger] all[i],
        ) by {
            if i < prev.len() {
                assert(all[i] == prev[i]);
                assert(rest.to_set().contains(prev[i]));
                let j = choose|j: int| 0 <= j < rest.len() && rest[j] == prev[i];
                assert(rooms[j] == prev[i]);
            } else {
                assert(rooms[rooms.len() - 1] == all[i]);
            }
        }
    }
}

} // verus!
