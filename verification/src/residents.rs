//! Residents: everyone the building knows, and where they sit.
use crate::authority::lookup;
use crate::hub::{Hub, HubView};
use crate::protocol::{Membership, MembershipView, Resident, ResidentView};
use crate::room::{Room, RoomView};
use crate::runtime::{health_of, runtime_health_for};
use crate::table::sorted_keys;
use crate::text::{Dup, increasing, insert_name, lemma_views_push, listed, ov, same, views};
use vstd::prelude::*;

verus! {

/// The last member of that name.
pub open spec fn last_named(
    members: Map<Seq<char>, MembershipView>,
    keys: Seq<Seq<char>>,
    name: Seq<char>,
) -> Option<MembershipView>
    decreases keys.len(),
{
    if keys.len() == 0 {
        None
    } else if members[keys.last()].name == name {
        Some(members[keys.last()])
    } else {
        last_named(members, keys.drop_last(), name)
    }
}

/// Whether somebody has a seat in a room.
pub open spec fn has_seat(r: RoomView, name: Seq<char>) -> bool {
    exists|k: Seq<char>| r.members.dom().contains(k) && (#[trigger] r.members[k]).name == name
}

/// Whether somebody has a seat in a room of the building.
pub open spec fn sits(h: HubView, name: Seq<char>, room: Seq<char>) -> bool {
    h.rooms.dom().contains(room) && has_seat(h.rooms[room], name)
}

/// Whether somebody has a seat anywhere.
pub open spec fn sits_anywhere(h: HubView, name: Seq<char>) -> bool {
    exists|room: Seq<char>| #[trigger] sits(h, name, room)
}

/// Whether somebody holds a davet for a room.
pub open spec fn davet_for(h: HubView, name: Seq<char>, room: Seq<char>) -> bool {
    exists|k: Seq<char>|
        h.invites.dom().contains(k) && (#[trigger] h.invites[k]).name == name && h.invites[k].room
            == room
}

/// Whether an entry is that of a member: where they sit or may sit, each room
/// once, and whether they are there at all.
pub open spec fn is_resident(h: HubView, now: u64, r: ResidentView) -> bool {
    let m = last_named(h.members, sorted_keys(h.members), r.name);
    &&& m is Some
    &&& r.kind == m->0.kind
    &&& r.runtime == (if h.runtime_health.dom().contains(r.name) {
        Some(health_of(h.runtime_health[r.name], now))
    } else {
        None
    })
    &&& r.online == ((lookup(h.lobby_online, m->0.token) matches Some(n) && n > 0) || sits_anywhere(
        h,
        r.name,
    ))
    &&& r.locas.no_duplicates()
    &&& forall|room: Seq<char>| #[trigger]
        r.locas.contains(room) <==> davet_for(h, r.name, room) || sits(h, r.name, room)
}

/// The names of some residents.
pub open spec fn resident_names(rs: Seq<ResidentView>) -> Seq<Seq<char>> {
    rs.map_values(|r: ResidentView| r.name)
}

/// Whether a member bears a name.
pub open spec fn is_member_name(h: HubView, name: Seq<char>) -> bool {
    exists|k: Seq<char>| h.members.dom().contains(k) && (#[trigger] h.members[k]).name == name
}

proof fn lemma_last_named(
    members: Map<Seq<char>, MembershipView>,
    keys: Seq<Seq<char>>,
    name: Seq<char>,
    i: int,
)
    requires
        0 <= i < keys.len(),
        members[keys[i]].name == name,
    ensures
        last_named(members, keys, name) is Some,
    decreases keys.len(),
{
    if members[keys.last()].name != name {
        lemma_last_named(members, keys.drop_last(), name, i);
    }
}

/// Adds a room to a list, unless it stands there.
fn add_room(v: &mut Vec<String>, room: &str)
    requires
        views(old(v)@).no_duplicates(),
    ensures
        views(final(v)@).no_duplicates(),
        forall|x: Seq<char>| #[trigger]
            views(final(v)@).contains(x) <==> views(old(v)@).contains(x) || x == room@,
{
    let ghost o = views(v@);
    if listed(v, room) {
        return;
    }
    let s = room.to_owned();
    proof {
        lemma_views_push(v@, s);
    }
    v.push(s);
    proof {
        let n = views(v@);
        assert(n == o.push(room@));
        assert forall|i: int, j: int| 0 <= i < n.len() && 0 <= j < n.len() && i != j implies n[i]
            != n[j] by {
            if i == o.len() {
                assert(o.contains(o[j]));
            } else if j == o.len() {
                assert(o.contains(o[i]));
            }
        }
        assert forall|x: Seq<char>| #[trigger] n.contains(x) <==> o.contains(x) || x == room@ by {
            if o.contains(x) {
                let m = choose|m: int| 0 <= m < o.len() && o[m] == x;
                assert(n[m] == x);
            }
            assert(n[o.len() as int] == room@);
            if n.contains(x) && x != room@ {
                let m = choose|m: int| 0 <= m < n.len() && n[m] == x;
                assert(o[m] == x);
            }
        }
    }
}

impl Room {
    /// Whether somebody has a seat.
    pub fn has_seat(&self, name: &str) -> (r: bool)
        ensures
            r == has_seat(self@, name@),
    {
        let n = self.members.len();
        let ghost ks = sorted_keys(self@.members);
        let mut i: usize = 0;
        while i < n
            invariant
                i <= n == ks.len(),
                ks == sorted_keys(self@.members),
                ks.to_set() == self@.members.dom(),
                forall|j: int| 0 <= j < i ==> (#[trigger] self@.members[ks[j]]).name != name@,
            decreases n - i,
        {
            let (key, seat) = self.members.at(i);
            assert(ks[i as int] == key@);
            if same(seat.name.as_str(), name) {
                assert(self@.members[key@].name == name@);
                return true;
            }
            i += 1;
        }
        proof {
            if has_seat(self@, name@) {
                let k = choose|k: Seq<char>|
                    self@.members.dom().contains(k) && (#[trigger] self@.members[k]).name == name@;
                assert(ks.to_set().contains(k));
                let j = choose|j: int| 0 <= j < ks.len() && ks[j] == k;
                assert(self@.members[ks[j]].name == name@);
            }
        }
        false
    }
}

impl Hub {
    /// The rooms for which somebody holds a davet, each once.
    fn davet_rooms(&self, name: &str) -> (r: Vec<String>)
        ensures
            views(r@).no_duplicates(),
            forall|room: Seq<char>| #[trigger]
                views(r@).contains(room) <==> davet_for(self@, name@, room),
    {
        let n = self.invites.len();
        let ghost ks = sorted_keys(self@.invites);
        let mut out: Vec<String> = Vec::new();
        let mut i: usize = 0;
        while i < n
            invariant
                i <= n == ks.len(),
                ks == sorted_keys(self@.invites),
                ks.to_set() == self@.invites.dom(),
                views(out@).no_duplicates(),
                forall|room: Seq<char>| #[trigger]
                    views(out@).contains(room) <==> exists|j: int|
                        0 <= j < i && self@.invites[#[trigger] ks[j]].name == name@
                            && self@.invites[ks[j]].room == room,
            decreases n - i,
        {
            let (token, inv) = self.invites.at(i);
            let ghost o = views(out@);
            if same(inv.name.as_str(), name) {
                add_room(&mut out, inv.room.as_str());
            }
            proof {
                assert(ks[i as int] == token@);
                assert forall|room: Seq<char>| #[trigger]
                    views(out@).contains(room) <==> exists|j: int|
                        0 <= j < i + 1 && self@.invites[#[trigger] ks[j]].name == name@
                            && self@.invites[ks[j]].room == room by {
                    if o.contains(room) {
                        let j = choose|j: int|
                            0 <= j < i && self@.invites[#[trigger] ks[j]].name == name@
                                && self@.invites[ks[j]].room == room;
                        assert(0 <= j < i + 1);
                    }
                    if inv@.name == name@ && inv@.room == room {
                        assert(self@.invites[ks[i as int]].room == room);
                    }
                }
            }
            i += 1;
        }
        proof {
            assert forall|room: Seq<char>| #[trigger]
                views(out@).contains(room) <==> davet_for(self@, name@, room) by {
                if views(out@).contains(room) {
                    let j = choose|j: int|
                        0 <= j < ks.len() && self@.invites[#[trigger] ks[j]].name == name@
                            && self@.invites[ks[j]].room == room;
                    assert(ks.contains(ks[j]));
                    assert(ks.to_set().contains(ks[j]));
                }
                if davet_for(self@, name@, room) {
                    let k = choose|k: Seq<char>|
                        self@.invites.dom().contains(k) && (#[trigger] self@.invites[k]).name
                            == name@ && self@.invites[k].room == room;
                    assert(ks.to_set().contains(k));
                    let j = choose|j: int| 0 <= j < ks.len() && ks[j] == k;
                    assert(self@.invites[ks[j]].room == room);
                }
            }
        }
        out
    }

    /// Adds the rooms in which somebody has a seat. Tells whether there is one.
    fn add_seats(&self, name: &str, out: &mut Vec<String>) -> (r: bool)
        requires
            views(old(out)@).no_duplicates(),
        ensures
            views(final(out)@).no_duplicates(),
            forall|room: Seq<char>| #[trigger]
                views(final(out)@).contains(room) <==> views(old(out)@).contains(room) || sits(
                    self@,
                    name@,
                    room,
                ),
            r == sits_anywhere(self@, name@),
    {
        let n = self.rooms.len();
        let ghost ks = sorted_keys(self@.rooms);
        let ghost o0 = views(out@);
        let mut any = false;
        let mut i: usize = 0;
        while i < n
            invariant
                i <= n == ks.len(),
                ks == sorted_keys(self@.rooms),
                ks.to_set() == self@.rooms.dom(),
                views(out@).no_duplicates(),
                forall|room: Seq<char>| #[trigger]
                    views(out@).contains(room) <==> o0.contains(room) || (ks.take(i as int).contains(
                        room,
                    ) && sits(self@, name@, room)),
                any == exists|j: int| 0 <= j < i && sits(self@, name@, #[trigger] ks[j]),
            decreases n - i,
        {
            let (room_name, rm) = self.rooms.at(i);
            let ghost o = views(out@);
            assert(ks[i as int] == room_name@);
            if rm.has_seat(name) {
                add_room(out, room_name.as_str());
                any = true;
                assert(sits(self@, name@, ks[i as int]));
            }
            proof {
                let t0 = ks.take(i as int);
                let t1 = ks.take(i as int + 1);
                assert forall|room: Seq<char>| #[trigger]
                    views(out@).contains(room) <==> o0.contains(room) || (t1.contains(room) && sits(
                        self@,
                        name@,
                        room,
                    )) by {
                    if t0.contains(room) {
                        let j = choose|j: int| 0 <= j < t0.len() && t0[j] == room;
                        assert(t1[j] == room);
                    }
                    assert(t1[i as int] == ks[i as int]);
                    if t1.contains(room) && room != ks[i as int] {
                        let j = choose|j: int| 0 <= j < t1.len() && t1[j] == room;
                        assert(t0[j] == room);
                    }
                }
            }
            i += 1;
        }
        proof {
            assert(ks.take(ks.len() as int) =~= ks);
            assert forall|room: Seq<char>| #[trigger]
                views(out@).contains(room) <==> o0.contains(room) || sits(self@, name@, room) by {
                if sits(self@, name@, room) {
                    assert(ks.to_set().contains(room));
                }
            }
            if sits_anywhere(self@, name@) {
                let room = choose|room: Seq<char>| #[trigger] sits(self@, name@, room);
                assert(ks.to_set().contains(room));
                let j = choose|j: int| 0 <= j < ks.len() && ks[j] == room;
                assert(sits(self@, name@, ks[j]));
            }
        }
        any
    }

    /// The last member of that name.
    fn last_member_named(&self, name: &str) -> (r: Option<Membership>)
        ensures
            ov(r) == last_named(self@.members, sorted_keys(self@.members), name@),
    {
        let n = self.members.len();
        let ghost ks = sorted_keys(self@.members);
        let mut i: usize = n;
        assert(ks.take(n as int) =~= ks);
        while i > 0
            invariant
                i <= n == ks.len(),
                ks == sorted_keys(self@.members),
                last_named(self@.members, ks, name@) == last_named(
                    self@.members,
                    ks.take(i as int),
                    name@,
                ),
            decreases i,
        {
            i -= 1;
            assert(ks.take(i as int + 1).drop_last() =~= ks.take(i as int));
            let (token, m) = self.members.at(i);
            if same(m.name.as_str(), name) {
                return Some(m.dup());
            }
        }
        None
    }

    /// The names of the members, in order, each once.
    fn member_names(&self) -> (r: Vec<String>)
        ensures
            increasing(views(r@)),
            forall|n: Seq<char>| #[trigger] views(r@).contains(n) <==> is_member_name(self@, n),
    {
        let n = self.members.len();
        let ghost ks = sorted_keys(self@.members);
        let mut out: Vec<String> = Vec::new();
        let mut i: usize = 0;
        while i < n
            invariant
                i <= n == ks.len(),
                ks == sorted_keys(self@.members),
                ks.to_set() == self@.members.dom(),
                increasing(views(out@)),
                forall|x: Seq<char>| #[trigger]
                    views(out@).contains(x) <==> exists|j: int|
                        0 <= j < i && self@.members[#[trigger] ks[j]].name == x,
            decreases n - i,
        {
            let (token, m) = self.members.at(i);
            let ghost o = views(out@);
            insert_name(&mut out, m.name.as_str());
            proof {
                assert(ks[i as int] == token@);
                assert forall|x: Seq<char>| #[trigger]
                    views(out@).contains(x) <==> exists|j: int|
                        0 <= j < i + 1 && self@.members[#[trigger] ks[j]].name == x by {
                    if o.contains(x) {
                        let j = choose|j: int| 0 <= j < i && self@.members[#[trigger] ks[j]].name == x;
                        assert(0 <= j < i + 1);
                    }
                    if x == m.name@ {
                        assert(self@.members[ks[i as int]].name == x);
                    }
                }
            }
            i += 1;
        }
        proof {
            assert forall|x: Seq<char>| #[trigger]
                views(out@).contains(x) <==> is_member_name(self@, x) by {
                if views(out@).contains(x) {
                    let j = choose|j: int|
                        0 <= j < ks.len() && self@.members[#[trigger] ks[j]].name == x;
                    assert(ks.contains(ks[j]));
                    assert(ks.to_set().contains(ks[j]));
                }
                if is_member_name(self@, x) {
                    let k = choose|k: Seq<char>|
                        self@.members.dom().contains(k) && (#[trigger] self@.members[k]).name == x;
                    assert(ks.to_set().contains(k));
                    let j = choose|j: int| 0 <= j < ks.len() && ks[j] == k;
                    assert(self@.members[ks[j]].name == x);
                }
            }
        }
        out
    }

    /// Everyone the building knows, ordered by name, and where they sit.
    pub fn residents(&self, now: u64) -> (r: Vec<Resident>)
        ensures
            increasing(resident_names(views(r@))),
            forall|n: Seq<char>| #[trigger]
                resident_names(views(r@)).contains(n) <==> is_member_name(self@, n),
            forall|i: int| 0 <= i < r@.len() ==> is_resident(self@, now, #[trigger] views(r@)[i]),
    {
        let names = self.member_names();
        let ghost ns = views(names@);
        let members = self.members.len();
        let ghost ks = sorted_keys(self@.members);
        let mut out: Vec<Resident> = Vec::new();
        let mut i: usize = 0;
        assert(resident_names(views(out@)) =~= ns.take(0));
        while i < names.len()
            invariant
                i <= names@.len(),
                ns == views(names@),
                ks == sorted_keys(self@.members),
                ks.to_set() == self@.members.dom(),
                forall|n: Seq<char>| #[trigger] ns.contains(n) <==> is_member_name(self@, n),
                out@.len() == i,
                resident_names(views(out@)) == ns.take(i as int),
                forall|j: int| 0 <= j < i ==> is_resident(self@, now, #[trigger] views(out@)[j]),
            decreases names@.len() - i,
        {
            let name = names[i].as_str();
            proof {
                assert(ns.contains(ns[i as int]));
                let k = choose|k: Seq<char>|
                    self@.members.dom().contains(k) && (#[trigger] self@.members[k]).name == name@;
                assert(ks.to_set().contains(k));
                let j = choose|j: int| 0 <= j < ks.len() && ks[j] == k;
                lemma_last_named(self@.members, ks, name@, j);
            }
            if let Some(m) = self.last_member_named(name) {
                let mut locas = self.davet_rooms(name);
                let here = self.add_seats(name, &mut locas);
                let online = self.lobby_is_online(m.token.as_str()) || here;
                let resident = Resident {
                    name: names[i].clone(),
                    kind: m.kind,
                    locas,
                    online,
                    runtime: runtime_health_for(&self.runtime_health, name, now),
                };
                let ghost o = views(out@);
                proof {
                    lemma_views_push(out@, resident);
                }
                out.push(resident);
                proof {
                    assert(views(out@) == o.push(resident@));
                    assert(resident_names(views(out@)) =~= ns.take(i as int).push(name@));
                    assert(ns.take(i as int + 1) =~= ns.take(i as int).push(name@));
                    assert forall|j: int| 0 <= j < i + 1 implies is_resident(
                        self@,
                        now,
                        #[trigger] views(out@)[j],
                    ) by {
                        if j < i {
                            assert(views(out@)[j] == o[j]);
                        }
                    }
                }
            }
            i += 1;
        }
        assert(ns.take(ns.len() as int) =~= ns);
        out
    }
}

} // verus!
