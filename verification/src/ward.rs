//! The ward: who is called for attention in the building, and what becomes of
//! the calls.
use crate::authority::{Directory, DirectoryView};
use crate::care::{Recipient, RecipientView, seated, seated_names};
use crate::hub::{Hub, HubView};
use crate::protocol::{ReminderRecipient, ReminderRecipientView};
use crate::room::{Room, RoomView};
use crate::runtime::{is_name_ready, name_ready};
use crate::table::{StrMap, sorted_keys};
use crate::text::{before, increasing, lemma_views_push, ov, same, views};
use vstd::prelude::*;

verus! {

// ---- who is called ----

/// Whom a room asks first.
pub open spec fn owner_candidates(r: RoomView) -> Seq<Seq<char>> {
    match r.settings.care_recipient {
        ReminderRecipientView::Lead => match r.settings.lead {
            Some(l) => seq![l],
            None => Seq::empty(),
        },
        ReminderRecipientView::Person { name } => seq![name],
        ReminderRecipientView::All => match r.settings.lead {
            Some(l) => seq![l] + without(seated_names(r), l),
            None => seated_names(r),
        },
    }
}

/// A list without a name.
pub open spec fn without(names: Seq<Seq<char>>, name: Seq<char>) -> Seq<Seq<char>>
    decreases names.len(),
{
    if names.len() == 0 {
        Seq::empty()
    } else if names.last() == name {
        without(names.drop_last(), name)
    } else {
        without(names.drop_last(), name).push(names.last())
    }
}

/// Whether somebody sits in a room and their runtime can take a turn.
pub open spec fn healthy_in(h: HubView, r: RoomView, name: Seq<char>, now: u64) -> bool {
    seated(r, name) && name_ready(h.runtime_health, name, now)
}

/// The first of some people who is healthy in a room.
pub open spec fn first_healthy(h: HubView, r: RoomView, names: Seq<Seq<char>>, now: u64) -> Option<
    Seq<char>,
>
    decreases names.len(),
{
    if names.len() == 0 {
        None
    } else if healthy_in(h, r, names[0], now) {
        Some(names[0])
    } else {
        first_healthy(h, r, names.skip(1), now)
    }
}

/// Whether the caretaker who holds continuity is at home and healthy.
pub open spec fn caretaker_ready(h: HubView, now: u64) -> bool {
    h.caretakers.contains("loca-care"@) && h.rooms.dom().contains(h.home_room) && healthy_in(
        h,
        h.rooms[h.home_room],
        "loca-care"@,
        now,
    )
}

/// Who owns the attention that a room calls for: the first healthy one of those
/// it asks, else the caretaker, else nobody.
pub open spec fn care_owner_of(h: HubView, room: Seq<char>, now: u64) -> Option<Seq<char>> {
    if !h.rooms.dom().contains(room) {
        None
    } else {
        match first_healthy(h, h.rooms[room], owner_candidates(h.rooms[room]), now) {
            Some(n) => Some(n),
            None => if caretaker_ready(h, now) {
                Some("loca-care"@)
            } else {
                None
            },
        }
    }
}

/// Whether a member holds a davet for a room, and their membership is in force.
pub open spec fn davet_held(h: HubView, room: Seq<char>, member: Seq<char>) -> bool {
    &&& member.len() > 0
    &&& h.members.dom().contains(member)
    &&& exists|k: Seq<char>|
        h.invites.dom().contains(k) && (#[trigger] h.invites[k]).room == room
            && h.invites[k].member == member
}

/// Whether a roster is that of everyone who holds a davet for a room: one entry
/// for each principal, in order, under a name of a member behind it; and none at
/// all where a member has no principal.
pub open spec fn is_everyone(
    h: HubView,
    dir: DirectoryView,
    room: Seq<char>,
    roster: Option<Seq<RecipientView>>,
) -> bool {
    match roster {
        None => exists|m: Seq<char>| #[trigger]
            davet_held(h, room, m) && !dir.by_member.dom().contains(m),
        Some(list) => {
            &&& forall|m: Seq<char>| #[trigger]
                davet_held(h, room, m) ==> dir.by_member.dom().contains(m) && exists|i: int|
                    0 <= i < list.len() && (#[trigger] list[i]).principal == Some(dir.by_member[m])
            &&& forall|i: int|
                0 <= i < list.len() ==> (#[trigger] list[i]).principal is Some && exists|m: Seq<char>|
                    #[trigger] davet_held(h, room, m) && list[i].principal == Some(dir.by_member[m])
                        && list[i].name == h.members[m].name
            &&& forall|i: int, j: int|
                0 <= i < j < list.len() ==> before(
                    (#[trigger] list[i]).principal->0,
                    (#[trigger] list[j]).principal->0,
                )
        },
    }
}

/// Whether the recipients are those whom a room calls: everyone on its roster
/// where it reminds everyone and has one, else the one owner.
pub open spec fn is_called(
    h: HubView,
    dir: DirectoryView,
    room: Seq<char>,
    now: u64,
    to: Seq<RecipientView>,
) -> bool {
    let single = match care_owner_of(h, room, now) {
        Some(n) => seq![RecipientView { name: n, principal: None }],
        None => Seq::empty(),
    };
    if h.rooms.dom().contains(room) && h.rooms[room].settings.care_recipient
        == ReminderRecipientView::All {
        ||| (to.len() == 0 && is_everyone(h, dir, room, None))
        ||| (to.len() > 0 && is_everyone(h, dir, room, Some(to)))
        ||| (to == single && is_everyone(h, dir, room, Some(Seq::empty())))
    } else {
        to == single
    }
}

impl Hub {
    /// Whom a room asks first.
    fn asked_first(&self, r: &Room) -> (v: Vec<String>)
        ensures
            views(v@) == owner_candidates(r@),
    {
        let mut out: Vec<String> = Vec::new();
        match &r.settings.care_recipient {
            ReminderRecipient::Lead => {
                if let Some(l) = &r.settings.lead {
                    out.push(l.clone());
                }
                assert(views(out@) =~= owner_candidates(r@));
            },
            ReminderRecipient::Person { name } => {
                out.push(name.clone());
                assert(views(out@) =~= owner_candidates(r@));
            },
            ReminderRecipient::All => {
                let names = r.seated_names();
                match &r.settings.lead {
                    None => {
                        return names;
                    },
                    Some(l) => {
                        out.push(l.clone());
                        assert(views(out@) =~= seq![l@]);
                        let ghost ns = views(names@);
                        let mut i: usize = 0;
                        assert(ns.take(0) =~= Seq::<Seq<char>>::empty());
                        assert(seq![l@] + Seq::<Seq<char>>::empty() =~= seq![l@]);
                        while i < names.len()
                            invariant
                                i <= names@.len(),
                                ns == views(names@),
                                views(out@) == seq![l@] + without(ns.take(i as int), l@),
                            decreases names@.len() - i,
                        {
                            assert(ns.take(i as int + 1).drop_last() =~= ns.take(i as int));
                            if !same(names[i].as_str(), l.as_str()) {
                                let x = names[i].clone();
                                proof {
                                    lemma_views_push(out@, x);
                                }
                                out.push(x);
                            }
                            assert(views(out@) =~= seq![l@] + without(ns.take(i as int + 1), l@));
                            i += 1;
                        }
                        assert(ns.take(ns.len() as int) =~= ns);
                    },
                }
            },
        }
        out
    }

    /// Whether somebody is healthy in a room.
    fn is_healthy_in(&self, r: &Room, name: &str, now: u64) -> (b: bool)
        ensures
            b == healthy_in(self@, r@, name@, now),
    {
        r.is_seated(name) && is_name_ready(&self.runtime_health, name, now)
    }

    /// The first of some people who is healthy in a room.
    pub fn healthy_of(&self, r: &Room, names: &Vec<String>, now: u64) -> (n: Option<String>)
        ensures
            ov(n) == first_healthy(self@, r@, views(names@), now),
    {
        let ghost ns = views(names@);
        let mut i: usize = 0;
        assert(ns.skip(0) =~= ns);
        while i < names.len()
            invariant
                i <= names@.len(),
                ns == views(names@),
                first_healthy(self@, r@, ns, now) == first_healthy(
                    self@,
                    r@,
                    ns.skip(i as int),
                    now,
                ),
            decreases names@.len() - i,
        {
            assert(ns.skip(i as int).skip(1) =~= ns.skip(i as int + 1));
            if self.is_healthy_in(r, names[i].as_str(), now) {
                return Some(names[i].clone());
            }
            i += 1;
        }
        None
    }

    /// Who owns the attention that a room calls for.
    pub fn care_owner(&self, room: &str, now: u64) -> (r: Option<String>)
        ensures
            ov(r) == care_owner_of(self@, room@, now),
    {
        let rm = match self.rooms.get(room) {
            Some(rm) => rm,
            None => return None,
        };
        let asked = self.asked_first(rm);
        if let Some(n) = self.healthy_of(rm, &asked, now) {
            return Some(n);
        }
        if !self.caretakers.contains("loca-care") {
            return None;
        }
        match self.rooms.get(self.home_room.as_str()) {
            Some(home) => if self.is_healthy_in(home, "loca-care", now) {
                Some("loca-care".to_owned())
            } else {
                None
            },
            None => None,
        }
    }

    /// Everyone who holds a davet for a room: one entry for each principal.
    /// `None` where a member has no principal: then nobody is called.
    pub fn everyone_recipients(&self, room: &str, dir: &Directory) -> (r: Option<Vec<Recipient>>)
        ensures
            is_everyone(
                self@,
                dir@,
                room@,
                match r {
                    Some(v) => Some(views(v@)),
                    None => None,
                },
            ),
    {
        let n = self.invites.len();
        let ghost ks = sorted_keys(self@.invites);
        let mut found: StrMap<String> = StrMap::new();
        let mut i: usize = 0;
        while i < n
            invariant
                i <= n == ks.len(),
                ks == sorted_keys(self@.invites),
                ks.to_set() == self@.invites.dom(),
                forall|j: int|
                    0 <= j < i && (#[trigger] self@.invites[ks[j]]).room == room@
                        && self@.invites[ks[j]].member.len() > 0 && self@.members.dom().contains(
                        self@.invites[ks[j]].member,
                    ) ==> dir@.by_member.dom().contains(self@.invites[ks[j]].member)
                        && found@.dom().contains(dir@.by_member[self@.invites[ks[j]].member]),
                forall|p: Seq<char>| #[trigger]
                    found@.dom().contains(p) ==> exists|m: Seq<char>| #[trigger]
                        davet_held(self@, room@, m) && dir@.by_member.dom().contains(m)
                            && dir@.by_member[m] == p && self@.members[m].name == found@[p],
            decreases n - i,
        {
            let (token, invite) = self.invites.at(i);
            assert(ks[i as int] == token@);
            assert(self@.invites[ks[i as int]] == invite@);
            if same(invite.room.as_str(), room) && !invite.member.as_str().is_empty() {
                if let Some(m) = self.members.get(invite.member.as_str()) {
                    assert(davet_held(self@, room@, invite.member@));
                    match dir.by_member.get(invite.member.as_str()) {
                        None => return None,
                        Some(p) => {
                            let ghost f0 = found@;
                            if !found.contains(p.as_str()) {
                                found.insert(p.clone(), m.name.clone());
                                assert forall|q: Seq<char>| #[trigger]
                                    found@.dom().contains(q) implies exists|m: Seq<char>| #[trigger]
                                    davet_held(self@, room@, m) && dir@.by_member.dom().contains(m)
                                        && dir@.by_member[m] == q && self@.members[m].name
                                        == found@[q] by {
                                    if q != p@ {
                                        assert(f0.dom().contains(q));
                                    } else {
                                        assert(davet_held(self@, room@, invite.member@));
                                    }
                                }
                            }
                        },
                    }
                }
            }
            i += 1;
        }
        let count = found.len();
        let ghost ps = sorted_keys(found@);
        let mut out: Vec<Recipient> = Vec::new();
        let mut k: usize = 0;
        while k < count
            invariant
                k <= count == ps.len(),
                ps == sorted_keys(found@),
                increasing(ps),
                out@.len() == k,
                forall|j: int|
                    0 <= j < k ==> (#[trigger] out@[j])@ == (RecipientView {
                        name: found@[ps[j]],
                        principal: Some(ps[j]),
                    }),
            decreases count - k,
        {
            let (p, name) = found.at(k);
            out.push(Recipient { name: name.clone(), principal: Some(p.clone()) });
            k += 1;
        }
        proof {
            let list = views(out@);
            assert forall|j: int| 0 <= j < list.len() implies #[trigger] list[j] == (RecipientView {
                name: found@[ps[j]],
                principal: Some(ps[j]),
            }) by {
                assert(out@[j]@ == list[j]);
            }
            assert forall|m: Seq<char>| #[trigger] davet_held(self@, room@, m) implies
                dir@.by_member.dom().contains(m) && exists|i: int|
                0 <= i < list.len() && (#[trigger] list[i]).principal == Some(dir@.by_member[m]) by {
                let t = choose|t: Seq<char>|
                    self@.invites.dom().contains(t) && (#[trigger] self@.invites[t]).room == room@
                        && self@.invites[t].member == m;
                assert(ks.to_set().contains(t));
                let j = choose|j: int| 0 <= j < ks.len() && ks[j] == t;
                assert(self@.invites[ks[j]].room == room@);
                let p = dir@.by_member[m];
                assert(found@.dom().contains(p));
                assert(ps.to_set().contains(p));
                let i = choose|i: int| 0 <= i < ps.len() && ps[i] == p;
                assert(list[i].principal == Some(p));
            }
            assert forall|i: int| 0 <= i < list.len() implies (#[trigger] list[i]).principal is Some
                && exists|m: Seq<char>| #[trigger]
                davet_held(self@, room@, m) && list[i].principal == Some(dir@.by_member[m])
                    && list[i].name == self@.members[m].name by {
                let p = ps[i];
                assert(ps.contains(p));
                assert(ps.to_set().contains(p));
                assert(found@.dom().contains(p));
                let m = choose|m: Seq<char>| #[trigger]
                    davet_held(self@, room@, m) && dir@.by_member.dom().contains(m)
                        && dir@.by_member[m] == p && self@.members[m].name == found@[p];
                assert(davet_held(self@, room@, m));
            }
        }
        Some(out)
    }

    /// Whether a principal still holds a davet for a room.
    pub fn everyone_recipient_active(&self, room: &str, principal_id: &str, dir: &Directory) -> (r: bool)
        ensures
            r == principal_active(self@, dir@, room@, principal_id@),
    {
        let n = self.invites.len();
        let ghost ks = sorted_keys(self@.invites);
        let mut i: usize = 0;
        while i < n
            invariant
                i <= n == ks.len(),
                ks == sorted_keys(self@.invites),
                ks.to_set() == self@.invites.dom(),
                forall|j: int|
                    0 <= j < i ==> !((#[trigger] self@.invites[ks[j]]).room == room@
                        && self@.invites[ks[j]].member.len() > 0 && self@.members.dom().contains(
                        self@.invites[ks[j]].member,
                    ) && dir@.by_member.dom().contains(self@.invites[ks[j]].member)
                        && dir@.by_member[self@.invites[ks[j]].member] == principal_id@),
            decreases n - i,
        {
            let (token, invite) = self.invites.at(i);
            assert(ks[i as int] == token@);
            if same(invite.room.as_str(), room) && !invite.member.as_str().is_empty()
                && self.members.contains(invite.member.as_str()) {
                if let Some(p) = dir.by_member.get(invite.member.as_str()) {
                    if same(p.as_str(), principal_id) {
                        assert(self@.invites[token@].member == invite.member@);
                        assert(davet_held(self@, room@, invite.member@));
                        return true;
                    }
                }
            }
            i += 1;
        }
        proof {
            if principal_active(self@, dir@, room@, principal_id@) {
                let m = choose|m: Seq<char>| #[trigger]
                    davet_held(self@, room@, m) && dir@.by_member.dom().contains(m)
                        && dir@.by_member[m] == principal_id@;
                let t = choose|t: Seq<char>|
                    self@.invites.dom().contains(t) && (#[trigger] self@.invites[t]).room == room@
                        && self@.invites[t].member == m;
                assert(ks.to_set().contains(t));
                let j = choose|j: int| 0 <= j < ks.len() && ks[j] == t;
                assert(self@.invites[ks[j]].room == room@);
            }
        }
        false
    }

    /// Whom a room calls.
    pub fn called(&self, room: &str, dir: &Directory, now: u64) -> (r: Vec<Recipient>)
        ensures
            is_called(self@, dir@, room@, now, views(r@)),
    {
        let everyone = match self.rooms.get(room) {
            Some(rm) => match rm.settings.care_recipient {
                ReminderRecipient::All => true,
                _ => false,
            },
            None => false,
        };
        let mut single: Vec<Recipient> = Vec::new();
        if everyone {
            match self.everyone_recipients(room, dir) {
                None => {
                    return single;
                },
                Some(list) => {
                    if list.len() > 0 {
                        return list;
                    }
                    assert(views(list@) =~= Seq::<RecipientView>::empty());
                },
            }
        }
        if let Some(n) = self.care_owner(room, now) {
            single.push(Recipient { name: n, principal: None });
            assert(views(single@) =~= seq![RecipientView { name: n@, principal: None }]);
        } else {
            assert(views(single@) =~= Seq::<RecipientView>::empty());
        }
        single
    }
}

/// Whether a principal still holds a davet for a room.
pub open spec fn principal_active(
    h: HubView,
    dir: DirectoryView,
    room: Seq<char>,
    principal: Seq<char>,
) -> bool {
    exists|m: Seq<char>| #[trigger]
        davet_held(h, room, m) && dir.by_member.dom().contains(m) && dir.by_member[m] == principal
}

} // verus!
